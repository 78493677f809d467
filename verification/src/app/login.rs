//! The progress of an interactive login.

use vstd::prelude::*;

use crate::api::LoginState;

verus! {

/// What happens during a login.
#[derive(Debug, PartialEq, Eq)]
pub enum LoginEvent {
    /// The user is to enter a code.
    Prompt { verification_uri: String, user_code: String },
    /// The provider has answered; a refusal comes with its message.
    Answered(Result<(), String>),
    /// The user has given up.
    GivenUp,
}

impl LoginState {
    /// Whether the login has ended.
    pub open spec fn has_ended(self) -> bool {
        self is Succeeded || self is Failed || self is Cancelled
    }

    /// The state after an event. An ended login stays as it is.
    pub open spec fn after(self, event: LoginEvent) -> LoginState {
        if self.has_ended() {
            self
        } else {
            match event {
                LoginEvent::Prompt { verification_uri, user_code } => LoginState::DeviceCode {
                    verification_uri,
                    user_code,
                },
                LoginEvent::Answered(Ok(())) => LoginState::Succeeded,
                LoginEvent::Answered(Err(message)) => LoginState::Failed { message },
                LoginEvent::GivenUp => LoginState::Cancelled,
            }
        }
    }

    /// Whether the login has ended.
    pub fn ended(&self) -> (r: bool)
        ensures
            r == self.has_ended(),
    {
        match self {
            LoginState::Succeeded => true,
            LoginState::Failed { .. } => true,
            LoginState::Cancelled => true,
            _ => false,
        }
    }

    /// Goes on after an event.
    pub fn observe(&mut self, event: LoginEvent)
        ensures
            *final(self) == old(self).after(event),
    {
        if self.ended() {
            return ;
        }
        *self = match event {
            LoginEvent::Prompt { verification_uri, user_code } => LoginState::DeviceCode {
                verification_uri,
                user_code,
            },
            LoginEvent::Answered(Ok(())) => LoginState::Succeeded,
            LoginEvent::Answered(Err(message)) => LoginState::Failed { message },
            LoginEvent::GivenUp => LoginState::Cancelled,
        };
    }
}

/// Whatever happens, an ended login keeps its end.
pub proof fn law_ended_login_stays(state: LoginState, events: Seq<LoginEvent>)
    requires
        state.has_ended(),
    ensures
        events.fold_left(state, |s: LoginState, e: LoginEvent| s.after(e)) == state,
    decreases events.len(),
{
    if events.len() > 0 {
        law_ended_login_stays(state, events.drop_last());
    }
}

} // verus!
