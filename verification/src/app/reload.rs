//! How open sessions take a new key of a profile.

use vstd::prelude::*;

use super::live::{all_keys, session_of};
use super::{App, LiveSession};
use crate::config::{
    has_profile, lemma_first_profile, model_problem, profile_named, resolution_problem,
    wanted_coordinator, wanted_worker, ConfigScope, ModelSelection, Profile, ProfileId,
    RuntimeConfig, RuntimeOverrides,
};
use crate::document::{listing, DocumentKey, KeyRange};
use crate::error::Error;
use crate::file_config::AdapterDefaults;
use crate::ids::SessionId;
use crate::persistence::{profile_views, StoreView};
use crate::seqs::{lemma_filter_none, lemma_filter_step, lemma_take_all};

verus! {

impl StoreView {
    /// What the workspace of a session sets.
    pub open spec fn shared_config(self, session: SessionId, defaults: AdapterDefaults) -> RuntimeOverrides {
        self.scope_config(ConfigScope::Workspace(self.session(session).info.workspace), defaults)
    }

    /// What a session sets for itself.
    pub open spec fn own_config(self, session: SessionId, defaults: AdapterDefaults) -> RuntimeOverrides {
        self.scope_config(ConfigScope::Session(session), defaults)
    }

    /// Whether the configuration of a session is complete.
    pub open spec fn configured(self, session: SessionId, defaults: AdapterDefaults) -> bool {
        &&& self.has_session(session)
        &&& self.has_workspace(self.session(session).info.workspace)
        &&& exists|profiles: Seq<Profile>| #[trigger]
            self.offers(profile_views(profiles)) && resolution_problem(
                self.user_settings(defaults),
                Some(&self.shared_config(session, defaults)),
                Some(&self.own_config(session, defaults)),
                profiles,
            ) is None
    }

    /// Whether a session is to take a new key of a profile: its configuration is complete and
    /// selects the profile in one of its roles.
    pub open spec fn takes(self, session: SessionId, name: Seq<char>, defaults: AdapterDefaults) -> bool {
        let user = self.user_settings(defaults);
        let shared = self.shared_config(session, defaults);
        let own = self.own_config(session, defaults);
        &&& self.configured(session, defaults)
        &&& {
            ||| wanted_worker(user, Some(&shared), Some(&own))->0.profile@ == name
            ||| wanted_coordinator(user, Some(&shared), Some(&own))->0.profile@ == name
        }
    }
}

/// Whether an open session takes a new key: it is not being released, and uses the profile.
pub open spec fn reloads(
    sessions: Map<DocumentKey, LiveSession>,
    store: StoreView,
    name: Seq<char>,
    defaults: AdapterDefaults,
) -> spec_fn(DocumentKey) -> bool {
    |key: DocumentKey|
        !sessions[key].releasing && store.takes(SessionId(key.owner), name, defaults)
}

/// The profile that a name stands for has the name.
proof fn lemma_named(profiles: Seq<Profile>, name: Seq<char>, bound: int)
    requires
        0 <= bound <= profiles.len(),
        exists|i: int| 0 <= i < bound && (#[trigger] profiles[i]).id@ == name,
    ensures
        exists|i: int| crate::config::first_profile(profiles, name, i),
        profile_named(profiles, name).id@ == name,
    decreases bound,
{
    let at = choose|i: int| 0 <= i < bound && (#[trigger] profiles[i]).id@ == name;
    if exists|i: int| 0 <= i < at && (#[trigger] profiles[i]).id@ == name {
        lemma_named(profiles, name, at);
    } else {
        assert(crate::config::first_profile(profiles, name, at));
        lemma_first_profile(profiles, name, at);
    }
}

/// Whether a selection can be used depends on the names and the protocols of the profiles alone.
pub proof fn lemma_same_problem(selection: ModelSelection, a: Seq<Profile>, b: Seq<Profile>)
    requires
        a.len() == b.len(),
        forall|i: int| #![trigger a[i]] #![trigger b[i]]
            0 <= i < a.len() ==> a[i].id@ == b[i].id@ && a[i].endpoint.protocol
                == b[i].endpoint.protocol,
    ensures
        model_problem(selection, a) == model_problem(selection, b),
        model_problem(selection, a) is None ==> profile_named(a, selection.profile@).endpoint.protocol
            == profile_named(b, selection.profile@).endpoint.protocol,
{
    let name = selection.profile@;
    if has_profile(a, name) {
        lemma_named(a, name, a.len() as int);
        let at = choose|i: int| crate::config::first_profile(a, name, i);
        assert(a[at].id@ == b[at].id@);
        assert(crate::config::first_profile(b, name, at));
        lemma_first_profile(a, name, at);
        lemma_first_profile(b, name, at);
    } else if has_profile(b, name) {
        let at = choose|i: int| 0 <= i < b.len() && (#[trigger] b[i]).id@ == name;
        assert(a[at].id@ == name);
    }
}

/// All lists of a store's profiles agree in their names and protocols.
pub proof fn lemma_offers_agree(store: StoreView, a: Seq<Profile>, b: Seq<Profile>)
    requires
        store.offers(profile_views(a)),
        store.offers(profile_views(b)),
    ensures
        a.len() == b.len(),
        forall|i: int| #![trigger a[i]] #![trigger b[i]]
            0 <= i < a.len() ==> a[i].id@ == b[i].id@ && a[i].endpoint.protocol
                == b[i].endpoint.protocol,
{
    let left = profile_views(a);
    let right = profile_views(b);
    assert(left.len() == a.len() && right.len() == b.len());
    assert(left.len() == right.len());
    assert forall|i: int| #![trigger a[i]] #![trigger b[i]] 0 <= i < a.len() implies a[i].id@
        == b[i].id@ && a[i].endpoint.protocol == b[i].endpoint.protocol by {
        assert(left[i] == a[i]@);
        assert(right[i] == b[i]@);
    }
}

/// Whether a configuration uses a profile in one of its roles.
pub open spec fn uses(config: RuntimeConfig, name: Seq<char>) -> bool {
    config.worker.profile.id@ == name || config.coordinator.profile.id@ == name
}

/// Whether a configuration uses a profile in one of its roles.
pub fn uses_profile(config: &RuntimeConfig, profile: &ProfileId) -> (r: bool)
    ensures
        r == uses(*config, profile@),
{
    config.worker.profile.id.same(profile) || config.coordinator.profile.id.same(profile)
}

/// Whether these are the sessions that take a new key.
pub open spec fn reloads_sessions(
    app: App,
    profile: ProfileId,
    defaults: AdapterDefaults,
    r: Result<Vec<SessionId>, Error>,
) -> bool {
    match r {
        Err(error) => app.closed && error == Error::Closed,
        Ok(told) => !app.closed && told@ == listing(
            app.sessions@.dom(),
            all_keys(),
        ).filter(reloads(app.sessions@, app.store@, profile@, defaults)).map_values(
            session_of(),
        ),
    }
}

impl App {
    /// Whether a session is to take a new key of a profile.
    pub fn takes_key(&self, session: SessionId, profile: &ProfileId, defaults: AdapterDefaults) -> (r:
        bool)
        requires
            defaults.usable(),
        ensures
            r == self.store@.takes(session, profile@, defaults),
    {
        let answer = self.resolve_session_config(session, defaults.clone());
        let ghost store = self.store@;
        proof {
            if store.has_session(session) && store.has_workspace(
                store.session(session).info.workspace,
            ) {
                let user = store.user_settings(defaults);
                let shared = store.shared_config(session, defaults);
                let own = store.own_config(session, defaults);
                let desired = answer->Ok_0;
                let profiles = choose|profiles: Seq<Profile>| #[trigger]
                    store.offers(profile_views(profiles)) && super::configuring::wants(
                        store,
                        store.session(session).info.workspace,
                        Some(session),
                        defaults,
                        profiles,
                        desired,
                    );
                let problem = resolution_problem(user, Some(&shared), Some(&own), profiles);
                assert(store.offers(profile_views(profiles)));
                let worker = wanted_worker(user, Some(&shared), Some(&own));
                let coordinator = wanted_coordinator(user, Some(&shared), Some(&own));
                if store.configured(session, defaults) {
                    let others = choose|others: Seq<Profile>| #[trigger]
                        store.offers(profile_views(others)) && resolution_problem(
                            user,
                            Some(&shared),
                            Some(&own),
                            others,
                        ) is None;
                    lemma_offers_agree(store, profiles, others);
                    lemma_same_problem(worker->0, profiles, others);
                    lemma_same_problem(coordinator->0, profiles, others);
                    assert(problem is None);
                }
                if problem is None {
                    assert(has_profile(profiles, worker->0.profile@));
                    assert(has_profile(profiles, coordinator->0.profile@));
                    lemma_named(profiles, worker->0.profile@, profiles.len() as int);
                    lemma_named(profiles, coordinator->0.profile@, profiles.len() as int);
                    let config = desired->Ok_0;
                    assert(config@.worker_profile.id@ == worker->0.profile@);
                    assert(config@.coordinator_profile.id@ == coordinator->0.profile@);
                }
            }
        }
        match &answer {
            Ok(Ok(config)) => uses_profile(config, profile),
            _ => false,
        }
    }

    /// The open sessions that are to take a new key of a profile, in the order of their keys.
    pub fn reload_profile_sessions(&self, profile: &ProfileId, defaults: AdapterDefaults) -> (r: Result<
        Vec<SessionId>,
        Error,
    >)
        requires
            defaults.usable(),
        ensures
            reloads_sessions(*self, *profile, defaults, r),
    {
        if self.closed {
            return Err(Error::Closed);
        }
        let keys = self.sessions.select(&KeyRange { owner: None, item: None, before: None });
        let ghost keep = reloads(self.sessions@, self.store@, profile@, defaults);
        let mut told: Vec<SessionId> = Vec::new();
        let mut i: usize = 0;
        proof {
            lemma_filter_none(keys@, keep);
            assert(told@ =~= keys@.take(0).filter(keep).map_values(session_of()));
        }
        while i < keys.len()
            invariant
                i <= keys@.len(),
                defaults.usable(),
                keys@ == listing(self.sessions@.dom(), all_keys()),
                keep == reloads(self.sessions@, self.store@, profile@, defaults),
                forall|j: int| #![trigger keys@[j]]
                    0 <= j < keys@.len() ==> self.sessions@.dom().contains(keys@[j]),
                told@ == keys@.take(i as int).filter(keep).map_values(session_of()),
            decreases keys@.len() - i,
        {
            proof {
                assert(self.sessions@.dom().contains(keys@[i as int]));
                lemma_filter_step(keys@, i as int, keep);
            }
            match self.sessions.get(&keys[i]) {
                Some(session) => {
                    let id = SessionId(keys[i].owner);
                    if !session.releasing && self.takes_key(id, profile, defaults.clone()) {
                        told.push(id);
                    }
                },
                None => {},
            }
            proof {
                assert(told@ =~= keys@.take(i + 1).filter(keep).map_values(session_of()));
            }
            i = i + 1;
        }
        proof {
            lemma_take_all(keys@);
        }
        Ok(told)
    }
}

/// Sessions that are told of a change, one after the other.
#[derive(Debug, PartialEq, Eq)]
pub struct Reload {
    pub sessions: Vec<SessionId>,
    /// How many have answered.
    pub told: usize,
}

impl Reload {
    /// No more have answered than there are.
    pub open spec fn wf(self) -> bool {
        self.told <= self.sessions@.len()
    }

    /// The sessions that are still to be told.
    pub open spec fn left(self) -> Seq<SessionId> {
        self.sessions@.skip(self.told as int)
    }

    /// All sessions are to be told.
    pub fn new(sessions: Vec<SessionId>) -> (r: Reload)
        ensures
            r.wf(),
            r.left() == sessions@,
    {
        let r = Reload { sessions, told: 0 };
        assert(r.left() =~= sessions@);
        r
    }

    /// The session that is to be told next.
    pub fn next(&self) -> (r: Option<SessionId>)
        requires
            self.wf(),
        ensures
            r == (if self.left().len() == 0 {
                None
            } else {
                Some(self.left()[0])
            }),
    {
        if self.told < self.sessions.len() {
            Some(self.sessions[self.told])
        } else {
            None
        }
    }

    /// Takes the answer of the session that was told. One that has closed in the meantime takes the
    /// change when it is opened again. Any other failure is reported, and no more sessions are
    /// told.
    pub fn answered(&mut self, answer: Result<(), Error>) -> (r: Result<(), Error>)
        requires
            old(self).wf(),
            old(self).left().len() > 0,
        ensures
            final(self).wf(),
            answer is Ok || answer == Err::<(), Error>(Error::Closed) ==> r is Ok
                && final(self).left() == old(self).left().drop_first(),
            answer is Err && answer != Err::<(), Error>(Error::Closed) ==> r == answer
                && final(self).left() == Seq::<SessionId>::empty(),
    {
        let count: usize = self.sessions.len();
        assert(self.told < count);
        match answer {
            Ok(()) | Err(Error::Closed) => {
                self.told = self.told + 1;
                assert(self.left() =~= old(self).left().drop_first());
                Ok(())
            },
            Err(error) => {
                self.told = count;
                assert(self.left() =~= Seq::<SessionId>::empty());
                Err(error)
            },
        }
    }
}

/// What saving a key comes to once the sessions were told of it: the key stays saved though one of
/// them did not take it.
pub fn key_outcome(profile: ProfileId, reload: Result<(), String>) -> (r: Result<(), Error>)
    ensures
        r == (match reload {
            Ok(()) => Ok(()),
            Err(message) => Err(Error::CredentialsSaved { profile, message }),
        }),
{
    match reload {
        Ok(()) => Ok(()),
        Err(message) => Err(Error::CredentialsSaved { profile, message }),
    }
}

} // verus!
