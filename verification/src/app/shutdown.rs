//! How the application is shut down.

use vstd::prelude::*;
use vstd::seq_lib::group_to_multiset_ensures;

use super::App;
use crate::api::{AppShutdownReport, UnresolvedWriteView};
use crate::document::Table;
use crate::error::Error;
use crate::persistence::StoreView;

verus! {

/// How far the shutdown is.
#[derive(Debug, PartialEq, Eq)]
pub enum Shutdown {
    Idle,
    Running,
    Complete(AppShutdownReport),
}

/// What a request to shut down is answered at once.
#[derive(Debug, PartialEq, Eq)]
pub enum ShutdownStep {
    /// The sessions are to be shut down now.
    Start,
    /// They are being shut down; the request waits for that.
    Wait,
    Report(AppShutdownReport),
}

/// A copy of a report.
pub fn copy_report(report: &AppShutdownReport) -> (r: AppShutdownReport)
    ensures
        r.unresolved_writes@ == report.unresolved_writes@,
{
    let mut writes: Vec<UnresolvedWriteView> = Vec::new();
    let mut i: usize = 0;
    while i < report.unresolved_writes.len()
        invariant
            i <= report.unresolved_writes@.len(),
            writes@ == report.unresolved_writes@.take(i as int),
        decreases report.unresolved_writes@.len() - i,
    {
        writes.push(report.unresolved_writes[i].clone());
        proof {
            assert(writes@ =~= report.unresolved_writes@.take(i + 1));
        }
        i = i + 1;
    }
    proof {
        assert(writes@ =~= report.unresolved_writes@);
    }
    AppShutdownReport { unresolved_writes: writes }
}

/// Whether asking for the end gives this state, this application and this step.
pub open spec fn requests_shutdown(
    shutdown: Shutdown,
    app: App,
    done: Shutdown,
    next: App,
    r: ShutdownStep,
) -> bool {
    &&& next.store@ == app.store@
    &&& next.sessions@ == app.sessions@
    &&& match shutdown {
        Shutdown::Idle => {
            &&& r == ShutdownStep::Start
            &&& done == Shutdown::Running
            &&& next.closed
        },
        Shutdown::Running => {
            &&& r == ShutdownStep::Wait
            &&& done == shutdown
            &&& next.closed == app.closed
        },
        Shutdown::Complete(report) => {
            &&& r matches ShutdownStep::Report(shown)
            &&& shown.unresolved_writes@ == report.unresolved_writes@
            &&& done == shutdown
            &&& next.closed == app.closed
        },
    }
}

/// Whether the result of the end gives this state and this answer.
pub open spec fn ends_shutdown(
    result: Result<AppShutdownReport, Error>,
    done: Shutdown,
    r: Result<AppShutdownReport, Error>,
) -> bool {
    match result {
        Ok(report) => {
            &&& done == Shutdown::Complete(report)
            &&& r matches Ok(shown)
            &&& shown.unresolved_writes@ == report.unresolved_writes@
        },
        Err(error) => {
            &&& done == Shutdown::Idle
            &&& r == Err::<AppShutdownReport, Error>(error)
        },
    }
}

impl Shutdown {
    /// A request to shut down: the first one starts it and closes the application, one in the
    /// meantime waits for it, and once it is complete each gets the report.
    pub fn request(&mut self, app: &mut App) -> (r: ShutdownStep)
        ensures
            requests_shutdown(*old(self), *old(app), *final(self), *final(app), r),
    {
        match self {
            Shutdown::Idle => {
                app.closed = true;
                *self = Shutdown::Running;
                ShutdownStep::Start
            },
            Shutdown::Running => ShutdownStep::Wait,
            Shutdown::Complete(report) => ShutdownStep::Report(copy_report(report)),
        }
    }

    /// The end of the shutdown: with a report it is complete, with an error it can be tried again.
    pub fn ended(&mut self, result: Result<AppShutdownReport, Error>) -> (r: Result<
        AppShutdownReport,
        Error,
    >)
        ensures
            ends_shutdown(result, *final(self), r),
    {
        match result {
            Ok(report) => {
                let shown = copy_report(&report);
                *self = Shutdown::Complete(report);
                Ok(shown)
            },
            Err(error) => {
                *self = Shutdown::Idle;
                Err(error)
            },
        }
    }
}

/// The first error among the answers of the sessions, in the order in which they came.
pub open spec fn first_failure(answers: Seq<Result<(), Error>>, at: int) -> bool {
    &&& 0 <= at < answers.len()
    &&& answers[at] is Err
    &&& forall|i: int| 0 <= i < at ==> (#[trigger] answers[i]) is Ok
}

/// Whether a write stands before another in a report: by workspace, then session, then call.
pub open spec fn listed_before(a: UnresolvedWriteView, b: UnresolvedWriteView) -> bool {
    ||| a.workspace.0 < b.workspace.0
    ||| a.workspace == b.workspace && a.session.0 < b.session.0
    ||| a.workspace == b.workspace && a.session == b.session && a.call.precedes(b.call)
}

fn is_listed_before(a: &UnresolvedWriteView, b: &UnresolvedWriteView) -> (r: bool)
    ensures
        r == listed_before(*a, *b),
{
    if a.workspace != b.workspace {
        return a.workspace.0 < b.workspace.0;
    }
    if a.session != b.session {
        return a.session.0 < b.session.0;
    }
    a.call.is_before(b.call)
}

/// Whether no write stands before an earlier one.
pub open spec fn in_report_order(writes: Seq<UnresolvedWriteView>) -> bool {
    forall|i: int, j: int|
        0 <= i < j < writes.len() ==> !listed_before(#[trigger] writes[j], #[trigger] writes[i])
}

/// Puts a write in its place.
fn insert_write(writes: &mut Vec<UnresolvedWriteView>, write: UnresolvedWriteView)
    requires
        in_report_order(old(writes)@),
    ensures
        in_report_order(final(writes)@),
        final(writes)@.to_multiset() == old(writes)@.to_multiset().insert(write),
        final(writes)@.len() == old(writes)@.len() + 1,
{
    let ghost before = writes@;
    let mut at: usize = writes.len();
    while at > 0 && is_listed_before(&write, &writes[at - 1])
        invariant
            at <= writes@.len(),
            writes@ == before,
            forall|i: int| at <= i < before.len() ==> listed_before(write, #[trigger] before[i]),
        decreases at,
    {
        at = at - 1;
    }
    let ghost value = write;
    writes.insert(at, write);
    proof {
        let after = writes@;
        assert(after =~= before.insert(at as int, value));
        assert forall|i: int, j: int| 0 <= i < j < after.len() implies !listed_before(
            #[trigger] after[j],
            #[trigger] after[i],
        ) by {
            let a = if i < at { before[i] } else if i == at { value } else { before[i - 1] };
            let b = if j < at { before[j] } else if j == at { value } else { before[j - 1] };
            assert(after[i] == a && after[j] == b);
            if j == at {
                if at > 0 {
                    assert(!listed_before(value, before[at - 1]));
                    if i < at - 1 {
                        assert(!listed_before(before[at - 1], before[i]));
                    }
                }
            } else if i == at {
                assert(listed_before(value, before[j - 1]));
            }
        }
        broadcast use group_to_multiset_ensures;

        assert(after.remove(at as int) =~= before);
        assert(after.to_multiset().remove(after[at as int]) == before.to_multiset());
        assert(after.contains(after[at as int]));
        assert(after.to_multiset() =~= before.to_multiset().insert(value));
    }
}

/// Everything that the workspaces of a store have not settled, one after the other.
pub open spec fn unsettled_from(store: StoreView, count: int) -> Seq<UnresolvedWriteView>
    decreases count,
{
    if count <= 0 {
        Seq::empty()
    } else {
        unsettled_from(store, count - 1) + store.unresolved(store.workspaces[count - 1].id, None)
    }
}

/// Whether the answers of all sessions give this application and this report.
pub open spec fn finishes_shutdown(
    app: App,
    answers: Seq<Result<(), Error>>,
    next: App,
    r: Result<AppShutdownReport, Error>,
) -> bool {
    &&& next.store@ == app.store@
    &&& next.closed == app.closed
    &&& match r {
        Err(error) => {
            &&& exists|at: int|
                #[trigger] first_failure(answers, at) && answers[at]->Err_0 == error
            &&& next.sessions@ == app.sessions@
        },
        Ok(report) => {
            &&& forall|i: int| 0 <= i < answers.len() ==> (#[trigger] answers[i]) is Ok
            &&& next.sessions@ == Map::<
                crate::document::DocumentKey,
                super::LiveSession,
            >::empty()
            &&& in_report_order(report.unresolved_writes@)
            &&& report.unresolved_writes@.to_multiset() == unsettled_from(
                app.store@,
                app.store@.workspaces.len() as int,
            ).to_multiset()
        },
    }
}

impl App {
    /// Ends the shutdown of all sessions with their answers, in the order in which they came: the
    /// first error, else a report of every write that is not settled, by workspace, session and
    /// call. Then no session is open.
    pub fn finish_shutdown(&mut self, answers: Vec<Result<(), Error>>) -> (r: Result<
        AppShutdownReport,
        Error,
    >)
        ensures
            finishes_shutdown(*old(self), answers@, *final(self), r),
    {
        let ghost all = answers@;
        let mut left = answers;
        let mut i: usize = 0;
        let count: usize = left.len();
        while i < count
            invariant
                i <= count,
                count == all.len(),
                all == answers@,
                left@ == all.skip(i as int),
                forall|j: int| 0 <= j < i ==> (#[trigger] all[j]) is Ok,
                *self == *old(self),
            decreases count - i,
        {
            assert(left@[0] == all[i as int]);
            let answer = left.remove(0);
            proof {
                assert(left@ =~= all.skip(i + 1));
            }
            match answer {
                Ok(()) => {},
                Err(error) => {
                    assert(first_failure(all, i as int));
                    return Err(error);
                },
            }
            i = i + 1;
        }
        let ghost store = self.store@;
        let workspaces = self.store.workspaces();
        let mut writes: Vec<UnresolvedWriteView> = Vec::new();
        let mut k: usize = 0;
        while k < workspaces.len()
            invariant
                k <= workspaces@.len(),
                *self == *old(self),
                store == self.store@,
                crate::persistence::catalogue(workspaces@) == store.workspaces,
                in_report_order(writes@),
                writes@.to_multiset() == unsettled_from(store, k as int).to_multiset(),
            decreases workspaces@.len() - k,
        {
            proof {
                assert(store.workspaces[k as int].id == workspaces@[k as int].id);
            }
            let found = self.store.unresolved_writes(workspaces[k].id, None);
            let ghost earlier = unsettled_from(store, k as int);
            let mut n: usize = 0;
            proof {
                assert(earlier + found@.take(0) =~= earlier);
            }
            while n < found.len()
                invariant
                    n <= found@.len(),
                    in_report_order(writes@),
                    writes@.to_multiset() == (earlier + found@.take(n as int)).to_multiset(),
                decreases found@.len() - n,
            {
                proof {
                    broadcast use group_to_multiset_ensures;

                    assert(earlier + found@.take(n + 1) =~= (earlier + found@.take(n as int)).push(
                        found@[n as int],
                    ));
                }
                insert_write(&mut writes, found[n].clone());
                n = n + 1;
            }
            proof {
                assert(found@.take(n as int) =~= found@);
                assert(unsettled_from(store, k + 1) == earlier + found@);
            }
            k = k + 1;
        }
        self.sessions = Table::new();
        Ok(AppShutdownReport { unresolved_writes: writes })
    }
}

} // verus!
