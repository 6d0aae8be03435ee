//! Two-phase SET commit protocol (RFC 3416).
//!
//! A SET request is served in two phases. In the test phase every variable
//! binding is checked in order: write access, a handler that owns the OID,
//! and the handler's `test_set`. Only when every test has succeeded does the
//! commit phase call `commit_set` for each binding in order. When a commit
//! fails, `undo_set` is called on the bindings that were committed, in
//! reverse order.
//!
//! The transaction decides; the caller performs each action on the handler
//! and hands back what came of it.

use vstd::prelude::*;

use super::registry::HandlerRegistry;
use super::vacm::VacmConfig;
use crate::error::ErrorStatus;
use crate::handler::results::SetResult;
use crate::pdu::{duplicate_varbinds, Pdu, PduType};
use crate::varbind::{views, VarBind, VarBindView};
use crate::version::Version;

verus! {

/// What the tables say of one variable binding of a SET request.
#[derive(Debug, Clone, Copy, PartialEq, Eq, Structural)]
pub enum Resolution {
    /// The write view does not contain the OID.
    Denied,
    /// No handler owns the OID.
    NoHandler,
    /// The handler with this number owns the OID.
    Handler(usize),
}

/// Where a transaction stands.
#[derive(Debug, Clone, Copy, PartialEq, Eq, Structural)]
pub enum SetPhase {
    /// Nothing has been done yet.
    Ready,
    /// The result of `test_set` on the binding at `index` is awaited.
    Testing,
    /// The result of `commit_set` on the binding at `index` is awaited.
    Committing,
    /// The end of `undo_set` on the binding at `index` is awaited.
    Undoing,
    /// The response has been given.
    Done,
}

/// What the caller reports to the transaction.
#[derive(Debug, Clone, Copy, PartialEq, Eq, Structural)]
pub enum SetEvent {
    /// The request is to be served.
    Start,
    /// `test_set` returned.
    Tested(SetResult),
    /// `commit_set` returned.
    Committed(SetResult),
    /// `undo_set` returned.
    Undone,
}

/// What the transaction asks of the caller.
#[derive(Debug)]
pub enum SetAction {
    /// Call `test_set` of the handler on the binding at `index`.
    Test { index: usize, handler: usize },
    /// Call `commit_set` of the handler on the binding at `index`.
    Commit { index: usize, handler: usize },
    /// Call `undo_set` of the handler on the binding at `index`.
    Undo { index: usize, handler: usize },
    /// Send this response; the transaction is over.
    Respond(Pdu),
}

/// An action, apart from how it is stored.
pub enum ActionView {
    Test { index: int, handler: int },
    Commit { index: int, handler: int },
    Undo { index: int, handler: int },
    Respond { status: int, index: int },
}

/// The state of a transaction.
pub struct SetState {
    /// What the tables say of each binding.
    pub plan: Seq<Resolution>,
    /// The version of the request.
    pub version: Version,
    /// The phase.
    pub phase: SetPhase,
    /// The binding that the phase is at.
    pub index: int,
    /// In the undo phase, the binding whose commit failed.
    pub failed: int,
}

/// The error index for the binding at position `i`: its 1-based position,
/// or the largest index that the field can hold.
pub open spec fn error_index_at(i: int) -> int {
    if i + 1 > 0x7FFF_FFFF {
        0x7FFF_FFFF
    } else {
        i + 1
    }
}

/// The status for a binding that the write view does not contain.
pub open spec fn denied_status(version: Version) -> int {
    if version == Version::V1 {
        ErrorStatus::NoSuchName.code()
    } else {
        ErrorStatus::NoAccess.code()
    }
}

/// The status for a binding that no handler owns.
pub open spec fn unowned_status(version: Version) -> int {
    if version == Version::V1 {
        ErrorStatus::NoSuchName.code()
    } else {
        ErrorStatus::NotWritable.code()
    }
}

/// The handler of a resolution, or 0 where it names none.
pub open spec fn handler_of(r: Resolution) -> int {
    match r {
        Resolution::Handler(h) => h as int,
        _ => 0,
    }
}

impl SetState {
    /// A transaction that has not started.
    pub open spec fn ready(plan: Seq<Resolution>, version: Version) -> SetState {
        SetState { plan, version, phase: SetPhase::Ready, index: 0, failed: 0 }
    }

    /// The transaction is over, with the given response.
    pub open spec fn respond(self, status: int, index: int) -> (SetState, ActionView) {
        (SetState { phase: SetPhase::Done, ..self }, ActionView::Respond { status, index })
    }

    /// Turns to the test of the binding at `i`, or to the commit phase when
    /// every binding has been tested.
    pub open spec fn enter_test(self, i: int) -> (SetState, ActionView) {
        if i >= self.plan.len() {
            self.enter_commit(0)
        } else {
            match self.plan[i] {
                Resolution::Denied => self.respond(denied_status(self.version), error_index_at(i)),
                Resolution::NoHandler => self.respond(
                    unowned_status(self.version),
                    error_index_at(i),
                ),
                Resolution::Handler(h) => (
                    SetState { phase: SetPhase::Testing, index: i, ..self },
                    ActionView::Test { index: i, handler: h as int },
                ),
            }
        }
    }

    /// Turns to the commit of the binding at `i`, or to the response of
    /// success when every binding has been committed.
    pub open spec fn enter_commit(self, i: int) -> (SetState, ActionView) {
        if i >= self.plan.len() {
            self.respond(ErrorStatus::NoError.code(), 0)
        } else {
            (
                SetState { phase: SetPhase::Committing, index: i, ..self },
                ActionView::Commit { index: i, handler: handler_of(self.plan[i]) },
            )
        }
    }

    /// Turns to the undo of the binding at `i`, or to the response
    /// `commitFailed` when every committed binding has been undone.
    pub open spec fn enter_undo(self, i: int, failed: int) -> (SetState, ActionView) {
        if i < 0 || i >= self.plan.len() {
            self.respond(ErrorStatus::CommitFailed.code(), error_index_at(failed))
        } else {
            (
                SetState { phase: SetPhase::Undoing, index: i, failed, ..self },
                ActionView::Undo { index: i, handler: handler_of(self.plan[i]) },
            )
        }
    }

    /// The state after an event, and the action that the transaction asks
    /// for. An event that the phase does not await ends the transaction with
    /// `genErr`.
    pub open spec fn step(self, event: SetEvent) -> (SetState, ActionView) {
        match (self.phase, event) {
            (SetPhase::Ready, SetEvent::Start) => self.enter_test(0),
            (SetPhase::Testing, SetEvent::Tested(result)) => if result == SetResult::Success {
                self.enter_test(self.index + 1)
            } else {
                self.respond(result.status().code(), error_index_at(self.index))
            },
            (SetPhase::Committing, SetEvent::Committed(result)) => if result == SetResult::Success {
                self.enter_commit(self.index + 1)
            } else {
                self.enter_undo(self.index - 1, self.index)
            },
            (SetPhase::Undoing, SetEvent::Undone) => self.enter_undo(self.index - 1, self.failed),
            _ => self.respond(ErrorStatus::GenErr.code(), 0),
        }
    }

    /// An upper bound on the number of actions that the transaction still
    /// asks for.
    pub open spec fn budget(self) -> int {
        let n = self.plan.len() as int;
        match self.phase {
            SetPhase::Ready => 3 * n + 3,
            SetPhase::Testing => 3 * n + 2 - self.index,
            SetPhase::Committing => 2 * n + 1 - self.index,
            SetPhase::Undoing => self.index + 1,
            SetPhase::Done => 0,
        }
    }

    /// The index lies inside the request.
    pub open spec fn wf(self) -> bool {
        match self.phase {
            SetPhase::Ready => true,
            SetPhase::Done => true,
            _ => 0 <= self.index < self.plan.len(),
        }
    }

    /// The actions that the transaction asks for from an event on, when the
    /// handlers answer the test of the binding at `i` with `tests[i]` and
    /// its commit with `commits[i]`. The last action is the response.
    pub open spec fn run(self, event: SetEvent, tests: Seq<SetResult>, commits: Seq<SetResult>) -> Seq<
        ActionView,
    >
        decreases self.budget(),
    {
        let (next, action) = self.step(event);
        if next.budget() < self.budget() && 0 <= next.budget() {
            match action {
                ActionView::Respond { .. } => seq![action],
                ActionView::Test { index, .. } => seq![action] + next.run(
                    SetEvent::Tested(tests[index]),
                    tests,
                    commits,
                ),
                ActionView::Commit { index, .. } => seq![action] + next.run(
                    SetEvent::Committed(commits[index]),
                    tests,
                    commits,
                ),
                ActionView::Undo { .. } => seq![action] + next.run(SetEvent::Undone, tests, commits),
            }
        } else {
            seq![action]
        }
    }
}

/// The tests of the bindings from `i` to `j`, in order.
pub open spec fn test_actions(plan: Seq<Resolution>, i: int, j: int) -> Seq<ActionView> {
    Seq::new(
        (if j > i { j - i } else { 0int }) as nat,
        |k: int| ActionView::Test { index: i + k, handler: handler_of(plan[i + k]) },
    )
}

/// The commits of the bindings from `i` to `j`, in order.
pub open spec fn commit_actions(plan: Seq<Resolution>, i: int, j: int) -> Seq<ActionView> {
    Seq::new(
        (if j > i { j - i } else { 0int }) as nat,
        |k: int| ActionView::Commit { index: i + k, handler: handler_of(plan[i + k]) },
    )
}

/// The undos of the bindings from `i` down to 0.
pub open spec fn undo_actions(plan: Seq<Resolution>, i: int) -> Seq<ActionView> {
    Seq::new(
        (if i >= 0 { i + 1 } else { 0int }) as nat,
        |k: int| ActionView::Undo { index: i - k, handler: handler_of(plan[i - k]) },
    )
}

/// No action of the trace is a commit.
pub open spec fn no_commit(trace: Seq<ActionView>) -> bool {
    forall|k: int| 0 <= k < trace.len() ==> !(#[trigger] trace[k] is Commit)
}

/// Every binding before `f` has a handler and passes its test; the binding
/// at `f` has no handler, is denied, or fails its test.
pub open spec fn first_failure(plan: Seq<Resolution>, tests: Seq<SetResult>, f: int) -> bool {
    &&& 0 <= f < plan.len()
    &&& forall|j: int|
        0 <= j < f ==> #[trigger] plan[j] is Handler && tests[j] == SetResult::Success
    &&& !(plan[f] is Handler && tests[f] == SetResult::Success)
}

/// Every binding has a handler and passes its test.
pub open spec fn all_tests_pass(plan: Seq<Resolution>, tests: Seq<SetResult>) -> bool {
    forall|j: int| 0 <= j < plan.len() ==> #[trigger] plan[j] is Handler && tests[j] == SetResult::Success
}

proof fn lemma_undo_run(s: SetState, i: int, failed: int, tests: Seq<SetResult>, commits: Seq<SetResult>)
    requires
        -1 <= i < s.plan.len(),
        s.budget() > i + 1,
    ensures
        ({
            let (next, action) = s.enter_undo(i, failed);
            let tail = if action is Respond {
                Seq::<ActionView>::empty()
            } else {
                next.run(SetEvent::Undone, tests, commits)
            };
            seq![action] + tail == undo_actions(s.plan, i) + seq![
                ActionView::Respond {
                    status: ErrorStatus::CommitFailed.code(),
                    index: error_index_at(failed),
                },
            ]
        }),
    decreases i + 1,
{
    let (next, action) = s.enter_undo(i, failed);
    let last = ActionView::Respond {
        status: ErrorStatus::CommitFailed.code(),
        index: error_index_at(failed),
    };
    if i < 0 {
        assert(seq![action] + Seq::<ActionView>::empty() =~= undo_actions(s.plan, i) + seq![last]);
    } else {
        lemma_undo_run(next, i - 1, failed, tests, commits);
        let (after, second) = next.step(SetEvent::Undone);
        assert(next.step(SetEvent::Undone) == next.enter_undo(i - 1, failed));
        let tail = next.run(SetEvent::Undone, tests, commits);
        let inner = if second is Respond {
            Seq::<ActionView>::empty()
        } else {
            after.run(SetEvent::Undone, tests, commits)
        };
        assert(tail =~= seq![second] + inner);
        assert(seq![action] + tail =~= undo_actions(s.plan, i) + seq![last]) by {
            let lhs = seq![action] + tail;
            let rhs = undo_actions(s.plan, i) + seq![last];
            let mid = undo_actions(s.plan, i - 1) + seq![last];
            assert(seq![second] + inner == mid);
            assert(lhs.len() == rhs.len());
            assert forall|k: int| 0 <= k < lhs.len() implies lhs[k] == rhs[k] by {
                if k > 0 {
                    assert(lhs[k] == mid[k - 1]);
                }
            }
        }
    }
}

/// When the commit of the binding at `k` fails after the commits before it
/// succeeded, the rest of the trace is the commits up to `k`, then `undo_set`
/// on the bindings before `k` in reverse order, then `commitFailed` at `k`.
proof fn lemma_commit_run(s: SetState, i: int, k: int, tests: Seq<SetResult>, commits: Seq<SetResult>)
    requires
        0 <= i <= k < s.plan.len(),
        s.budget() > 2 * s.plan.len() + 1 - i,
        forall|j: int| i <= j < k ==> #[trigger] commits[j] == SetResult::Success,
        commits[k] != SetResult::Success,
    ensures
        ({
            let (next, action) = s.enter_commit(i);
            seq![action] + next.run(SetEvent::Committed(commits[i]), tests, commits)
                == commit_actions(s.plan, i, k + 1) + undo_actions(s.plan, k - 1) + seq![
                ActionView::Respond {
                    status: ErrorStatus::CommitFailed.code(),
                    index: error_index_at(k),
                },
            ]
        }),
    decreases k - i,
{
    let (next, action) = s.enter_commit(i);
    let last = ActionView::Respond {
        status: ErrorStatus::CommitFailed.code(),
        index: error_index_at(k),
    };
    let tail = next.run(SetEvent::Committed(commits[i]), tests, commits);
    let lhs = seq![action] + tail;
    let rhs = commit_actions(s.plan, i, k + 1) + undo_actions(s.plan, k - 1) + seq![last];
    if i == k {
        lemma_undo_run(next, k - 1, k, tests, commits);
        let (after, second) = next.enter_undo(k - 1, k);
        assert(next.step(SetEvent::Committed(commits[i])) == next.enter_undo(k - 1, k));
        let inner = if second is Respond {
            Seq::<ActionView>::empty()
        } else {
            after.run(SetEvent::Undone, tests, commits)
        };
        assert(tail =~= seq![second] + inner);
        let mid = undo_actions(s.plan, k - 1) + seq![last];
        assert(lhs.len() == rhs.len());
        assert forall|j: int| 0 <= j < lhs.len() implies lhs[j] == rhs[j] by {
            if j > 0 {
                assert(lhs[j] == mid[j - 1]);
            }
        }
        assert(lhs =~= rhs);
    } else {
        lemma_commit_run(next, i + 1, k, tests, commits);
        let (after, second) = next.enter_commit(i + 1);
        assert(next.step(SetEvent::Committed(commits[i])) == next.enter_commit(i + 1));
        assert(tail =~= seq![second] + after.run(
            SetEvent::Committed(commits[i + 1]),
            tests,
            commits,
        ));
        let mid = commit_actions(s.plan, i + 1, k + 1) + undo_actions(s.plan, k - 1) + seq![last];
        assert(lhs.len() == rhs.len());
        assert forall|j: int| 0 <= j < lhs.len() implies lhs[j] == rhs[j] by {
            if j > 0 {
                assert(lhs[j] == mid[j - 1]);
            }
        }
        assert(lhs =~= rhs);
    }
}

proof fn lemma_test_run_to_commit(
    s: SetState,
    i: int,
    k: int,
    tests: Seq<SetResult>,
    commits: Seq<SetResult>,
)
    requires
        0 <= i <= s.plan.len(),
        0 <= k < s.plan.len(),
        s.budget() > 3 * s.plan.len() + 2 - i,
        forall|j: int| i <= j < s.plan.len() ==> #[trigger] s.plan[j] is Handler && tests[j]
            == SetResult::Success,
        forall|j: int| 0 <= j < k ==> #[trigger] commits[j] == SetResult::Success,
        commits[k] != SetResult::Success,
    ensures
        ({
            let (next, action) = s.enter_test(i);
            let event = if i < s.plan.len() {
                SetEvent::Tested(tests[i])
            } else {
                SetEvent::Committed(commits[0])
            };
            seq![action] + next.run(event, tests, commits) == test_actions(
                s.plan,
                i,
                s.plan.len() as int,
            ) + commit_actions(s.plan, 0, k + 1) + undo_actions(s.plan, k - 1) + seq![
                ActionView::Respond {
                    status: ErrorStatus::CommitFailed.code(),
                    index: error_index_at(k),
                },
            ]
        }),
    decreases s.plan.len() - i,
{
    let n = s.plan.len() as int;
    let (next, action) = s.enter_test(i);
    let last = ActionView::Respond {
        status: ErrorStatus::CommitFailed.code(),
        index: error_index_at(k),
    };
    let rest = commit_actions(s.plan, 0, k + 1) + undo_actions(s.plan, k - 1) + seq![last];
    if i == n {
        lemma_commit_run(s, 0, k, tests, commits);
        assert(test_actions(s.plan, i, n) + rest =~= rest);
    } else {
        lemma_test_run_to_commit(next, i + 1, k, tests, commits);
        let (after, second) = next.enter_test(i + 1);
        assert(next.step(SetEvent::Tested(tests[i])) == next.enter_test(i + 1));
        let event = if i + 1 < n {
            SetEvent::Tested(tests[i + 1])
        } else {
            SetEvent::Committed(commits[0])
        };
        let tail = next.run(SetEvent::Tested(tests[i]), tests, commits);
        assert(tail =~= seq![second] + after.run(event, tests, commits));
        let lhs = seq![action] + tail;
        let rhs = test_actions(s.plan, i, n) + rest;
        let mid = test_actions(s.plan, i + 1, n) + rest;
        assert(lhs.len() == rhs.len());
        assert forall|j: int| 0 <= j < lhs.len() implies lhs[j] == rhs[j] by {
            if j > 0 {
                assert(lhs[j] == mid[j - 1]);
                if j < n - i {
                } else {
                    assert(rhs[j] == rest[j - (n - i)]);
                    assert(mid[j - 1] == rest[j - 1 - (n - i - 1)]);
                }
            }
        }
        assert(lhs =~= rhs);
    }
}

proof fn lemma_test_run_fails(
    s: SetState,
    i: int,
    f: int,
    tests: Seq<SetResult>,
    commits: Seq<SetResult>,
)
    requires
        0 <= i <= f < s.plan.len(),
        s.budget() > 3 * s.plan.len() + 2 - i,
        forall|j: int| i <= j < f ==> #[trigger] s.plan[j] is Handler && tests[j]
            == SetResult::Success,
        !(s.plan[f] is Handler && tests[f] == SetResult::Success),
    ensures
        ({
            let (next, action) = s.enter_test(i);
            let tail = if action is Respond {
                Seq::<ActionView>::empty()
            } else {
                next.run(SetEvent::Tested(tests[i]), tests, commits)
            };
            no_commit(seq![action] + tail)
        }),
    decreases f - i,
{
    let (next, action) = s.enter_test(i);
    if action is Respond {
        assert(no_commit(seq![action] + Seq::<ActionView>::empty()));
    } else {
        let tail = next.run(SetEvent::Tested(tests[i]), tests, commits);
        if i == f {
            assert(tail =~= seq![next.step(SetEvent::Tested(tests[i])).1]);
            assert(no_commit(seq![action] + tail));
        } else {
            lemma_test_run_fails(next, i + 1, f, tests, commits);
            let (after, second) = next.enter_test(i + 1);
            assert(next.step(SetEvent::Tested(tests[i])) == next.enter_test(i + 1));
            let inner = if second is Respond {
                Seq::<ActionView>::empty()
            } else {
                after.run(SetEvent::Tested(tests[i + 1]), tests, commits)
            };
            assert(tail =~= seq![second] + inner);
            let whole = seq![action] + tail;
            assert forall|k: int| 0 <= k < whole.len() implies !(#[trigger] whole[k] is Commit) by {
                if k > 0 {
                    assert(whole[k] == (seq![second] + inner)[k - 1]);
                }
            }
        }
    }
}

/// If a binding is denied, has no handler, or fails its test, `commit_set`
/// is never called, whatever the handlers answer.
pub proof fn lemma_failed_test_commits_nothing(
    plan: Seq<Resolution>,
    version: Version,
    tests: Seq<SetResult>,
    commits: Seq<SetResult>,
    f: int,
)
    requires
        first_failure(plan, tests, f),
    ensures
        no_commit(SetState::ready(plan, version).run(SetEvent::Start, tests, commits)),
{
    let s = SetState::ready(plan, version);
    lemma_test_run_fails(s, 0, f, tests, commits);
    let (next, action) = s.enter_test(0);
    let tail = if action is Respond {
        Seq::<ActionView>::empty()
    } else {
        next.run(SetEvent::Tested(tests[0]), tests, commits)
    };
    assert(s.run(SetEvent::Start, tests, commits) =~= seq![action] + tail);
}

/// If every test succeeds and the commit of the binding at `k` is the first
/// to fail, the transaction tests every binding, commits the bindings up to
/// `k`, calls `undo_set` on the bindings before `k` in reverse order, and
/// responds `commitFailed` with the index of `k`.
pub proof fn lemma_failed_commit_undoes_in_reverse(
    plan: Seq<Resolution>,
    version: Version,
    tests: Seq<SetResult>,
    commits: Seq<SetResult>,
    k: int,
)
    requires
        all_tests_pass(plan, tests),
        0 <= k < plan.len(),
        forall|j: int| 0 <= j < k ==> #[trigger] commits[j] == SetResult::Success,
        commits[k] != SetResult::Success,
    ensures
        SetState::ready(plan, version).run(SetEvent::Start, tests, commits) == test_actions(
            plan,
            0,
            plan.len() as int,
        ) + commit_actions(plan, 0, k + 1) + undo_actions(plan, k - 1) + seq![
            ActionView::Respond {
                status: ErrorStatus::CommitFailed.code(),
                index: error_index_at(k),
            },
        ],
{
    let s = SetState::ready(plan, version);
    lemma_test_run_to_commit(s, 0, k, tests, commits);
    let (next, action) = s.enter_test(0);
    assert(s.run(SetEvent::Start, tests, commits) =~= seq![action] + next.run(
        SetEvent::Tested(tests[0]),
        tests,
        commits,
    ));
}

/// A SET request in progress.
pub struct SetTransaction {
    request_id: i32,
    version: Version,
    varbinds: Vec<VarBind>,
    plan: Vec<Resolution>,
    phase: SetPhase,
    index: usize,
    failed: usize,
}

/// What an action is in a specification.
pub open spec fn action_view(a: SetAction) -> ActionView {
    match a {
        SetAction::Test { index, handler } => ActionView::Test {
            index: index as int,
            handler: handler as int,
        },
        SetAction::Commit { index, handler } => ActionView::Commit {
            index: index as int,
            handler: handler as int,
        },
        SetAction::Undo { index, handler } => ActionView::Undo {
            index: index as int,
            handler: handler as int,
        },
        SetAction::Respond(pdu) => ActionView::Respond {
            status: pdu.error_status as int,
            index: pdu.error_index as int,
        },
    }
}

/// What the tables say of an OID under a write view: denied where a VACM
/// configuration is given and does not permit the OID, else the handler that
/// owns the OID.
pub open spec fn resolve(
    vacm: Option<VacmConfig>,
    write_view: Option<Seq<u8>>,
    prefixes: Seq<Seq<u32>>,
    oid: Seq<u32>,
    r: Resolution,
) -> bool {
    if vacm is Some && !vacm->0.permits(write_view, oid) {
        r == Resolution::Denied
    } else {
        match r {
            Resolution::Handler(h) => super::registry::owns(prefixes, h as int, oid),
            Resolution::NoHandler => forall|j: int|
                0 <= j < prefixes.len() ==> !crate::oid::is_prefix(#[trigger] prefixes[j], oid),
            Resolution::Denied => false,
        }
    }
}

impl SetTransaction {
    /// The state of the transaction.
    pub closed spec fn state(self) -> SetState {
        SetState {
            plan: self.plan@,
            version: self.version,
            phase: self.phase,
            index: self.index as int,
            failed: self.failed as int,
        }
    }

    /// The request-id of the request.
    pub closed spec fn request_id(self) -> i32 {
        self.request_id
    }

    /// The variable bindings of the request.
    pub closed spec fn varbinds(self) -> Seq<VarBindView> {
        views(self.varbinds@)
    }

    /// The plan has an entry for every binding of the request.
    pub closed spec fn wf(self) -> bool {
        self.plan@.len() == self.varbinds@.len() && self.state().wf() && (self.phase
            == SetPhase::Undoing ==> self.failed < self.plan@.len())
    }

    /// Begins the transaction for a SET request: every binding is resolved
    /// against the write view and the registry.
    pub fn begin(
        pdu: &Pdu,
        version: Version,
        vacm: Option<&VacmConfig>,
        write_view: Option<&[u8]>,
        registry: &HandlerRegistry,
    ) -> (r: SetTransaction)
        ensures
            r.wf(),
            r.request_id() == pdu.request_id,
            r.varbinds() == pdu@.varbinds,
            r.state() == SetState::ready(r.state().plan, version),
            r.state().plan.len() == pdu@.varbinds.len(),
            forall|i: int|
                0 <= i < pdu@.varbinds.len() ==> resolve(
                    match vacm {
                        Some(v) => Some(*v),
                        None => None,
                    },
                    match write_view {
                        Some(w) => Some(w@),
                        None => None,
                    },
                    registry.prefixes(),
                    pdu@.varbinds[i].oid,
                    #[trigger] r.state().plan[i],
                ),
    {
        let n = pdu.varbinds.len();
        let mut plan: Vec<Resolution> = Vec::with_capacity(n);
        let mut k: usize = 0;
        while k < n
            invariant
                k <= n,
                n == pdu.varbinds@.len(),
                plan@.len() == k,
                forall|i: int|
                    0 <= i < k ==> resolve(
                        match vacm {
                            Some(v) => Some(*v),
                            None => None,
                        },
                        match write_view {
                            Some(w) => Some(w@),
                            None => None,
                        },
                        registry.prefixes(),
                        pdu.varbinds@[i]@.oid,
                        #[trigger] plan@[i],
                    ),
            decreases n - k,
        {
            let resolution = super::dispatch::resolve_oid(
                vacm,
                write_view,
                registry,
                &pdu.varbinds[k].oid,
            );
            plan.push(resolution);
            k += 1;
        }
        let varbinds = duplicate_varbinds(&pdu.varbinds);
        proof {
            assert(views(varbinds@).len() == views(pdu.varbinds@).len());
        }
        SetTransaction {
            request_id: pdu.request_id,
            version,
            varbinds,
            plan,
            phase: SetPhase::Ready,
            index: 0,
            failed: 0,
        }
    }

    /// The response with the given status and index, and the bindings of the
    /// request.
    fn response(&self, status: i32, index: i32) -> (r: Pdu)
        ensures
            r.pdu_type == PduType::Response,
            r.request_id == self.request_id,
            r.error_status == status,
            r.error_index == index,
            views(r.varbinds@) == views(self.varbinds@),
    {
        Pdu {
            pdu_type: PduType::Response,
            request_id: self.request_id,
            error_status: status,
            error_index: index,
            varbinds: duplicate_varbinds(&self.varbinds),
        }
    }

    /// Takes an event and gives the next action. A response carries the
    /// request-id and the bindings of the request.
    pub fn step(&mut self, event: SetEvent) -> (r: SetAction)
        requires
            old(self).wf(),
        ensures
            final(self).wf(),
            final(self).state() == old(self).state().step(event).0,
            action_view(r) == old(self).state().step(event).1,
            final(self).request_id() == old(self).request_id(),
            final(self).varbinds() == old(self).varbinds(),
            r matches SetAction::Respond(pdu) ==> pdu.pdu_type == PduType::Response
                && pdu.request_id == old(self).request_id() && pdu@.varbinds == old(self).varbinds(),
    {
        let n = self.plan.len();
        match (self.phase, event) {
            (SetPhase::Ready, SetEvent::Start) => self.enter_test(0),
            (SetPhase::Testing, SetEvent::Tested(result)) => {
                if result.is_ok() {
                    let next = self.index + 1;
                    self.enter_test(next)
                } else {
                    let status = result.to_error_status().as_i32();
                    let index = error_index(self.index);
                    self.phase = SetPhase::Done;
                    SetAction::Respond(self.response(status, index))
                }
            },
            (SetPhase::Committing, SetEvent::Committed(result)) => {
                if result.is_ok() {
                    let next = self.index + 1;
                    self.enter_commit(next)
                } else {
                    let failed = self.index;
                    if failed == 0 {
                        self.finish_undo(failed)
                    } else {
                        self.enter_undo(failed - 1, failed)
                    }
                }
            },
            (SetPhase::Undoing, SetEvent::Undone) => {
                let failed = self.failed;
                if self.index == 0 {
                    self.finish_undo(failed)
                } else {
                    let next = self.index - 1;
                    self.enter_undo(next, failed)
                }
            },
            _ => {
                self.phase = SetPhase::Done;
                SetAction::Respond(self.response(ErrorStatus::GenErr.as_i32(), 0))
            },
        }
    }

    fn finish_undo(&mut self, failed: usize) -> (r: SetAction)
        requires
            old(self).wf(),
            failed < old(self).state().plan.len(),
        ensures
            final(self).wf(),
            final(self).state() == old(self).state().enter_undo(-1, failed as int).0,
            action_view(r) == old(self).state().enter_undo(-1, failed as int).1,
            final(self).request_id() == old(self).request_id(),
            final(self).varbinds() == old(self).varbinds(),
            r matches SetAction::Respond(pdu) && pdu.pdu_type == PduType::Response && pdu.request_id
                == old(self).request_id() && pdu@.varbinds == old(self).varbinds(),
    {
        self.phase = SetPhase::Done;
        SetAction::Respond(self.response(ErrorStatus::CommitFailed.as_i32(), error_index(failed)))
    }

    fn enter_test(&mut self, i: usize) -> (r: SetAction)
        requires
            old(self).wf(),
            i <= old(self).state().plan.len(),
        ensures
            final(self).wf(),
            final(self).state() == old(self).state().enter_test(i as int).0,
            action_view(r) == old(self).state().enter_test(i as int).1,
            final(self).request_id() == old(self).request_id(),
            final(self).varbinds() == old(self).varbinds(),
            r matches SetAction::Respond(pdu) ==> pdu.pdu_type == PduType::Response
                && pdu.request_id == old(self).request_id() && pdu@.varbinds == old(self).varbinds(),
    {
        if i >= self.plan.len() {
            return self.enter_commit(0);
        }
        let v1 = match self.version {
            Version::V1 => true,
            _ => false,
        };
        match self.plan[i] {
            Resolution::Denied => {
                let status = if v1 {
                    ErrorStatus::NoSuchName.as_i32()
                } else {
                    ErrorStatus::NoAccess.as_i32()
                };
                self.phase = SetPhase::Done;
                SetAction::Respond(self.response(status, error_index(i)))
            },
            Resolution::NoHandler => {
                let status = if v1 {
                    ErrorStatus::NoSuchName.as_i32()
                } else {
                    ErrorStatus::NotWritable.as_i32()
                };
                self.phase = SetPhase::Done;
                SetAction::Respond(self.response(status, error_index(i)))
            },
            Resolution::Handler(h) => {
                self.phase = SetPhase::Testing;
                self.index = i;
                SetAction::Test { index: i, handler: h }
            },
        }
    }

    fn enter_commit(&mut self, i: usize) -> (r: SetAction)
        requires
            old(self).wf(),
            i <= old(self).state().plan.len(),
        ensures
            final(self).wf(),
            final(self).state() == old(self).state().enter_commit(i as int).0,
            action_view(r) == old(self).state().enter_commit(i as int).1,
            final(self).request_id() == old(self).request_id(),
            final(self).varbinds() == old(self).varbinds(),
            r matches SetAction::Respond(pdu) ==> pdu.pdu_type == PduType::Response
                && pdu.request_id == old(self).request_id() && pdu@.varbinds == old(self).varbinds(),
    {
        if i >= self.plan.len() {
            self.phase = SetPhase::Done;
            return SetAction::Respond(self.response(ErrorStatus::NoError.as_i32(), 0));
        }
        let handler = match self.plan[i] {
            Resolution::Handler(h) => h,
            _ => 0,
        };
        self.phase = SetPhase::Committing;
        self.index = i;
        SetAction::Commit { index: i, handler }
    }

    fn enter_undo(&mut self, i: usize, failed: usize) -> (r: SetAction)
        requires
            old(self).wf(),
            i < old(self).state().plan.len(),
            failed < old(self).state().plan.len(),
        ensures
            final(self).wf(),
            final(self).state() == old(self).state().enter_undo(i as int, failed as int).0,
            action_view(r) == old(self).state().enter_undo(i as int, failed as int).1,
            final(self).request_id() == old(self).request_id(),
            final(self).varbinds() == old(self).varbinds(),
            r matches SetAction::Undo { .. },
    {
        let handler = match self.plan[i] {
            Resolution::Handler(h) => h,
            _ => 0,
        };
        self.phase = SetPhase::Undoing;
        self.index = i;
        self.failed = failed;
        SetAction::Undo { index: i, handler }
    }
}

/// The 1-based position of the binding at `i`, or the largest value of the
/// field.
fn error_index(i: usize) -> (r: i32)
    ensures
        r == error_index_at(i as int),
{
    if i >= 0x7FFF_FFFF {
        0x7FFF_FFFF
    } else {
        (i + 1) as i32
    }
}

} // verus!
