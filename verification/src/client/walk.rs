//! Walks over an OID subtree with GETNEXT or GETBULK.
//!
//! A walk owns its iteration state and decides; the caller sends the
//! requests and hands the replies back.

use vstd::prelude::*;

use crate::error::{Error, Result};
use crate::oid::{is_prefix, lex_le, lex_lt, Comparison, Oid};

use crate::varbind::{VarBind, VarBindView};

verus! {

/// What a walk does with one variable binding of a reply.
pub enum Verdict {
    /// The binding is handed to the caller of the walk.
    Emit,
    /// The walk ends: the binding is the end of the MIB view, or lies
    /// outside the subtree.
    End,
    /// The walk fails: the OID is not after the one returned before.
    NonIncreasing,
}

/// The verdict on a binding, by the rules of a walk in their order: the end
/// of the MIB view ends the walk; so does an OID outside the subtree of
/// `base`; an OID that is not after the OID returned last is a fault; any
/// other binding is emitted. The OID returned last is the base until a
/// binding has been emitted, so the base itself is never emitted.
pub open spec fn judge(base: Seq<u32>, last: Option<Seq<u32>>, vb: VarBindView) -> Verdict {
    if vb.value is EndOfMibView {
        Verdict::End
    } else if !is_prefix(base, vb.oid) {
        Verdict::End
    } else if last is Some && lex_le(vb.oid, last->0) {
        Verdict::NonIncreasing
    } else {
        Verdict::Emit
    }
}

/// The state of a walk.
pub struct WalkState {
    /// The root of the subtree.
    pub base: Seq<u32>,
    /// The OID of the next request.
    pub current: Seq<u32>,
    /// The OID that was returned last: the base at the start, then the OID
    /// of the binding that was emitted last. `None` once the walk has
    /// failed on an OID that does not increase, and has handed the OID out
    /// in the error.
    pub last: Option<Seq<u32>>,
    /// Whether the walk has ended.
    pub done: bool,
}

/// What one reply makes of a walk.
pub enum WalkEvent {
    /// The stream ends without an item.
    Ended,
    /// The stream yields a binding.
    Item(VarBindView),
    /// The stream yields the fault of a non-increasing OID and ends.
    NonIncreasing { previous: Seq<u32>, current: Seq<u32> },
    /// The stream yields the error of the request and ends.
    Failure(Error),
}

/// A reply to a request of a walk.
pub enum ReplyView {
    /// The request failed.
    Failure(Error),
    /// The agent answered with a binding.
    Binding(VarBindView),
}

impl WalkState {
    /// The state of a walk that has not started: the OID returned last is
    /// the base.
    pub open spec fn start(base: Seq<u32>) -> WalkState {
        WalkState { base, current: base, last: Some(base), done: false }
    }

    /// What holds of every state that a walk reaches: the OID emitted last
    /// lies in the subtree and is the OID of the next request.
    pub open spec fn wf(self) -> bool {
        self.last matches Some(l) ==> is_prefix(self.base, l) && self.current == l
    }

    /// The state after a binding, and what the stream yields for it.
    pub open spec fn accept(self, vb: VarBindView) -> (WalkState, WalkEvent) {
        if self.done {
            (self, WalkEvent::Ended)
        } else {
            match judge(self.base, self.last, vb) {
                Verdict::End => (WalkState { last: self.last, done: true, ..self }, WalkEvent::Ended),
                Verdict::NonIncreasing => (
                    WalkState { last: None, done: true, ..self },
                    WalkEvent::NonIncreasing { previous: self.last->0, current: vb.oid },
                ),
                Verdict::Emit => (
                    WalkState { current: vb.oid, last: Some(vb.oid), ..self },
                    WalkEvent::Item(vb),
                ),
            }
        }
    }

    /// The state after a reply, and what the stream yields for it.
    pub open spec fn step(self, reply: ReplyView) -> (WalkState, WalkEvent) {
        match reply {
            ReplyView::Binding(vb) => self.accept(vb),
            ReplyView::Failure(e) => if self.done {
                (self, WalkEvent::Ended)
            } else {
                (WalkState { done: true, ..self }, WalkEvent::Failure(e))
            },
        }
    }

    /// The bindings that the stream yields over a run of replies.
    pub open spec fn emitted(self, replies: Seq<ReplyView>) -> Seq<VarBindView>
        decreases replies.len(),
    {
        if replies.len() == 0 {
            Seq::empty()
        } else {
            let (next, event) = self.step(replies[0]);
            let rest = next.emitted(replies.skip(1));
            match event {
                WalkEvent::Item(vb) => seq![vb] + rest,
                _ => rest,
            }
        }
    }
}

/// Every binding that a walk emits lies in the subtree of its base and comes
/// after the binding emitted before it, whatever the agent replies.
pub proof fn lemma_walk_emits_increasing(w: WalkState, replies: Seq<ReplyView>)
    requires
        w.wf(),
    ensures
        forall|i: int|
            0 <= i < w.emitted(replies).len() ==> is_prefix(
                w.base,
                (#[trigger] w.emitted(replies)[i]).oid,
            ),
        forall|i: int|
            0 <= i < w.emitted(replies).len() && !w.done && w.last is Some ==> lex_lt(
                w.last->0,
                (#[trigger] w.emitted(replies)[i]).oid,
            ),
        forall|i: int, j: int|
            0 <= i < j < w.emitted(replies).len() ==> lex_lt(
                (#[trigger] w.emitted(replies)[i]).oid,
                (#[trigger] w.emitted(replies)[j]).oid,
            ),
    decreases replies.len(),
{
    if replies.len() > 0 {
        let (next, event) = w.step(replies[0]);
        let rest = next.emitted(replies.skip(1));
        lemma_walk_emits_increasing(next, replies.skip(1));
        let all = w.emitted(replies);
        match event {
            WalkEvent::Item(vb) => {
                assert(all =~= seq![vb] + rest);
                assert(next.last == Some(vb.oid));
                if w.last is Some {
                    crate::oid::lemma_order_mirror(vb.oid, w.last->0, 0);
                    assert(lex_lt(w.last->0, vb.oid));
                }
                assert forall|i: int| 0 <= i < all.len() && !w.done && w.last is Some implies lex_lt(
                    w.last->0,
                    (#[trigger] all[i]).oid,
                ) by {
                    if i > 0 {
                        assert(all[i] == rest[i - 1]);
                        crate::oid::lemma_lt_transitive(w.last->0, vb.oid, rest[i - 1].oid);
                    }
                }
                assert forall|i: int, j: int| 0 <= i < j < all.len() implies lex_lt(
                    (#[trigger] all[i]).oid,
                    (#[trigger] all[j]).oid,
                ) by {
                    assert(all[j] == rest[j - 1]);
                    if i > 0 {
                        assert(all[i] == rest[i - 1]);
                    }
                }
                assert forall|i: int| 0 <= i < all.len() implies is_prefix(
                    w.base,
                    (#[trigger] all[i]).oid,
                ) by {
                    if i > 0 {
                        assert(all[i] == rest[i - 1]);
                    }
                }
            },
            _ => {
                assert(all =~= rest);
                assert(next.done);
                lemma_done_emits_nothing(next, replies.skip(1));
            },
        }
    }
}

/// Every binding that a walk emits from its start comes after the base: an
/// agent that answers with the base itself fails the walk.
pub proof fn lemma_walk_emits_after_base(base: Seq<u32>, replies: Seq<ReplyView>)
    ensures
        forall|i: int|
            0 <= i < WalkState::start(base).emitted(replies).len() ==> lex_lt(
                base,
                (#[trigger] WalkState::start(base).emitted(replies)[i]).oid,
            ) && is_prefix(base, WalkState::start(base).emitted(replies)[i].oid),
{
    let w = WalkState::start(base);
    assert(is_prefix(base, base)) by {
        assert(base.subrange(0, base.len() as int) =~= base);
    }
    lemma_walk_emits_increasing(w, replies);
}

/// A walk that has ended emits nothing more.
pub proof fn lemma_done_emits_nothing(w: WalkState, replies: Seq<ReplyView>)
    requires
        w.done,
    ensures
        w.emitted(replies).len() == 0,
    decreases replies.len(),
{
    if replies.len() > 0 {
        let (next, event) = w.step(replies[0]);
        lemma_done_emits_nothing(next, replies.skip(1));
    }
}

/// Applies the rules of a walk to one binding.
fn judge_varbind(base: &Oid, last: &Option<Oid>, vb: &VarBind) -> (r: Verdict)
    ensures
        r == judge(
            base@,
            match last {
                Some(l) => Some(l@),
                None => None,
            },
            vb@,
        ),
{
    if vb.value.is_end_of_mib_view() {
        return Verdict::End;
    }
    if !vb.oid.starts_with(base) {
        return Verdict::End;
    }
    match last {
        Some(l) => {
            match vb.oid.compare(l) {
                Comparison::Greater => Verdict::Emit,
                _ => Verdict::NonIncreasing,
            }
        },
        None => Verdict::Emit,
    }
}

/// A walk over an OID subtree using GETNEXT.
pub struct Walk {
    base_oid: Oid,
    current_oid: Oid,
    /// The OID that was returned last, which is the base at the start; used
    /// to detect OIDs that do not increase.
    last_returned_oid: Option<Oid>,
    done: bool,
}

impl View for Walk {
    type V = WalkState;

    closed spec fn view(&self) -> WalkState {
        WalkState {
            base: self.base_oid@,
            current: self.current_oid@,
            last: match self.last_returned_oid {
                Some(l) => Some(l@),
                None => None,
            },
            done: self.done,
        }
    }
}

/// What a `Result` over bindings is in a specification.
pub open spec fn reply_view(reply: Result<VarBind>) -> ReplyView {
    match reply {
        Ok(vb) => ReplyView::Binding(vb@),
        Err(e) => ReplyView::Failure(e),
    }
}

/// Whether an item of the stream is the given event.
pub open spec fn yields(item: Option<Result<VarBind>>, event: WalkEvent) -> bool {
    match event {
        WalkEvent::Ended => item is None,
        WalkEvent::Item(vb) => item matches Some(Ok(got)) && got@ == vb,
        WalkEvent::NonIncreasing { previous, current } => item matches Some(
            Err(Error::NonIncreasingOid { previous: p, current: c }),
        ) && p@ == previous && c@ == current,
        WalkEvent::Failure(e) => item matches Some(Err(got)) && got == e,
    }
}

impl Walk {
    /// A walk over the subtree of `oid` that has not started.
    pub fn new(oid: Oid) -> (r: Walk)
        ensures
            r@ == WalkState::start(oid@),
    {
        Walk {
            base_oid: oid.duplicate(),
            last_returned_oid: Some(oid.duplicate()),
            current_oid: oid,
            done: false,
        }
    }

    /// Whether the walk has ended.
    pub fn is_done(&self) -> (r: bool)
        ensures
            r == self@.done,
    {
        self.done
    }

    /// The OID for the next GETNEXT request, or `None` when the walk has
    /// ended and the stream yields nothing more.
    pub fn next_request(&self) -> (r: Option<Oid>)
        ensures
            match r {
                Some(oid) => !self@.done && oid@ == self@.current,
                None => self@.done,
            },
    {
        if self.done {
            None
        } else {
            Some(self.current_oid.duplicate())
        }
    }

    /// Takes the reply to the request and gives what the stream yields for
    /// it: a binding, an error, or `None` for its end.
    pub fn on_reply(&mut self, reply: Result<VarBind>) -> (r: Option<Result<VarBind>>)
        ensures
            final(self)@ == old(self)@.step(reply_view(reply)).0,
            yields(r, old(self)@.step(reply_view(reply)).1),
    {
        if self.done {
            return None;
        }
        match reply {
            Err(e) => {
                self.done = true;
                Some(Err(e))
            },
            Ok(vb) => {
                match judge_varbind(&self.base_oid, &self.last_returned_oid, &vb) {
                    Verdict::End => {
                        self.done = true;
                        None
                    },
                    Verdict::NonIncreasing => {
                        self.done = true;
                        let previous = match self.last_returned_oid.take() {
                            Some(l) => l,
                            None => Oid::empty(),
                        };
                        Some(Err(Error::NonIncreasingOid { previous, current: vb.oid }))
                    },
                    Verdict::Emit => {
                        self.current_oid = vb.oid.duplicate();
                        self.last_returned_oid = Some(vb.oid.duplicate());
                        Some(Ok(vb))
                    },
                }
            },
        }
    }
}

/// What a bulk walk asks of its caller, or yields.
#[derive(Debug)]
pub enum BulkStep {
    /// Send a GETBULK request for this OID with these counts and hand the
    /// reply to `on_reply`. A walk repeats its one binding: `non_repeaters`
    /// is 0.
    Fetch { oid: Oid, non_repeaters: i32, max_repetitions: i32 },
    /// The stream yields this item; `None` is its end.
    Yield(Option<Result<VarBind>>),
}

/// A walk over an OID subtree using GETBULK.
pub struct BulkWalk {
    base_oid: Oid,
    current_oid: Oid,
    max_repetitions: i32,
    last_returned_oid: Option<Oid>,
    done: bool,
    /// The bindings of the last GETBULK response that have not been looked
    /// at, the next one last.
    buffer: Vec<VarBind>,
    /// The error of the last request, which the stream has still to yield.
    failed: Option<Error>,
}

impl BulkWalk {
    /// The state of the walk over single bindings.
    pub closed spec fn state(self) -> WalkState {
        WalkState {
            base: self.base_oid@,
            current: self.current_oid@,
            last: match self.last_returned_oid {
                Some(l) => Some(l@),
                None => None,
            },
            done: self.done,
        }
    }

    /// The bindings of the last reply that the walk has not looked at yet.
    pub closed spec fn buffered(self) -> Seq<VarBindView> {
        Seq::new(self.buffer@.len(), |i: int| self.buffer@[self.buffer@.len() - 1 - i]@)
    }

    /// The error of the last request, if the stream has still to yield it.
    pub closed spec fn pending_failure(self) -> Option<Error> {
        self.failed
    }

    /// The number of repetitions that each request asks for.
    pub closed spec fn repetitions(self) -> i32 {
        self.max_repetitions
    }

    /// A bulk walk over the subtree of `oid` that has not started.
    pub fn new(oid: Oid, max_repetitions: i32) -> (r: BulkWalk)
        ensures
            r.state() == WalkState::start(oid@),
            r.buffered().len() == 0,
            r.pending_failure() is None,
            r.repetitions() == max_repetitions,
    {
        BulkWalk {
            base_oid: oid.duplicate(),
            last_returned_oid: Some(oid.duplicate()),
            current_oid: oid,
            max_repetitions,
            done: false,
            buffer: Vec::new(),
            failed: None,
        }
    }

    /// The next step of the stream. An error of the last request is yielded
    /// first; a walk that has ended yields the end; a buffered binding is
    /// judged by the rules of a walk and what they make of it is yielded;
    /// with an empty buffer the walk asks for the next GETBULK.
    pub fn poll(&mut self) -> (r: BulkStep)
        ensures
            final(self).repetitions() == old(self).repetitions(),
            match old(self).pending_failure() {
                Some(e) => r matches BulkStep::Yield(Some(Err(got))) && got == e
                    && final(self).pending_failure() is None
                    && final(self).state() == old(self).state()
                    && final(self).buffered() == old(self).buffered(),
                None => final(self).pending_failure() is None && if old(self).state().done {
                    r matches BulkStep::Yield(None) && final(self).state() == old(self).state()
                } else if old(self).buffered().len() > 0 {
                    r matches BulkStep::Yield(item) && yields(
                        item,
                        old(self).state().accept(old(self).buffered()[0]).1,
                    ) && final(self).state() == old(self).state().accept(old(self).buffered()[0]).0
                        && final(self).buffered() == old(self).buffered().skip(1)
                } else {
                    r matches BulkStep::Fetch { oid, non_repeaters, max_repetitions }
                        && non_repeaters == 0
                        && oid@ == old(self).state().current
                        && max_repetitions == old(self).repetitions()
                        && final(self).state() == old(self).state()
                        && final(self).buffered().len() == 0
                },
            },
    {
        match self.failed.take() {
            Some(e) => {
                proof {
                    assert(self.buffered() =~= old(self).buffered());
                }
                return BulkStep::Yield(Some(Err(e)));
            },
            None => {},
        }
        if self.done {
            return BulkStep::Yield(None);
        }
        if self.buffer.len() > 0 {
            let vb = match self.buffer.pop() {
                Some(vb) => vb,
                None => {
                    return BulkStep::Yield(None);
                },
            };
            proof {
                assert(old(self).buffered()[0] == vb@);
                assert(self.buffered() =~= old(self).buffered().skip(1));
            }
            let item = match judge_varbind(&self.base_oid, &self.last_returned_oid, &vb) {
                Verdict::End => {
                    self.done = true;
                    None
                },
                Verdict::NonIncreasing => {
                    self.done = true;
                    let previous = match self.last_returned_oid.take() {
                        Some(l) => l,
                        None => Oid::empty(),
                    };
                    Some(Err(Error::NonIncreasingOid { previous, current: vb.oid }))
                },
                Verdict::Emit => {
                    self.current_oid = vb.oid.duplicate();
                    self.last_returned_oid = Some(vb.oid.duplicate());
                    Some(Ok(vb))
                },
            };
            proof {
                assert(self.buffered() =~= old(self).buffered().skip(1));
            }
            return BulkStep::Yield(item);
        }
        proof {
            assert(self.buffered() =~= old(self).buffered());
        }
        BulkStep::Fetch {
            oid: self.current_oid.duplicate(),
            non_repeaters: 0,
            max_repetitions: self.max_repetitions,
        }
    }

    /// Takes the reply to a GETBULK request. An error ends the walk and is
    /// yielded by the next step; an empty reply ends the walk; the bindings
    /// of any other reply are buffered.
    pub fn on_reply(&mut self, reply: Result<Vec<VarBind>>)
        ensures
            final(self).repetitions() == old(self).repetitions(),
            match reply {
                Err(e) => final(self).pending_failure() == Some(e) && final(self).state() == (
                WalkState { done: true, ..old(self).state() })
                    && final(self).buffered() == old(self).buffered(),
                Ok(list) => final(self).pending_failure() == old(self).pending_failure() && if list@.len()
                    == 0 {
                    final(self).state() == (WalkState { done: true, ..old(self).state() })
                        && final(self).buffered() == old(self).buffered()
                } else {
                    final(self).state() == old(self).state() && final(self).buffered()
                        == crate::varbind::views(list@)
                },
            },
    {
        match reply {
            Err(e) => {
                self.done = true;
                self.failed = Some(e);
                proof {
                    assert(self.buffered() =~= old(self).buffered());
                }
            },
            Ok(varbinds) => {
                if varbinds.len() == 0 {
                    self.done = true;
                    proof {
                        assert(self.buffered() =~= old(self).buffered());
                    }
                } else {
                    let ghost all = varbinds@;
                    let mut list = varbinds;
                    let mut reversed: Vec<VarBind> = Vec::new();
                    while list.len() > 0
                        invariant
                            list@.len() <= all.len(),
                            list@ == all.subrange(0, list@.len() as int),
                            reversed@.len() == all.len() - list@.len(),
                            forall|j: int|
                                0 <= j < reversed@.len() ==> reversed@[j] == all[all.len() - 1 - j],
                        decreases list@.len(),
                    {
                        match list.pop() {
                            Some(vb) => {
                                reversed.push(vb);
                            },
                            None => {},
                        }
                    }
                    self.buffer = reversed;
                    proof {
                        assert(self.buffered() =~= crate::varbind::views(all));
                    }
                }
            },
        }
    }
}

} // verus!
