//! Decisions of the agent on a request: the version of a message, what a
//! read yields under each version, and GETBULK on top of GETNEXT.

use vstd::prelude::*;

use crate::ber::decode::{parse_element, parse_integer, Decoder};
use crate::ber::tag;
use crate::error::ErrorStatus;
use super::registry::{follows, owns, HandlerRegistry};
use super::set_handler::{resolve, Resolution};
use super::vacm::VacmConfig;
use crate::handler::results::{GetNextResult, GetResult};
use crate::octets::same_octets;
use crate::oid::{is_prefix, lex_lt, Oid, Parsed};
use crate::pdu::{Pdu, PduType};
use crate::value::{Value, ValueView};
use crate::varbind::{views, VarBind, VarBindView};
use crate::version::Version;

verus! {

/// The version number of a message, found without decoding it: the first
/// INTEGER inside the outer SEQUENCE.
pub open spec fn version_number_of(s: Seq<u8>) -> Option<int> {
    match parse_element(s, 0, tag::universal::SEQUENCE) {
        Parsed::Failed { .. } => None,
        Parsed::Value { value: c, .. } => match parse_integer(c, 0) {
            Parsed::Failed { .. } => None,
            Parsed::Value { value, .. } => Some(value),
        },
    }
}

/// The version of a message, found without decoding it. `None` when the
/// octets do not start as a message, or name no version.
pub fn sniff_version(data: &[u8]) -> (r: Option<Version>)
    ensures
        match version_number_of(data@) {
            Some(n) => match r {
                Some(v) => v.wire_value() == n,
                None => n != 0 && n != 1 && n != 3,
            },
            None => r is None,
        },
{
    let mut decoder = Decoder::from_slice(data);
    let mut body = match decoder.read_sequence() {
        Err(_) => {
            return None;
        },
        Ok(b) => b,
    };
    proof {
        crate::ber::decode::lemma_parse_integer_shape(body.data(), 0);
    }
    match body.read_integer() {
        Err(_) => None,
        Ok(v) => Version::from_i32(v),
    }
}

/// What the answer to one binding of a read is.
pub enum Answer {
    /// The binding of the response.
    Binding(VarBindView),
    /// The request fails with `noSuchName` at the binding, which is echoed
    /// with NULL.
    NoSuchName(VarBindView),
}

/// An OID bound to a value.
pub open spec fn bound(oid: Seq<u32>, value: ValueView) -> VarBindView {
    VarBindView { oid, value }
}

/// The answer to a GET for an OID. Under v1 a missing object or instance
/// fails the request with `noSuchName`; under v2c and v3 the binding carries
/// the exception.
pub open spec fn get_answer(version: Version, oid: Seq<u32>, result: GetResult) -> Answer {
    match result {
        GetResult::Value(v) => Answer::Binding(bound(oid, v@)),
        GetResult::NoSuchObject => if version == Version::V1 {
            Answer::NoSuchName(bound(oid, ValueView::Null))
        } else {
            Answer::Binding(bound(oid, ValueView::NoSuchObject))
        },
        GetResult::NoSuchInstance => if version == Version::V1 {
            Answer::NoSuchName(bound(oid, ValueView::Null))
        } else {
            Answer::Binding(bound(oid, ValueView::NoSuchInstance))
        },
    }
}

/// The answer to a GETNEXT for an OID. Under v1 the end of the MIB view
/// fails the request with `noSuchName`; under v2c and v3 the OID is bound to
/// `endOfMibView`.
pub open spec fn get_next_answer(version: Version, oid: Seq<u32>, result: GetNextResult) -> Answer {
    match result {
        GetNextResult::Value(vb) => Answer::Binding(vb@),
        GetNextResult::EndOfMibView => if version == Version::V1 {
            Answer::NoSuchName(bound(oid, ValueView::Null))
        } else {
            Answer::Binding(bound(oid, ValueView::EndOfMibView))
        },
    }
}

/// The answer for an OID that the read view does not contain, or that no
/// handler owns: `noSuchName` under v1, else `noSuchObject`.
pub open spec fn hidden_answer(version: Version, oid: Seq<u32>) -> Answer {
    get_answer(version, oid, GetResult::NoSuchObject)
}

/// Collects the answers to the bindings of a read into the response.
pub struct ResponseCollector {
    version: Version,
    request_id: i32,
    varbinds: Vec<VarBind>,
    failed_at: Option<usize>,
}

impl ResponseCollector {
    /// The version of the request.
    pub closed spec fn version(self) -> Version {
        self.version
    }

    /// The request-id of the request.
    pub closed spec fn request_id(self) -> i32 {
        self.request_id
    }

    /// The bindings of the response so far.
    pub closed spec fn bindings(self) -> Seq<VarBindView> {
        views(self.varbinds@)
    }

    /// The position of the first binding that failed the request.
    pub closed spec fn failed_at(self) -> Option<int> {
        match self.failed_at {
            Some(k) => Some(k as int),
            None => None,
        }
    }

    /// What an answer makes of the collector: its binding is appended, and
    /// the first failure is kept.
    pub open spec fn after(self, before: ResponseCollector, answer: Answer) -> bool {
        &&& self.version() == before.version()
        &&& self.request_id() == before.request_id()
        &&& self.bindings() == before.bindings().push(
            match answer {
                Answer::Binding(vb) => vb,
                Answer::NoSuchName(vb) => vb,
            },
        )
        &&& self.failed_at() == (if before.failed_at() is None && answer is NoSuchName {
            Some(before.bindings().len() as int)
        } else {
            before.failed_at()
        })
    }

    /// A collector for the response to a request.
    pub fn new(version: Version, request_id: i32) -> (r: ResponseCollector)
        ensures
            r.version() == version,
            r.request_id() == request_id,
            r.bindings().len() == 0,
            r.failed_at() is None,
    {
        ResponseCollector { version, request_id, varbinds: Vec::new(), failed_at: None }
    }

    /// Whether the request is under v1.
    fn is_v1(&self) -> (r: bool)
        ensures
            r == (self.version == Version::V1),
    {
        match self.version {
            Version::V1 => true,
            _ => false,
        }
    }

    /// Appends a binding; with `fails`, the request fails at it.
    fn push(&mut self, vb: VarBind, fails: bool)
        ensures
            final(self).after(
                *old(self),
                if fails {
                    Answer::NoSuchName(vb@)
                } else {
                    Answer::Binding(vb@)
                },
            ),
    {
        if fails && self.failed_at.is_none() {
            self.failed_at = Some(self.varbinds.len());
        }
        self.varbinds.push(vb);
        proof {
            assert(views(self.varbinds@) =~= views(old(self).varbinds@).push(vb@));
            assert(views(old(self).varbinds@).len() == old(self).varbinds@.len());
        }
    }

    /// Takes the result of a GET for an OID.
    pub fn push_get(&mut self, oid: Oid, result: GetResult)
        ensures
            final(self).after(*old(self), get_answer(old(self).version(), oid@, result)),
    {
        let v1 = self.is_v1();
        match result {
            GetResult::Value(v) => self.push(VarBind::new(oid, v), false),
            GetResult::NoSuchObject => if v1 {
                self.push(VarBind::null(oid), true)
            } else {
                self.push(VarBind::new(oid, Value::NoSuchObject), false)
            },
            GetResult::NoSuchInstance => if v1 {
                self.push(VarBind::null(oid), true)
            } else {
                self.push(VarBind::new(oid, Value::NoSuchInstance), false)
            },
        }
    }

    /// Takes the result of a GETNEXT for an OID.
    pub fn push_get_next(&mut self, oid: Oid, result: GetNextResult)
        ensures
            final(self).after(*old(self), get_next_answer(old(self).version(), oid@, result)),
    {
        let v1 = self.is_v1();
        match result {
            GetNextResult::Value(vb) => self.push(vb, false),
            GetNextResult::EndOfMibView => if v1 {
                self.push(VarBind::null(oid), true)
            } else {
                self.push(VarBind::new(oid, Value::EndOfMibView), false)
            },
        }
    }

    /// Takes an OID that the read view does not contain, or that no handler
    /// owns.
    pub fn push_hidden(&mut self, oid: Oid)
        ensures
            final(self).after(*old(self), hidden_answer(old(self).version(), oid@)),
    {
        self.push_get(oid, GetResult::NoSuchObject);
    }

    /// The response: the bindings that were collected, with `noSuchName` at
    /// the first binding that failed, else `noError`.
    pub fn finish(self) -> (r: Pdu)
        ensures
            r.pdu_type == PduType::Response,
            r.request_id == self.request_id(),
            r@.varbinds == self.bindings(),
            match self.failed_at() {
                Some(k) => r.error_status == ErrorStatus::NoSuchName.code() && r.error_index
                    == crate::agent::set_handler::error_index_at(k),
                None => r.error_status == 0 && r.error_index == 0,
            },
    {
        let (error_status, error_index) = match self.failed_at {
            Some(k) => (
                ErrorStatus::NoSuchName.as_i32(),
                if k >= 0x7FFF_FFFF {
                    0x7FFF_FFFF
                } else {
                    (k + 1) as i32
                },
            ),
            None => (0, 0),
        };
        Pdu {
            pdu_type: PduType::Response,
            request_id: self.request_id,
            error_status,
            error_index,
            varbinds: self.varbinds,
        }
    }
}

/// The number of bindings of a GETBULK request that are read once: the
/// `non_repeaters` of the request, at least 0 and at most the number of its
/// bindings.
pub open spec fn bulk_single(non_repeaters: i32, count: nat) -> nat {
    if non_repeaters <= 0 {
        0
    } else if non_repeaters as nat > count {
        count
    } else {
        non_repeaters as nat
    }
}

/// The position in the request of the binding that step `step` of a GETBULK
/// reads the successor of, and the repetition that it belongs to; `None`
/// when the request needs no further step. The first steps read each of the
/// single bindings once; the following steps read the repeated bindings in
/// turn, `max_repetitions` times over.
pub open spec fn bulk_step(non_repeaters: i32, max_repetitions: i32, count: nat, step: nat) -> Option<
    (nat, nat),
> {
    let single = bulk_single(non_repeaters, count);
    let repeated = (count - single) as nat;
    if step < single {
        Some((step, 0nat))
    } else if repeated == 0 || max_repetitions <= 0 {
        None
    } else {
        let k = (step - single) as nat;
        if k / repeated >= max_repetitions as nat {
            None
        } else {
            Some((single + k % repeated, k / repeated))
        }
    }
}

/// Says which binding the given step of a GETBULK reads the successor of:
/// its position in the request and its repetition. In repetition 0 the OID
/// of the request is the start; in a later repetition, the OID that the
/// repetition before it yielded for the same binding.
pub fn bulk_schedule(non_repeaters: i32, max_repetitions: i32, count: usize, step: usize) -> (r:
    Option<(usize, usize)>)
    ensures
        match bulk_step(non_repeaters, max_repetitions, count as nat, step as nat) {
            Some(pair) => r == Some((pair.0 as usize, pair.1 as usize)) && pair.0 < count,
            None => r is None,
        },
{
    let single: usize = if non_repeaters <= 0 {
        0
    } else if non_repeaters as usize > count {
        count
    } else {
        non_repeaters as usize
    };
    let repeated = count - single;
    if step < single {
        return Some((step, 0));
    }
    if repeated == 0 || max_repetitions <= 0 {
        return None;
    }
    let k = step - single;
    let repetition = k / repeated;
    if repetition >= max_repetitions as usize {
        return None;
    }
    proof {
        assert(k % repeated < repeated) by (nonlinear_arith)
            requires
                repeated > 0,
        ;
    }
    Some((single + k % repeated, repetition))
}

// ---------------------------------------------------------------------------
// Reading through the handlers
// ---------------------------------------------------------------------------

/// Whether an OID is shown to a request: without access control every OID
/// is; with it, the OIDs that the read view of the request permits.
pub open spec fn shown(vacm: Option<VacmConfig>, read_view: Option<Seq<u8>>, oid: Seq<u32>) -> bool {
    vacm is None || vacm->0.permits(read_view, oid)
}

/// Whether an OID is shown to a request.
pub fn is_shown(vacm: Option<&VacmConfig>, read_view: Option<&[u8]>, oid: &Oid) -> (r: bool)
    ensures
        r == shown(
            match vacm {
                Some(v) => Some(*v),
                None => None,
            },
            match read_view {
                Some(w) => Some(w@),
                None => None,
            },
            oid@,
        ),
{
    match vacm {
        Some(v) => v.check_access(read_view, oid),
        None => true,
    }
}

/// What the tables say of an OID under a view: denied where access control
/// is on and the view does not permit the OID, else the handler that owns
/// the OID, or that there is none.
pub fn resolve_oid(
    vacm: Option<&VacmConfig>,
    view: Option<&[u8]>,
    registry: &HandlerRegistry,
    oid: &Oid,
) -> (r: Resolution)
    ensures
        resolve(
            match vacm {
                Some(v) => Some(*v),
                None => None,
            },
            match view {
                Some(w) => Some(w@),
                None => None,
            },
            registry.prefixes(),
            oid@,
            r,
        ),
{
    if !is_shown(vacm, view, oid) {
        Resolution::Denied
    } else {
        match registry.find_handler(oid) {
            Some(h) => Resolution::Handler(h),
            None => Resolution::NoHandler,
        }
    }
}

/// The handler `h` answers a GETNEXT for the OID: it owns the OID, or no
/// handler owns the OID and its prefix is the first after the OID. `None`
/// says that no prefix is a prefix of the OID or comes after it.
pub open spec fn answers_next(prefixes: Seq<Seq<u32>>, oid: Seq<u32>, h: Option<int>) -> bool {
    match h {
        Some(k) => owns(prefixes, k, oid) || ((forall|j: int|
            0 <= j < prefixes.len() ==> !is_prefix(#[trigger] prefixes[j], oid)) && follows(
            prefixes,
            k,
            oid,
        )),
        None => forall|j: int|
            0 <= j < prefixes.len() ==> !is_prefix(#[trigger] prefixes[j], oid) && !lex_lt(
                oid,
                prefixes[j],
            ),
    }
}

/// The prefix of the handler `h` is the first after the OID. `None` says
/// that no prefix comes after it.
pub open spec fn comes_next(prefixes: Seq<Seq<u32>>, oid: Seq<u32>, h: Option<int>) -> bool {
    match h {
        Some(k) => follows(prefixes, k, oid),
        None => forall|j: int| 0 <= j < prefixes.len() ==> !lex_lt(oid, #[trigger] prefixes[j]),
    }
}

/// The search for the answer to a GETNEXT over the handlers: the OID that
/// is asked for next, and the handler that is asked.
pub struct NextSearch {
    probe: Oid,
    handler: Option<usize>,
}

impl NextSearch {
    /// The OID that the search asks for next.
    pub closed spec fn probe(self) -> Seq<u32> {
        self.probe@
    }

    /// The handler that the search asks next; `None` when the search has
    /// come to the end of the MIB.
    pub closed spec fn handler(self) -> Option<int> {
        match self.handler {
            Some(k) => Some(k as int),
            None => None,
        }
    }

    /// The handler is one of the registry.
    pub open spec fn wf(self, prefixes: Seq<Seq<u32>>) -> bool {
        self.handler() matches Some(k) ==> 0 <= k < prefixes.len()
    }

    /// Begins the search behind an OID.
    pub fn start(registry: &HandlerRegistry, oid: &Oid) -> (r: NextSearch)
        ensures
            r.probe() == oid@,
            answers_next(registry.prefixes(), oid@, r.handler()),
            r.wf(registry.prefixes()),
    {
        NextSearch { probe: oid.duplicate(), handler: registry.find_next_handler(oid) }
    }

    /// The handler to ask and the OID to ask it for; `None` when the answer
    /// is the end of the MIB view.
    pub fn ask(&self) -> (r: Option<(usize, &Oid)>)
        ensures
            match self.handler() {
                Some(k) => r matches Some(pair) && pair.0 == k && pair.1@ == self.probe(),
                None => r is None,
            },
    {
        match self.handler {
            Some(k) => Some((k, &self.probe)),
            None => None,
        }
    }

    /// Takes what the handler said and gives the answer, or `None` while
    /// the search goes on.
    ///
    /// A binding that is shown to the request is the answer. A binding that
    /// is hidden is passed over: the search goes on behind its OID; a
    /// handler that gives an OID which is not after the one asked for ends
    /// the search. A handler that has nothing more is followed by the
    /// handler whose prefix comes next. With no handler left the answer is
    /// the end of the MIB view.
    pub fn on_result(
        &mut self,
        registry: &HandlerRegistry,
        vacm: Option<&VacmConfig>,
        read_view: Option<&[u8]>,
        result: GetNextResult,
    ) -> (r: Option<GetNextResult>)
        requires
            old(self).wf(registry.prefixes()),
            old(self).handler() is Some,
        ensures
            final(self).wf(registry.prefixes()),
            match result {
                GetNextResult::Value(vb) => if shown(
                    match vacm {
                        Some(v) => Some(*v),
                        None => None,
                    },
                    match read_view {
                        Some(w) => Some(w@),
                        None => None,
                    },
                    vb.oid@,
                ) {
                    r == Some(GetNextResult::Value(vb)) && final(self).probe() == old(self).probe()
                        && final(self).handler() == old(self).handler()
                } else if !lex_lt(old(self).probe(), vb.oid@) {
                    r == Some(GetNextResult::EndOfMibView) && final(self).handler() is None
                } else {
                    final(self).probe() == vb.oid@ && answers_next(
                        registry.prefixes(),
                        vb.oid@,
                        final(self).handler(),
                    ) && r == (if final(self).handler() is None {
                        Some(GetNextResult::EndOfMibView)
                    } else {
                        None
                    })
                },
                GetNextResult::EndOfMibView => {
                    let prefix = registry.prefixes()[old(self).handler()->0];
                    final(self).probe() == (if lex_lt(old(self).probe(), prefix) {
                        prefix
                    } else {
                        old(self).probe()
                    }) && comes_next(registry.prefixes(), final(self).probe(), final(self).handler())
                        && (final(self).handler() matches Some(j) ==> lex_lt(
                        prefix,
                        registry.prefixes()[j],
                    )) && r == (if final(self).handler() is None {
                        Some(GetNextResult::EndOfMibView)
                    } else {
                        None
                    })
                },
            },
    {
        let k = match self.handler {
            Some(k) => k,
            None => {
                return Some(GetNextResult::EndOfMibView);
            },
        };
        match result {
            GetNextResult::Value(vb) => {
                if is_shown(vacm, read_view, &vb.oid) {
                    return Some(GetNextResult::Value(vb));
                }
                if !self.probe.precedes(&vb.oid) {
                    self.handler = None;
                    return Some(GetNextResult::EndOfMibView);
                }
                self.handler = registry.find_next_handler(&vb.oid);
                self.probe = vb.oid;
            },
            GetNextResult::EndOfMibView => {
                let (from, next) = registry.after_end(&self.probe, k);
                self.probe = from;
                self.handler = next;
            },
        }
        match self.handler {
            Some(_) => None,
            None => Some(GetNextResult::EndOfMibView),
        }
    }
}

// ---------------------------------------------------------------------------
// GETBULK
// ---------------------------------------------------------------------------

/// A GETBULK as a run of GETNEXT steps: where each binding of the request
/// has come to, and the step that is next.
pub struct BulkRead {
    non_repeaters: i32,
    max_repetitions: i32,
    cursors: Vec<Oid>,
    step: usize,
    limit: usize,
}

impl BulkRead {
    /// The OIDs at which the bindings of the request stand.
    pub closed spec fn cursors(self) -> Seq<Seq<u32>> {
        Seq::new(self.cursors@.len(), |i: int| self.cursors@[i]@)
    }

    /// The number of steps that were made.
    pub closed spec fn steps(self) -> nat {
        self.step as nat
    }

    /// The most steps that are made.
    pub closed spec fn limit(self) -> nat {
        self.limit as nat
    }

    /// The `non_repeaters` of the request.
    pub closed spec fn non_repeaters(self) -> i32 {
        self.non_repeaters
    }

    /// The `max_repetitions` of the request.
    pub closed spec fn max_repetitions(self) -> i32 {
        self.max_repetitions
    }

    /// The binding that the next step reads the successor of: its position
    /// in the request. `None` when the request needs no further step, or
    /// the limit of steps is reached.
    pub open spec fn position(self) -> Option<nat> {
        if self.steps() >= self.limit() {
            None
        } else {
            match bulk_step(
                self.non_repeaters(),
                self.max_repetitions(),
                self.cursors().len(),
                self.steps(),
            ) {
                Some(pair) => Some(pair.0),
                None => None,
            }
        }
    }

    /// Begins a GETBULK for a request, whose two counts stand in its error
    /// fields. At most `limit` bindings are read, so that the response fits
    /// a message.
    pub fn new(pdu: &Pdu, limit: usize) -> (r: BulkRead)
        ensures
            r.non_repeaters() == pdu.error_status,
            r.max_repetitions() == pdu.error_index,
            r.steps() == 0,
            r.limit() == limit,
            r.cursors().len() == pdu.varbinds@.len(),
            forall|i: int|
                0 <= i < pdu.varbinds@.len() ==> (#[trigger] r.cursors()[i]) == pdu.varbinds@[i].oid@,
    {
        let n = pdu.varbinds.len();
        let mut cursors: Vec<Oid> = Vec::with_capacity(n);
        let mut i: usize = 0;
        while i < n
            invariant
                i <= n,
                n == pdu.varbinds@.len(),
                cursors@.len() == i,
                forall|j: int| 0 <= j < i ==> (#[trigger] cursors@[j])@ == pdu.varbinds@[j].oid@,
            decreases n - i,
        {
            cursors.push(pdu.varbinds[i].oid.duplicate());
            i += 1;
        }
        BulkRead {
            non_repeaters: pdu.error_status,
            max_repetitions: pdu.error_index,
            cursors,
            step: 0,
            limit,
        }
    }

    /// The OID to read the successor of in the next step, or `None` when
    /// the response is complete.
    pub fn next_start(&self) -> (r: Option<Oid>)
        ensures
            match self.position() {
                Some(p) => r matches Some(oid) && p < self.cursors().len() && oid@
                    == self.cursors()[p as int],
                None => r is None,
            },
    {
        if self.step >= self.limit {
            return None;
        }
        match bulk_schedule(self.non_repeaters, self.max_repetitions, self.cursors.len(), self.step) {
            Some((position, _)) => Some(self.cursors[position].duplicate()),
            None => None,
        }
    }

    /// Takes the result of the step: it is collected for the response
    /// under the OID that was read from, and a binding that was found is
    /// where the next repetition of the same binding reads on.
    pub fn record(&mut self, collector: &mut ResponseCollector, result: GetNextResult)
        requires
            old(self).position() is Some,
        ensures
            final(self).non_repeaters() == old(self).non_repeaters(),
            final(self).max_repetitions() == old(self).max_repetitions(),
            final(self).limit() == old(self).limit(),
            final(self).steps() == old(self).steps() + 1,
            final(self).cursors() == (match result {
                GetNextResult::Value(vb) => old(self).cursors().update(
                    old(self).position()->0 as int,
                    vb.oid@,
                ),
                GetNextResult::EndOfMibView => old(self).cursors(),
            }),
            final(collector).after(
                *old(collector),
                get_next_answer(
                    old(collector).version(),
                    old(self).cursors()[old(self).position()->0 as int],
                    result,
                ),
            ),
    {
        let position = match bulk_schedule(
            self.non_repeaters,
            self.max_repetitions,
            self.cursors.len(),
            self.step,
        ) {
            Some((position, _)) => position,
            None => {
                return ;
            },
        };
        let start = self.cursors[position].duplicate();
        match &result {
            GetNextResult::Value(vb) => {
                let next = vb.oid.duplicate();
                self.cursors.set(position, next);
                proof {
                    assert(self.cursors() =~= old(self).cursors().update(position as int, vb.oid@));
                }
            },
            GetNextResult::EndOfMibView => {
                proof {
                    assert(self.cursors() =~= old(self).cursors());
                }
            },
        }
        self.step = self.step + 1;
        collector.push_get_next(start, result);
    }
}

// ---------------------------------------------------------------------------
// Which requests are answered
// ---------------------------------------------------------------------------

/// Whether a community is one of the communities that the agent accepts.
pub open spec fn accepted(known: Seq<Vec<u8>>, community: Seq<u8>) -> bool {
    exists|i: int| 0 <= i < known.len() && (#[trigger] known[i])@ == community
}

/// Whether a community is one of the communities that the agent accepts. A
/// request with another community gets no answer.
pub fn community_known(known: &[Vec<u8>], community: &[u8]) -> (r: bool)
    ensures
        r == accepted(known@, community@),
{
    let n = known.len();
    let mut i: usize = 0;
    while i < n
        invariant
            i <= n,
            n == known@.len(),
            forall|j: int| 0 <= j < i ==> (#[trigger] known@[j])@ != community@,
        decreases n - i,
    {
        if same_octets(known[i].as_slice(), community) {
            return true;
        }
        i += 1;
    }
    false
}

/// The operations that an agent answers.
#[derive(Debug, Clone, Copy, PartialEq, Eq, Structural)]
pub enum Operation {
    Get,
    GetNext,
    GetBulk,
    SetValues,
}

/// The operation that a PDU asks for under a version, or `None` for a PDU
/// that gets no answer: GET, GETNEXT and SET under every version, GETBULK
/// under every version but v1, which has none; no other PDU is a request to
/// an agent.
pub open spec fn operation_of(version: Version, pdu_type: PduType) -> Option<Operation> {
    match pdu_type {
        PduType::GetRequest => Some(Operation::Get),
        PduType::GetNextRequest => Some(Operation::GetNext),
        PduType::GetBulkRequest => if version == Version::V1 {
            None
        } else {
            Some(Operation::GetBulk)
        },
        PduType::SetRequest => Some(Operation::SetValues),
        _ => None,
    }
}

/// The operation that a PDU asks for under a version.
pub fn requested_operation(version: Version, pdu_type: PduType) -> (r: Option<Operation>)
    ensures
        r == operation_of(version, pdu_type),
{
    match pdu_type {
        PduType::GetRequest => Some(Operation::Get),
        PduType::GetNextRequest => Some(Operation::GetNext),
        PduType::GetBulkRequest => {
            match version {
                Version::V1 => None,
                _ => Some(Operation::GetBulk),
            }
        },
        PduType::SetRequest => Some(Operation::SetValues),
        _ => None,
    }
}

} // verus!
