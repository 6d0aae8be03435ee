//! View-based Access Control Model (RFC 3415).
//!
//! VACM controls access through three tables:
//!
//! 1. **Security-to-Group Table**: maps (securityModel, securityName) to groupName.
//! 2. **Access Table**: maps (groupName, contextPrefix, securityModel, securityLevel)
//!    to view names for read, write, and notify operations.
//! 3. **View Tree Family Table**: defines views as collections of OID subtrees,
//!    with optional inclusion/exclusion and wildcard masks.

use vstd::prelude::*;
use vstd::view::View as _;

use crate::message::SecurityLevel;
use crate::octets::{has_prefix, octets_prefix, same_octets};
use crate::oid::Oid;

verus! {

/// Security model identifiers (RFC 3411).
#[derive(Debug, Clone, Copy, PartialEq, Eq, Hash, Structural)]
pub enum SecurityModel {
    /// Wildcard for VACM matching (matches any model).
    Any,
    /// SNMPv1.
    V1,
    /// SNMPv2c.
    V2c,
    /// SNMPv3 User-based Security Model.
    Usm,
}

impl SecurityModel {
    /// The number of the model in RFC 3411.
    pub fn number(self) -> (r: i32)
        ensures
            r == match self {
                SecurityModel::Any => 0i32,
                SecurityModel::V1 => 1i32,
                SecurityModel::V2c => 2i32,
                SecurityModel::Usm => 3i32,
            },
    {
        match self {
            SecurityModel::Any => 0,
            SecurityModel::V1 => 1,
            SecurityModel::V2c => 2,
            SecurityModel::Usm => 3,
        }
    }

    /// Whether two models are the same.
    pub fn same(self, other: SecurityModel) -> (r: bool)
        ensures
            r == (self == other),
    {
        self.number() == other.number()
    }
}

/// Context matching mode for access entries.
#[derive(Debug, Clone, Copy, PartialEq, Eq, Structural)]
pub enum ContextMatch {
    /// Exact context name match.
    Exact,
    /// Context name prefix match.
    Prefix,
}

impl Default for ContextMatch {
    fn default() -> (r: ContextMatch)
        ensures
            r == ContextMatch::Exact,
    {
        ContextMatch::Exact
    }
}

// ---------------------------------------------------------------------------
// Views
// ---------------------------------------------------------------------------

/// A subtree in a view with optional mask.
#[derive(Debug, Clone)]
pub struct ViewSubtree {
    /// Base OID of subtree.
    pub oid: Oid,
    /// Bit mask for wildcard matching (empty = exact match).
    ///
    /// Each bit position corresponds to an arc in the OID:
    /// - Bit 7 (MSB) of byte 0 = arc 0
    /// - Bit 6 of byte 0 = arc 1
    /// - etc.
    ///
    /// A bit value of 1 means the arc must match exactly.
    /// A bit value of 0 means any value is accepted (wildcard).
    pub mask: Vec<u8>,
    /// Whether the subtree is part of the view (true) or cut out of it (false).
    pub included: bool,
}

/// What a subtree of a view is.
pub struct SubtreeView {
    pub oid: Seq<u32>,
    pub mask: Seq<u8>,
    pub included: bool,
}

impl vstd::view::View for ViewSubtree {
    type V = SubtreeView;

    open spec fn view(&self) -> SubtreeView {
        SubtreeView { oid: self.oid@, mask: self.mask@, included: self.included }
    }
}

/// Whether the arc at position `i` must match: the mask bit for the position
/// is 1, or the mask has no octet for it. Bit 7 of octet 0 stands for arc 0.
pub open spec fn must_match(mask: Seq<u8>, i: int) -> bool {
    i / 8 >= mask.len() || (mask[i / 8] >> ((7 - i % 8) as u8)) & 1u8 == 1u8
}

/// Whether an OID lies in a subtree: it is at least as long as the subtree's
/// OID and agrees with it at every position that must match.
pub open spec fn subtree_matches(sub: SubtreeView, oid: Seq<u32>) -> bool {
    &&& oid.len() >= sub.oid.len()
    &&& forall|i: int| 0 <= i < sub.oid.len() && must_match(sub.mask, i) ==> oid[i] == sub.oid[i]
}

/// Whether an OID is in a view: some included subtree matches it, and no
/// excluded subtree does.
pub open spec fn view_contains(subtrees: Seq<SubtreeView>, oid: Seq<u32>) -> bool {
    &&& exists|i: int|
        0 <= i < subtrees.len() && (#[trigger] subtrees[i]).included && subtree_matches(
            subtrees[i],
            oid,
        )
    &&& forall|j: int|
        0 <= j < subtrees.len() && !(#[trigger] subtrees[j]).included ==> !subtree_matches(
            subtrees[j],
            oid,
        )
}

/// Adding an included subtree to a view never takes an OID out of it.
pub proof fn lemma_include_keeps_access(subtrees: Seq<SubtreeView>, extra: SubtreeView, oid: Seq<u32>)
    requires
        extra.included,
        view_contains(subtrees, oid),
    ensures
        view_contains(subtrees.push(extra), oid),
{
    let grown = subtrees.push(extra);
    let i = choose|i: int|
        0 <= i < subtrees.len() && (#[trigger] subtrees[i]).included && subtree_matches(
            subtrees[i],
            oid,
        );
    assert(grown[i] == subtrees[i]);
    assert forall|j: int| 0 <= j < grown.len() && !(#[trigger] grown[j]).included implies !subtree_matches(
        grown[j],
        oid,
    ) by {
        if j < subtrees.len() {
            assert(grown[j] == subtrees[j]);
        }
    }
}

/// Adding an excluded subtree to a view never brings an OID into it.
pub proof fn lemma_exclude_adds_no_access(
    subtrees: Seq<SubtreeView>,
    extra: SubtreeView,
    oid: Seq<u32>,
)
    requires
        !extra.included,
        view_contains(subtrees.push(extra), oid),
    ensures
        view_contains(subtrees, oid),
{
    let grown = subtrees.push(extra);
    let i = choose|i: int|
        0 <= i < grown.len() && (#[trigger] grown[i]).included && subtree_matches(grown[i], oid);
    assert(i < subtrees.len());
    assert(grown[i] == subtrees[i]);
    assert forall|j: int| 0 <= j < subtrees.len()
        && !(#[trigger] subtrees[j]).included implies !subtree_matches(
        subtrees[j],
        oid,
    ) by {
        assert(grown[j] == subtrees[j]);
    }
}

impl ViewSubtree {
    /// Check if an OID matches this subtree (with mask).
    pub fn matches(&self, oid: &Oid) -> (r: bool)
        ensures
            r == subtree_matches(self@, oid@),
    {
        let subtree_arcs = self.oid.arcs();
        let oid_arcs = oid.arcs();
        let n = subtree_arcs.len();
        if oid_arcs.len() < n {
            return false;
        }
        let mut i: usize = 0;
        while i < n
            invariant
                i <= n,
                n == self.oid@.len(),
                subtree_arcs@ == self.oid@,
                oid_arcs@ == oid@,
                n <= oid@.len(),
                forall|j: int| 0 <= j < i && must_match(self.mask@, j) ==> oid@[j] == self.oid@[j],
            decreases n - i,
        {
            let required = if i / 8 < self.mask.len() {
                let shift: u8 = (7 - (i % 8)) as u8;
                (self.mask[i / 8] >> shift) & 1u8 == 1u8
            } else {
                true
            };
            if required && oid_arcs[i] != subtree_arcs[i] {
                return false;
            }
            i += 1;
        }
        true
    }

    /// A copy of the subtree.
    pub fn duplicate(&self) -> (r: ViewSubtree)
        ensures
            r@ == self@,
    {
        ViewSubtree { oid: self.oid.duplicate(), mask: self.mask.clone(), included: self.included }
    }
}

/// A view is a collection of OID subtrees defining accessible objects.
#[derive(Debug, Clone)]
pub struct View {
    subtrees: Vec<ViewSubtree>,
}

impl vstd::view::View for View {
    type V = Seq<SubtreeView>;

    closed spec fn view(&self) -> Seq<SubtreeView> {
        Seq::new(self.subtrees@.len(), |i: int| self.subtrees@[i]@)
    }
}

impl View {
    /// Create a new empty view, which contains no OID.
    pub fn new() -> (r: View)
        ensures
            r@ == Seq::<SubtreeView>::empty(),
    {
        let r = View { subtrees: Vec::new() };
        proof {
            assert(r@ =~= Seq::<SubtreeView>::empty());
        }
        r
    }

    /// Adds a subtree to the view.
    fn with_subtree(self, subtree: ViewSubtree) -> (r: View)
        ensures
            r@ == self@.push(subtree@),
    {
        let mut subtrees = self.subtrees;
        subtrees.push(subtree);
        let r = View { subtrees };
        proof {
            assert(r@ =~= self@.push(subtree@));
        }
        r
    }

    /// Add an included subtree to the view: every OID that starts with `oid`
    /// is in the view, unless an excluded subtree matches it.
    pub fn include_subtree(self, oid: Oid) -> (r: View)
        ensures
            r@ == self@.push(SubtreeView { oid: oid@, mask: Seq::empty(), included: true }),
    {
        self.with_subtree(ViewSubtree { oid, mask: Vec::new(), included: true })
    }

    /// Add an included subtree with a wildcard mask.
    pub fn include_masked(self, oid: Oid, mask: Vec<u8>) -> (r: View)
        ensures
            r@ == self@.push(SubtreeView { oid: oid@, mask: mask@, included: true }),
    {
        self.with_subtree(ViewSubtree { oid, mask, included: true })
    }

    /// Add an excluded subtree to the view: an OID that starts with `oid` is
    /// not in the view, whatever included subtree matches it.
    pub fn exclude(self, oid: Oid) -> (r: View)
        ensures
            r@ == self@.push(SubtreeView { oid: oid@, mask: Seq::empty(), included: false }),
    {
        self.with_subtree(ViewSubtree { oid, mask: Vec::new(), included: false })
    }

    /// Add an excluded subtree with a wildcard mask.
    pub fn exclude_masked(self, oid: Oid, mask: Vec<u8>) -> (r: View)
        ensures
            r@ == self@.push(SubtreeView { oid: oid@, mask: mask@, included: false }),
    {
        self.with_subtree(ViewSubtree { oid, mask, included: false })
    }

    /// Check if an OID is in this view: at least one included subtree
    /// matches, and no excluded subtree matches.
    pub fn contains(&self, oid: &Oid) -> (r: bool)
        ensures
            r == view_contains(self@, oid@),
    {
        let mut dominated_by_include = false;
        let mut dominated_by_exclude = false;
        let n = self.subtrees.len();
        let mut k: usize = 0;
        while k < n
            invariant
                k <= n,
                n == self.subtrees@.len(),
                n == self@.len(),
                dominated_by_include == (exists|i: int|
                    0 <= i < k && (#[trigger] self@[i]).included && subtree_matches(self@[i], oid@)),
                dominated_by_exclude == (exists|j: int|
                    0 <= j < k && !(#[trigger] self@[j]).included && subtree_matches(
                        self@[j],
                        oid@,
                    )),
            decreases n - k,
        {
            let subtree = &self.subtrees[k];
            proof {
                assert(self@[k as int] == subtree@);
            }
            if subtree.matches(oid) {
                if subtree.included {
                    dominated_by_include = true;
                } else {
                    dominated_by_exclude = true;
                }
            }
            k += 1;
        }
        dominated_by_include && !dominated_by_exclude
    }

    /// A copy of the view.
    pub fn duplicate(&self) -> (r: View)
        ensures
            r@ == self@,
    {
        let n = self.subtrees.len();
        let mut subtrees: Vec<ViewSubtree> = Vec::with_capacity(n);
        let mut k: usize = 0;
        while k < n
            invariant
                k <= n,
                n == self.subtrees@.len(),
                subtrees@.len() == k,
                forall|j: int| 0 <= j < k ==> subtrees@[j]@ == self.subtrees@[j]@,
            decreases n - k,
        {
            subtrees.push(self.subtrees[k].duplicate());
            k += 1;
        }
        let r = View { subtrees };
        proof {
            assert(r@ =~= self@);
        }
        r
    }
}

impl Default for View {
    fn default() -> (r: View)
        ensures
            r@ == Seq::<SubtreeView>::empty(),
    {
        View::new()
    }
}

// ---------------------------------------------------------------------------
// Access entries
// ---------------------------------------------------------------------------

/// Access table entry.
#[derive(Debug, Clone)]
pub struct VacmAccessEntry {
    /// Group name this entry applies to.
    pub group_name: Vec<u8>,
    /// Context prefix for matching.
    pub context_prefix: Vec<u8>,
    /// Security model (or Any for wildcard).
    pub security_model: SecurityModel,
    /// Minimum security level required.
    pub security_level: SecurityLevel,
    /// Context matching mode.
    pub context_match: ContextMatch,
    /// View name for read access.
    pub read_view: Vec<u8>,
    /// View name for write access.
    pub write_view: Vec<u8>,
    /// View name for notify access (traps/informs).
    pub notify_view: Vec<u8>,
}

/// What an access entry is.
pub struct AccessEntryView {
    pub group_name: Seq<u8>,
    pub context_prefix: Seq<u8>,
    pub security_model: SecurityModel,
    pub security_level: SecurityLevel,
    pub context_match: ContextMatch,
    pub read_view: Seq<u8>,
    pub write_view: Seq<u8>,
    pub notify_view: Seq<u8>,
}

impl vstd::view::View for VacmAccessEntry {
    type V = AccessEntryView;

    open spec fn view(&self) -> AccessEntryView {
        AccessEntryView {
            group_name: self.group_name@,
            context_prefix: self.context_prefix@,
            security_model: self.security_model,
            security_level: self.security_level,
            context_match: self.context_match,
            read_view: self.read_view@,
            write_view: self.write_view@,
            notify_view: self.notify_view@,
        }
    }
}

/// Whether a context name matches the prefix of an entry: the same name in
/// exact mode, a name that starts with the prefix in prefix mode.
pub open spec fn context_matches(prefix: Seq<u8>, context: Seq<u8>, mode: ContextMatch) -> bool {
    match mode {
        ContextMatch::Exact => prefix == context,
        ContextMatch::Prefix => octets_prefix(prefix, context),
    }
}

/// Whether an entry can serve a request: same group, matching context, the
/// model of the request or `Any`, and a level that the request reaches.
pub open spec fn eligible(
    e: AccessEntryView,
    group: Seq<u8>,
    context: Seq<u8>,
    model: SecurityModel,
    level: SecurityLevel,
) -> bool {
    &&& e.group_name == group
    &&& context_matches(e.context_prefix, context, e.context_match)
    &&& (e.security_model == model || e.security_model == SecurityModel::Any)
    &&& level.rank() >= e.security_level.rank()
}

/// The preference of an entry for a request of the given model: the model
/// of the request before `Any`, exact context match before prefix match,
/// then the longer prefix, then the higher level.
pub open spec fn preference(e: AccessEntryView, model: SecurityModel) -> (int, int, int, int) {
    (
        if e.security_model == model {
            1
        } else {
            0
        },
        if e.context_match == ContextMatch::Exact {
            1
        } else {
            0
        },
        e.context_prefix.len() as int,
        e.security_level.rank(),
    )
}

/// Lexicographic `<` on preferences.
pub open spec fn preference_lt(a: (int, int, int, int), b: (int, int, int, int)) -> bool {
    a.0 < b.0 || (a.0 == b.0 && (a.1 < b.1 || (a.1 == b.1 && (a.2 < b.2 || (a.2 == b.2 && a.3
        < b.3)))))
}

/// The entry at position `k` is the one that serves the request: it is
/// eligible, no eligible entry is preferred to it, and of the eligible
/// entries with the same preference it is the last.
pub open spec fn is_chosen(
    entries: Seq<AccessEntryView>,
    k: int,
    group: Seq<u8>,
    context: Seq<u8>,
    model: SecurityModel,
    level: SecurityLevel,
) -> bool {
    &&& 0 <= k < entries.len()
    &&& eligible(entries[k], group, context, model, level)
    &&& forall|j: int|
        0 <= j < entries.len() && eligible(#[trigger] entries[j], group, context, model, level)
            ==> (preference_lt(preference(entries[j], model), preference(entries[k], model)) || (
        preference(entries[j], model) == preference(entries[k], model) && j <= k))
}

/// Builder for access entries.
pub struct AccessEntryBuilder {
    group_name: Vec<u8>,
    context_prefix: Vec<u8>,
    security_model: SecurityModel,
    security_level: SecurityLevel,
    context_match: ContextMatch,
    read_view: Vec<u8>,
    write_view: Vec<u8>,
    notify_view: Vec<u8>,
}

impl vstd::view::View for AccessEntryBuilder {
    type V = AccessEntryView;

    closed spec fn view(&self) -> AccessEntryView {
        AccessEntryView {
            group_name: self.group_name@,
            context_prefix: self.context_prefix@,
            security_model: self.security_model,
            security_level: self.security_level,
            context_match: self.context_match,
            read_view: self.read_view@,
            write_view: self.write_view@,
            notify_view: self.notify_view@,
        }
    }
}

impl AccessEntryBuilder {
    /// Create a new access entry builder for a group: empty context, any
    /// model, the lowest level, exact context match, and no views.
    pub fn new(group_name: &[u8]) -> (r: AccessEntryBuilder)
        ensures
            r@ == (AccessEntryView {
                group_name: group_name@,
                context_prefix: Seq::empty(),
                security_model: SecurityModel::Any,
                security_level: SecurityLevel::NoAuthNoPriv,
                context_match: ContextMatch::Exact,
                read_view: Seq::empty(),
                write_view: Seq::empty(),
                notify_view: Seq::empty(),
            }),
    {
        AccessEntryBuilder {
            group_name: vstd::slice::slice_to_vec(group_name),
            context_prefix: Vec::new(),
            security_model: SecurityModel::Any,
            security_level: SecurityLevel::NoAuthNoPriv,
            context_match: ContextMatch::Exact,
            read_view: Vec::new(),
            write_view: Vec::new(),
            notify_view: Vec::new(),
        }
    }

    /// Set the context prefix for matching.
    pub fn context_prefix(self, prefix: &[u8]) -> (r: AccessEntryBuilder)
        ensures
            r@ == (AccessEntryView { context_prefix: prefix@, ..self@ }),
    {
        let mut b = self;
        b.context_prefix = vstd::slice::slice_to_vec(prefix);
        b
    }

    /// Set the security model this entry applies to.
    pub fn security_model(self, model: SecurityModel) -> (r: AccessEntryBuilder)
        ensures
            r@ == (AccessEntryView { security_model: model, ..self@ }),
    {
        let mut b = self;
        b.security_model = model;
        b
    }

    /// Set the minimum security level required.
    pub fn security_level(self, level: SecurityLevel) -> (r: AccessEntryBuilder)
        ensures
            r@ == (AccessEntryView { security_level: level, ..self@ }),
    {
        let mut b = self;
        b.security_level = level;
        b
    }

    /// Set context matching to prefix mode.
    pub fn context_match_prefix(self) -> (r: AccessEntryBuilder)
        ensures
            r@ == (AccessEntryView { context_match: ContextMatch::Prefix, ..self@ }),
    {
        let mut b = self;
        b.context_match = ContextMatch::Prefix;
        b
    }

    /// Set the read view name.
    pub fn read_view(self, view: &[u8]) -> (r: AccessEntryBuilder)
        ensures
            r@ == (AccessEntryView { read_view: view@, ..self@ }),
    {
        let mut b = self;
        b.read_view = vstd::slice::slice_to_vec(view);
        b
    }

    /// Set the write view name.
    pub fn write_view(self, view: &[u8]) -> (r: AccessEntryBuilder)
        ensures
            r@ == (AccessEntryView { write_view: view@, ..self@ }),
    {
        let mut b = self;
        b.write_view = vstd::slice::slice_to_vec(view);
        b
    }

    /// Set the notify view name.
    pub fn notify_view(self, view: &[u8]) -> (r: AccessEntryBuilder)
        ensures
            r@ == (AccessEntryView { notify_view: view@, ..self@ }),
    {
        let mut b = self;
        b.notify_view = vstd::slice::slice_to_vec(view);
        b
    }

    /// Build the access entry.
    pub fn build(self) -> (r: VacmAccessEntry)
        ensures
            r@ == self@,
    {
        VacmAccessEntry {
            group_name: self.group_name,
            context_prefix: self.context_prefix,
            security_model: self.security_model,
            security_level: self.security_level,
            context_match: self.context_match,
            read_view: self.read_view,
            write_view: self.write_view,
            notify_view: self.notify_view,
        }
    }
}

// ---------------------------------------------------------------------------
// The configuration
// ---------------------------------------------------------------------------

/// One row of the security-to-group table.
struct GroupEntry {
    model: SecurityModel,
    name: Vec<u8>,
    group: Vec<u8>,
}

/// One row of the view table.
struct NamedView {
    name: Vec<u8>,
    view: View,
}

/// VACM configuration.
pub struct VacmConfig {
    /// (securityModel, securityName) to groupName; the first row with a key counts.
    security_to_group: Vec<GroupEntry>,
    /// Access table entries.
    access_entries: Vec<VacmAccessEntry>,
    /// viewName to View; the first row with a name counts.
    views: Vec<NamedView>,
}

/// The position of the first row with the given key from position `i` on, or
/// the number of rows when there is none.
spec fn group_position(rows: Seq<GroupEntry>, model: SecurityModel, name: Seq<u8>, i: int) -> int
    decreases rows.len() - i,
{
    if i < 0 || i >= rows.len() {
        rows.len() as int
    } else if rows[i].model == model && rows[i].name@ == name {
        i
    } else {
        group_position(rows, model, name, i + 1)
    }
}

/// The position of the first row with the given name from position `i` on,
/// or the number of rows when there is none.
spec fn view_position(rows: Seq<NamedView>, name: Seq<u8>, i: int) -> int
    decreases rows.len() - i,
{
    if i < 0 || i >= rows.len() {
        rows.len() as int
    } else if rows[i].name@ == name {
        i
    } else {
        view_position(rows, name, i + 1)
    }
}

proof fn lemma_group_position(rows: Seq<GroupEntry>, model: SecurityModel, name: Seq<u8>, i: int)
    requires
        0 <= i <= rows.len(),
    ensures
        i <= group_position(rows, model, name, i) <= rows.len(),
        group_position(rows, model, name, i) < rows.len() ==> rows[group_position(
            rows,
            model,
            name,
            i,
        )].model == model && rows[group_position(rows, model, name, i)].name@ == name,
        forall|j: int|
            i <= j < group_position(rows, model, name, i) ==> !(rows[j].model == model
                && rows[j].name@ == name),
    decreases rows.len() - i,
{
    if i < rows.len() && !(rows[i].model == model && rows[i].name@ == name) {
        lemma_group_position(rows, model, name, i + 1);
    }
}

/// The first position from `i` on is `p`, if `p` has the key and no row
/// between `i` and `p` has it.
proof fn lemma_group_position_is(
    rows: Seq<GroupEntry>,
    model: SecurityModel,
    name: Seq<u8>,
    i: int,
    p: int,
)
    requires
        0 <= i <= p <= rows.len(),
        p < rows.len() ==> rows[p].model == model && rows[p].name@ == name,
        forall|j: int| i <= j < p ==> !(rows[j].model == model && rows[j].name@ == name),
    ensures
        group_position(rows, model, name, i) == p,
    decreases p - i,
{
    if i < p {
        lemma_group_position_is(rows, model, name, i + 1, p);
    }
}

proof fn lemma_view_position(rows: Seq<NamedView>, name: Seq<u8>, i: int)
    requires
        0 <= i <= rows.len(),
    ensures
        i <= view_position(rows, name, i) <= rows.len(),
        view_position(rows, name, i) < rows.len() ==> rows[view_position(rows, name, i)].name@
            == name,
        forall|j: int| i <= j < view_position(rows, name, i) ==> rows[j].name@ != name,
    decreases rows.len() - i,
{
    if i < rows.len() && rows[i].name@ != name {
        lemma_view_position(rows, name, i + 1);
    }
}

proof fn lemma_view_position_is(rows: Seq<NamedView>, name: Seq<u8>, i: int, p: int)
    requires
        0 <= i <= p <= rows.len(),
        p < rows.len() ==> rows[p].name@ == name,
        forall|j: int| i <= j < p ==> rows[j].name@ != name,
    ensures
        view_position(rows, name, i) == p,
    decreases p - i,
{
    if i < p {
        lemma_view_position_is(rows, name, i + 1, p);
    }
}

impl VacmConfig {
    /// The group that the table maps the security name to under exactly the
    /// given model, if it maps it.
    pub closed spec fn group_of(self, model: SecurityModel, name: Seq<u8>) -> Option<Seq<u8>> {
        let p = group_position(self.security_to_group@, model, name, 0);
        if p < self.security_to_group@.len() {
            Some(self.security_to_group@[p].group@)
        } else {
            None
        }
    }

    /// The view with the given name, if the configuration has one.
    pub closed spec fn view_of(self, name: Seq<u8>) -> Option<Seq<SubtreeView>> {
        let p = view_position(self.views@, name, 0);
        if p < self.views@.len() {
            Some(self.views@[p].view@)
        } else {
            None
        }
    }

    /// The access entries, in the order in which they were added.
    pub closed spec fn entries(self) -> Seq<AccessEntryView> {
        Seq::new(self.access_entries@.len(), |i: int| self.access_entries@[i]@)
    }

    /// The group of a request: the one under its model, else the one under
    /// the model `Any`.
    pub open spec fn resolved_group(self, model: SecurityModel, name: Seq<u8>) -> Option<Seq<u8>> {
        match self.group_of(model, name) {
            Some(g) => Some(g),
            None => self.group_of(SecurityModel::Any, name),
        }
    }

    /// Whether access to an OID is permitted under a view name: the name is
    /// given and not empty, the view exists, and the view contains the OID.
    pub open spec fn permits(self, view_name: Option<Seq<u8>>, oid: Seq<u32>) -> bool {
        match view_name {
            None => false,
            Some(name) => name.len() != 0 && match self.view_of(name) {
                None => false,
                Some(subtrees) => view_contains(subtrees, oid),
            },
        }
    }

    /// Create a new empty VACM configuration.
    pub fn new() -> (r: VacmConfig)
        ensures
            r.entries() == Seq::<AccessEntryView>::empty(),
            forall|model: SecurityModel, name: Seq<u8>| r.group_of(model, name) is None,
            forall|name: Seq<u8>| r.view_of(name) is None,
    {
        let r = VacmConfig {
            security_to_group: Vec::new(),
            access_entries: Vec::new(),
            views: Vec::new(),
        };
        proof {
            assert(r.entries() =~= Seq::<AccessEntryView>::empty());
        }
        r
    }

    /// Map a security name to a group for a specific security model. An
    /// earlier mapping of the same name under the same model is replaced.
    pub fn add_group(&mut self, security_name: &[u8], security_model: SecurityModel, group_name: &[u8])
        ensures
            final(self).group_of(security_model, security_name@) == Some(group_name@),
            forall|model: SecurityModel, name: Seq<u8>|
                !(model == security_model && name == security_name@) ==> final(self).group_of(
                    model,
                    name,
                ) == old(self).group_of(model, name),
            final(self).entries() == old(self).entries(),
            forall|name: Seq<u8>| final(self).view_of(name) == old(self).view_of(name),
    {
        let n = self.security_to_group.len();
        let mut k: usize = 0;
        let mut found = false;
        while k < n && !found
            invariant
                k <= n,
                n == self.security_to_group@.len(),
                *self == *old(self),
                forall|j: int|
                    0 <= j < k ==> !(self.security_to_group@[j].model == security_model
                        && self.security_to_group@[j].name@ == security_name@),
                found ==> k < n && self.security_to_group@[k as int].model == security_model
                    && self.security_to_group@[k as int].name@ == security_name@,
            decreases n - k + (if found { 0int } else { 1int }),
        {
            if self.security_to_group[k].model.same(security_model) && same_octets(
                self.security_to_group[k].name.as_slice(),
                security_name,
            ) {
                found = true;
            } else {
                k += 1;
            }
        }
        let entry = GroupEntry {
            model: security_model,
            name: vstd::slice::slice_to_vec(security_name),
            group: vstd::slice::slice_to_vec(group_name),
        };
        let ghost before = self.security_to_group@;
        if k < n {
            self.security_to_group.set(k, entry);
        } else {
            self.security_to_group.push(entry);
        }
        proof {
            let after = self.security_to_group@;
            lemma_group_position_is(after, security_model, security_name@, 0, k as int);
            assert forall|model: SecurityModel, name: Seq<u8>|
                !(model == security_model && name == security_name@) implies final(self).group_of(
                model,
                name,
            ) == old(self).group_of(model, name) by {
                lemma_group_position(before, model, name, 0);
                let p = group_position(before, model, name, 0);
                if p < before.len() {
                    assert(p != k);
                    lemma_group_position_is(after, model, name, 0, p);
                } else {
                    lemma_group_position_is(after, model, name, 0, after.len() as int);
                }
            }
            assert(final(self).entries() =~= old(self).entries());
        }
    }

    /// Add an access entry, behind the entries that are there.
    pub fn add_access(&mut self, entry: VacmAccessEntry)
        ensures
            final(self).entries() == old(self).entries().push(entry@),
            forall|model: SecurityModel, name: Seq<u8>|
                final(self).group_of(model, name) == old(self).group_of(model, name),
            forall|name: Seq<u8>| final(self).view_of(name) == old(self).view_of(name),
    {
        self.access_entries.push(entry);
        proof {
            assert(final(self).entries() =~= old(self).entries().push(entry@));
        }
    }

    /// Add a view. An earlier view of the same name is replaced.
    pub fn add_view(&mut self, name: &[u8], view: View)
        ensures
            final(self).view_of(name@) == Some(view@),
            forall|other: Seq<u8>|
                other != name@ ==> final(self).view_of(other) == old(self).view_of(other),
            final(self).entries() == old(self).entries(),
            forall|model: SecurityModel, n: Seq<u8>|
                final(self).group_of(model, n) == old(self).group_of(model, n),
    {
        let n = self.views.len();
        let mut k: usize = 0;
        let mut found = false;
        while k < n && !found
            invariant
                k <= n,
                n == self.views@.len(),
                *self == *old(self),
                forall|j: int| 0 <= j < k ==> self.views@[j].name@ != name@,
                found ==> k < n && self.views@[k as int].name@ == name@,
            decreases n - k + (if found { 0int } else { 1int }),
        {
            if same_octets(self.views[k].name.as_slice(), name) {
                found = true;
            } else {
                k += 1;
            }
        }
        let row = NamedView { name: vstd::slice::slice_to_vec(name), view };
        let ghost before = self.views@;
        if k < n {
            self.views.set(k, row);
        } else {
            self.views.push(row);
        }
        proof {
            let after = self.views@;
            lemma_view_position_is(after, name@, 0, k as int);
            assert forall|other: Seq<u8>| other != name@ implies final(self).view_of(other) == old(self).view_of(other) by {
                lemma_view_position(before, other, 0);
                let p = view_position(before, other, 0);
                if p < before.len() {
                    assert(p != k);
                    lemma_view_position_is(after, other, 0, p);
                } else {
                    lemma_view_position_is(after, other, 0, after.len() as int);
                }
            }
            assert(final(self).entries() =~= old(self).entries());
        }
    }

    /// The group that exactly this model and name are mapped to.
    fn find_group(&self, model: SecurityModel, name: &[u8]) -> (r: Option<&Vec<u8>>)
        ensures
            match r {
                Some(g) => self.group_of(model, name@) == Some(g@),
                None => self.group_of(model, name@) is None,
            },
    {
        let n = self.security_to_group.len();
        let mut k: usize = 0;
        while k < n
            invariant
                k <= n,
                n == self.security_to_group@.len(),
                forall|j: int|
                    0 <= j < k ==> !(self.security_to_group@[j].model == model
                        && self.security_to_group@[j].name@ == name@),
            decreases n - k,
        {
            if self.security_to_group[k].model.same(model) && same_octets(
                self.security_to_group[k].name.as_slice(),
                name,
            ) {
                proof {
                    lemma_group_position_is(self.security_to_group@, model, name@, 0, k as int);
                }
                return Some(&self.security_to_group[k].group);
            }
            k += 1;
        }
        proof {
            lemma_group_position_is(self.security_to_group@, model, name@, 0, n as int);
        }
        None
    }

    /// Resolve group name for a request: the mapping under the model of the
    /// request, else the mapping under `Any`.
    pub fn get_group(&self, model: SecurityModel, name: &[u8]) -> (r: Option<&Vec<u8>>)
        ensures
            match r {
                Some(g) => self.resolved_group(model, name@) == Some(g@),
                None => self.resolved_group(model, name@) is None,
            },
    {
        match self.find_group(model, name) {
            Some(g) => Some(g),
            None => self.find_group(SecurityModel::Any, name),
        }
    }

    /// Get access entry for context: of the entries that can serve the
    /// request, the most preferred one, and of equally preferred ones the one
    /// that was added last. `None` exactly when no entry can serve it.
    pub fn get_access(
        &self,
        group: &[u8],
        context: &[u8],
        model: SecurityModel,
        level: SecurityLevel,
    ) -> (r: Option<&VacmAccessEntry>)
        ensures
            match r {
                Some(e) => exists|k: int|
                    is_chosen(self.entries(), k, group@, context@, model, level) && e@
                        == #[trigger] self.entries()[k],
                None => forall|j: int|
                    0 <= j < self.entries().len() ==> !eligible(
                        #[trigger] self.entries()[j],
                        group@,
                        context@,
                        model,
                        level,
                    ),
            },
    {
        let n = self.access_entries.len();
        let ghost entries = self.entries();
        let mut best: Option<usize> = None;
        let mut best_score: (u8, u8, usize, u8) = (0, 0, 0, 0);
        let mut k: usize = 0;
        while k < n
            invariant
                k <= n,
                n == self.access_entries@.len(),
                entries == self.entries(),
                entries.len() == n,
                match best {
                    None => forall|j: int|
                        0 <= j < k ==> !eligible(#[trigger] entries[j], group@, context@, model, level),
                    Some(b) => b < k && eligible(entries[b as int], group@, context@, model, level)
                        && preference(entries[b as int], model) == (
                        best_score.0 as int,
                        best_score.1 as int,
                        best_score.2 as int,
                        best_score.3 as int,
                    ) && forall|j: int|
                        0 <= j < k && eligible(#[trigger] entries[j], group@, context@, model, level)
                            ==> (preference_lt(
                            preference(entries[j], model),
                            preference(entries[b as int], model),
                        ) || (preference(entries[j], model) == preference(entries[b as int], model)
                            && j <= b)),
                },
            decreases n - k,
        {
            let e = &self.access_entries[k];
            proof {
                assert(entries[k as int] == e@);
            }
            let context_ok = match e.context_match {
                ContextMatch::Exact => same_octets(e.context_prefix.as_slice(), context),
                ContextMatch::Prefix => has_prefix(context, e.context_prefix.as_slice()),
            };
            if same_octets(e.group_name.as_slice(), group) && context_ok && (e.security_model.same(
                model,
            ) || e.security_model.same(SecurityModel::Any)) && level.satisfies(e.security_level) {
                let model_score: u8 = if e.security_model.same(model) {
                    1
                } else {
                    0
                };
                let match_score: u8 = match e.context_match {
                    ContextMatch::Exact => 1,
                    ContextMatch::Prefix => 0,
                };
                let score = (model_score, match_score, e.context_prefix.len(), e.security_level.level());
                let better = match best {
                    None => true,
                    Some(_) => !score_less(score, best_score),
                };
                if better {
                    best = Some(k);
                    best_score = score;
                }
            }
            k += 1;
        }
        match best {
            None => None,
            Some(b) => {
                proof {
                    assert(is_chosen(entries, b as int, group@, context@, model, level));
                    assert(self.access_entries@[b as int]@ == entries[b as int]);
                }
                Some(&self.access_entries[b])
            },
        }
    }

    /// Check if OID access is permitted.
    pub fn check_access(&self, view_name: Option<&[u8]>, oid: &Oid) -> (r: bool)
        ensures
            r == self.permits(
                match view_name {
                    Some(name) => Some(name@),
                    None => None,
                },
                oid@,
            ),
    {
        let name = match view_name {
            None => {
                return false;
            },
            Some(name) => name,
        };
        if name.len() == 0 {
            return false;
        }
        let n = self.views.len();
        let mut k: usize = 0;
        while k < n
            invariant
                k <= n,
                n == self.views@.len(),
                view_name == Some(name),
                name@.len() != 0,
                forall|j: int| 0 <= j < k ==> self.views@[j].name@ != name@,
            decreases n - k,
        {
            if same_octets(self.views[k].name.as_slice(), name) {
                proof {
                    lemma_view_position_is(self.views@, name@, 0, k as int);
                }
                return self.views[k].view.contains(oid);
            }
            k += 1;
        }
        proof {
            lemma_view_position_is(self.views@, name@, 0, n as int);
        }
        false
    }
}

impl Default for VacmConfig {
    fn default() -> (r: VacmConfig)
        ensures
            r.entries() == Seq::<AccessEntryView>::empty(),
            forall|model: SecurityModel, name: Seq<u8>| r.group_of(model, name) is None,
            forall|name: Seq<u8>| r.view_of(name) is None,
    {
        VacmConfig::new()
    }
}

/// Lexicographic `<` on scores.
fn score_less(a: (u8, u8, usize, u8), b: (u8, u8, usize, u8)) -> (r: bool)
    ensures
        r == preference_lt(
            (a.0 as int, a.1 as int, a.2 as int, a.3 as int),
            (b.0 as int, b.1 as int, b.2 as int, b.3 as int),
        ),
{
    a.0 < b.0 || (a.0 == b.0 && (a.1 < b.1 || (a.1 == b.1 && (a.2 < b.2 || (a.2 == b.2 && a.3
        < b.3)))))
}

/// Granting an additional included subtree in a view never removes access:
/// whatever was permitted under any view name is still permitted when a view
/// is replaced by itself with one more included subtree.
pub proof fn lemma_check_access_grows_with_include(
    before: VacmConfig,
    after: VacmConfig,
    changed: Seq<u8>,
    extra: SubtreeView,
    view_name: Option<Seq<u8>>,
    oid: Seq<u32>,
)
    requires
        extra.included,
        before.view_of(changed) is Some,
        after.view_of(changed) == Some(before.view_of(changed)->0.push(extra)),
        forall|other: Seq<u8>| other != changed ==> after.view_of(other) == before.view_of(other),
        before.permits(view_name, oid),
    ensures
        after.permits(view_name, oid),
{
    let name = view_name->0;
    if name == changed {
        lemma_include_keeps_access(before.view_of(changed)->0, extra, oid);
    }
}

/// Adding an excluded subtree to a view never adds access: whatever is
/// permitted afterwards was permitted before.
pub proof fn lemma_check_access_shrinks_with_exclude(
    before: VacmConfig,
    after: VacmConfig,
    changed: Seq<u8>,
    extra: SubtreeView,
    view_name: Option<Seq<u8>>,
    oid: Seq<u32>,
)
    requires
        !extra.included,
        before.view_of(changed) is Some,
        after.view_of(changed) == Some(before.view_of(changed)->0.push(extra)),
        forall|other: Seq<u8>| other != changed ==> after.view_of(other) == before.view_of(other),
        after.permits(view_name, oid),
    ensures
        before.permits(view_name, oid),
{
    let name = view_name->0;
    if name == changed {
        lemma_exclude_adds_no_access(before.view_of(changed)->0, extra, oid);
    }
}

/// Builder for VACM configuration.
pub struct VacmBuilder {
    config: VacmConfig,
}

impl VacmBuilder {
    /// The configuration that the builder has put together so far.
    pub closed spec fn config(self) -> VacmConfig {
        self.config
    }

    /// Create a new VACM builder.
    pub fn new() -> (r: VacmBuilder)
        ensures
            r.config().entries() == Seq::<AccessEntryView>::empty(),
            forall|model: SecurityModel, name: Seq<u8>| r.config().group_of(model, name) is None,
            forall|name: Seq<u8>| r.config().view_of(name) is None,
    {
        VacmBuilder { config: VacmConfig::new() }
    }

    /// Map a security name to a group.
    pub fn group(self, security_name: &[u8], security_model: SecurityModel, group_name: &[u8]) -> (r:
        VacmBuilder)
        ensures
            r.config().group_of(security_model, security_name@) == Some(group_name@),
            forall|model: SecurityModel, name: Seq<u8>|
                !(model == security_model && name == security_name@) ==> r.config().group_of(
                    model,
                    name,
                ) == self.config().group_of(model, name),
            r.config().entries() == self.config().entries(),
            forall|name: Seq<u8>| r.config().view_of(name) == self.config().view_of(name),
    {
        let mut b = self;
        b.config.add_group(security_name, security_model, group_name);
        b
    }

    /// Add an access entry using a builder function: the function gets a
    /// fresh builder for the group, and the entry that it makes is added.
    pub fn access<F>(self, group_name: &[u8], configure: F) -> (r: VacmBuilder) where
        F: FnOnce(AccessEntryBuilder) -> AccessEntryBuilder,

        requires
            forall|b: AccessEntryBuilder| call_requires(configure, (b,)),
        ensures
            exists|start: AccessEntryBuilder, made: AccessEntryBuilder|
                start@.group_name == group_name@ && call_ensures(configure, (start,), made)
                    && r.config().entries() == self.config().entries().push(made@),
            forall|model: SecurityModel, name: Seq<u8>|
                r.config().group_of(model, name) == self.config().group_of(model, name),
            forall|name: Seq<u8>| r.config().view_of(name) == self.config().view_of(name),
    {
        let start = AccessEntryBuilder::new(group_name);
        let ghost start_copy = start;
        let made = configure(start);
        let ghost made_copy = made;
        let entry = made.build();
        let mut b = self;
        b.config.add_access(entry);
        proof {
            assert(start_copy@.group_name == group_name@ && call_ensures(
                configure,
                (start_copy,),
                made_copy,
            ) && b.config().entries() == self.config().entries().push(made_copy@));
        }
        b
    }

    /// Add a view using a builder function: the function gets the empty
    /// view, and the view that it makes is added under the name.
    pub fn view<F>(self, name: &[u8], configure: F) -> (r: VacmBuilder) where
        F: FnOnce(View) -> View,

        requires
            forall|v: View| call_requires(configure, (v,)),
        ensures
            exists|start: View, made: View|
                start@ == Seq::<SubtreeView>::empty() && call_ensures(configure, (start,), made)
                    && r.config().view_of(name@) == Some(made@),
            forall|other: Seq<u8>|
                other != name@ ==> r.config().view_of(other) == self.config().view_of(other),
            r.config().entries() == self.config().entries(),
            forall|model: SecurityModel, n: Seq<u8>|
                r.config().group_of(model, n) == self.config().group_of(model, n),
    {
        let start = View::new();
        let ghost start_copy = start;
        let made = configure(start);
        let ghost made_copy = made;
        let mut b = self;
        b.config.add_view(name, made);
        proof {
            assert(start_copy@ == Seq::<SubtreeView>::empty() && call_ensures(
                configure,
                (start_copy,),
                made_copy,
            ) && b.config().view_of(name@) == Some(made_copy@));
        }
        b
    }

    /// Build the VACM configuration.
    pub fn build(self) -> (r: VacmConfig)
        ensures
            r == self.config(),
    {
        self.config
    }
}

impl Default for VacmBuilder {
    fn default() -> (r: VacmBuilder)
        ensures
            r.config().entries() == Seq::<AccessEntryView>::empty(),
            forall|model: SecurityModel, name: Seq<u8>| r.config().group_of(model, name) is None,
            forall|name: Seq<u8>| r.config().view_of(name) is None,
    {
        VacmBuilder::new()
    }
}

} // verus!
