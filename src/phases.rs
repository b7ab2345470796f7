use vstd::prelude::*;
use crate::classify::{FieldInfo, FieldsClassify, is_optional, indices_where, spec_required, spec_optional, spec_exclude};

verus! {

/// A construction phase: `Phase(k)` waits for the `k`-th required field
/// (counted from 1); `CanBuild` is the terminal phase.
#[derive(PartialEq, Eq, Structural, Clone, Copy, Debug)]
pub enum PhaseMarker {
    Phase(usize),
    CanBuild,
}

/// The phase reached once `k` of `r` required fields have been supplied.
pub open spec fn phase_after(k: nat, r: nat) -> PhaseMarker {
    if k < r {
        PhaseMarker::Phase((k + 1) as usize)
    } else {
        PhaseMarker::CanBuild
    }
}

/// The phase markers for `r` required fields, in order.
pub open spec fn spec_phases(r: nat) -> Seq<PhaseMarker> {
    Seq::new(r + 1, |k: int| phase_after(k as nat, r))
}

/// One slot of the builder container.
#[derive(PartialEq, Eq, Structural, Clone, Copy, Debug)]
pub struct Slot {
    /// Index of the field in declaration order.
    pub field: usize,
    /// Whether the field is required: its slot wraps the declared type in an
    /// option and finalizing unwraps it.
    pub required: bool,
}

/// The operation that supplies one required field.
pub struct Transition {
    pub field: usize,
    pub from: PhaseMarker,
    pub to: PhaseMarker,
    /// Fields whose slots are copied over unchanged.
    pub carried: Vec<usize>,
}

/// The pair of setters of one optional field.
#[derive(PartialEq, Eq, Structural, Clone, Copy, Debug)]
pub struct OptionalSetter {
    pub field: usize,
    /// The only phase on which the setters exist.
    pub at: PhaseMarker,
}

proof fn lemma_indices_bound(fs: Seq<FieldInfo>, p: spec_fn(FieldInfo) -> bool)
    requires
        fs.len() <= usize::MAX,
    ensures
        indices_where(fs, p).len() <= fs.len(),
        forall|k: int| 0 <= k < indices_where(fs, p).len() ==> (#[trigger] indices_where(fs, p)[k] as int) < fs.len(),
        forall|k: int, l: int| 0 <= k < l < indices_where(fs, p).len() ==>
            (#[trigger] indices_where(fs, p)[k]) < (#[trigger] indices_where(fs, p)[l]),
    decreases fs.len(),
{
    if fs.len() > 0 {
        lemma_indices_bound(fs.drop_last(), p);
        let rest = indices_where(fs.drop_last(), p);
        assert forall|k: int| 0 <= k < rest.len() implies (#[trigger] rest[k] as int) < fs.len() - 1 by {}
    }
}

proof fn lemma_indices_complete(fs: Seq<FieldInfo>, p: spec_fn(FieldInfo) -> bool, j: int)
    requires
        fs.len() <= usize::MAX,
        0 <= j < fs.len(),
        p(fs[j]),
    ensures
        indices_where(fs, p).contains(j as usize),
    decreases fs.len(),
{
    if j < fs.len() - 1 {
        assert(fs.drop_last()[j] == fs[j]);
        lemma_indices_complete(fs.drop_last(), p, j);
        let rest = indices_where(fs.drop_last(), p);
        let k = choose|k: int| 0 <= k < rest.len() && rest[k] == j as usize;
        if p(fs.last()) {
            assert(indices_where(fs, p)[k] == j as usize);
        }
    } else {
        assert(indices_where(fs, p).last() == j as usize);
    }
}

/// A field whose name differs from `s`, ASCII case aside, is kept by
/// `exclude`.
pub proof fn lemma_exclude_keeps(fs: Seq<FieldInfo>, s: Seq<char>, j: int)
    requires
        fs.len() <= usize::MAX,
        0 <= j < fs.len(),
        !crate::classify::eq_ignore_case(fs[j].name@, s),
    ensures
        spec_exclude(fs, s).contains(j as usize),
{
    lemma_indices_complete(fs, |f: FieldInfo| !crate::classify::eq_ignore_case(f.name@, s), j);
}

/// Every required index names a field of the list, and there are no more
/// of them than fields.
pub proof fn lemma_required_bound(fs: Seq<FieldInfo>)
    requires
        fs.len() <= usize::MAX,
    ensures
        spec_required(fs).len() <= fs.len(),
        forall|k: int| 0 <= k < spec_required(fs).len() ==> (#[trigger] spec_required(fs)[k] as int) < fs.len(),
        forall|k: int, l: int| 0 <= k < l < spec_required(fs).len() ==>
            (#[trigger] spec_required(fs)[k]) < (#[trigger] spec_required(fs)[l]),
{
    lemma_indices_bound(fs, |f: FieldInfo| !is_optional(f));
}

pub proof fn lemma_optional_bound(fs: Seq<FieldInfo>)
    requires
        fs.len() <= usize::MAX,
    ensures
        spec_optional(fs).len() <= fs.len(),
        forall|k: int| 0 <= k < spec_optional(fs).len() ==> (#[trigger] spec_optional(fs)[k] as int) < fs.len(),
{
    lemma_indices_bound(fs, |f: FieldInfo| is_optional(f));
}

/// The phase markers: one per required field, then the terminal one.
pub fn build_phases(fields: &FieldsClassify) -> (r: Vec<PhaseMarker>)
    ensures
        r@ == spec_phases(spec_required(fields.fields@).len()),
{
    let total: usize = fields.fields.len();
    let required = fields.required();
    proof { lemma_required_bound(fields.fields@); }
    let n = required.len();
    let mut acc: Vec<PhaseMarker> = Vec::new();
    let mut i: usize = 0;
    while i < n
        invariant
            i <= n,
            n == spec_required(fields.fields@).len(),
            acc@ == spec_phases(n as nat).take(i as int),
        decreases n - i,
    {
        acc.push(PhaseMarker::Phase(i + 1));
        i = i + 1;
        assert(acc@ =~= spec_phases(n as nat).take(i as int));
    }
    acc.push(PhaseMarker::CanBuild);
    assert(acc@ =~= spec_phases(n as nat));
    acc
}

/// The marker on which a fresh builder starts.
pub fn entry_phase(fields: &FieldsClassify) -> (r: PhaseMarker)
    ensures
        r == phase_after(0, spec_required(fields.fields@).len()),
{
    let required = fields.required();
    if required.len() == 0 {
        PhaseMarker::CanBuild
    } else {
        PhaseMarker::Phase(1)
    }
}

/// The transitions, one per required field in declaration order: the `i`-th
/// leaves the `i`-th phase for the next one, fills its field's slot and
/// carries over every field of another name.
pub fn build_required_impls(fields: &FieldsClassify) -> (r: Vec<Transition>)
    ensures
        r@.len() == spec_required(fields.fields@).len(),
        forall|i: int| 0 <= i < r@.len() ==> {
            let req = spec_required(fields.fields@);
            let n = req.len();
            &&& #[trigger] r@[i].field == req[i]
            &&& r@[i].from == spec_phases(n)[i]
            &&& r@[i].to == spec_phases(n)[i + 1]
            &&& r@[i].carried@ == spec_exclude(fields.fields@, fields.fields@[req[i] as int].name@)
        },
{
    let total: usize = fields.fields.len();
    let required = fields.required();
    proof { lemma_required_bound(fields.fields@); }
    let n = required.len();
    let mut acc: Vec<Transition> = Vec::new();
    let mut i: usize = 0;
    while i < n
        invariant
            i <= n,
            required@ == spec_required(fields.fields@),
            n == required@.len(),
            forall|k: int| 0 <= k < n ==> (#[trigger] required@[k] as int) < fields.fields@.len(),
            acc@.len() == i,
            forall|k: int| 0 <= k < i ==> {
                &&& #[trigger] acc@[k].field == required@[k]
                &&& acc@[k].from == spec_phases(n as nat)[k]
                &&& acc@[k].to == spec_phases(n as nat)[k + 1]
                &&& acc@[k].carried@ == spec_exclude(fields.fields@, fields.fields@[required@[k] as int].name@)
            },
        decreases n - i,
    {
        let f = required[i];
        let to = if i + 1 < n { PhaseMarker::Phase(i + 2) } else { PhaseMarker::CanBuild };
        let carried = fields.exclude(fields.fields[f].name.clone());
        let t = Transition { field: f, from: PhaseMarker::Phase(i + 1), to, carried };
        assert(t.from == spec_phases(n as nat)[i as int]);
        assert(t.to == spec_phases(n as nat)[i + 1]);
        let ghost old_acc = acc@;
        acc.push(t);
        assert forall|k: int| 0 <= k < i + 1 implies {
            &&& #[trigger] acc@[k].field == required@[k]
            &&& acc@[k].from == spec_phases(n as nat)[k]
            &&& acc@[k].to == spec_phases(n as nat)[k + 1]
            &&& acc@[k].carried@ == spec_exclude(fields.fields@, fields.fields@[required@[k] as int].name@)
        } by {
            if k < i {
                assert(acc@[k] == old_acc[k]);
            }
        }
        i = i + 1;
    }
    acc
}

/// The optional-field setters, one pair per optional field in declaration
/// order, each offered on the terminal phase only.
pub fn build_optional_impls(fields: &FieldsClassify) -> (r: Vec<OptionalSetter>)
    ensures
        r@.len() == spec_optional(fields.fields@).len(),
        forall|j: int| 0 <= j < r@.len() ==> (#[trigger] r@[j]) == (OptionalSetter {
            field: spec_optional(fields.fields@)[j],
            at: PhaseMarker::CanBuild,
        }),
{
    let optional = fields.optional();
    let mut acc: Vec<OptionalSetter> = Vec::new();
    let mut j: usize = 0;
    while j < optional.len()
        invariant
            j <= optional@.len(),
            optional@ == spec_optional(fields.fields@),
            acc@.len() == j,
            forall|k: int| 0 <= k < j ==> (#[trigger] acc@[k]) == (OptionalSetter {
                field: optional@[k],
                at: PhaseMarker::CanBuild,
            }),
        decreases optional@.len() - j,
    {
        acc.push(OptionalSetter { field: optional[j], at: PhaseMarker::CanBuild });
        j = j + 1;
    }
    acc
}

/// The builder container's slots: one per declared field, in declaration
/// order.
pub fn build_builder_struct(fields: &FieldsClassify) -> (r: Vec<Slot>)
    ensures
        r@.len() == fields.fields@.len(),
        forall|k: int| 0 <= k < r@.len() ==> (#[trigger] r@[k]) == (Slot {
            field: k as usize,
            required: !is_optional(fields.fields@[k]),
        }),
{
    let mut acc: Vec<Slot> = Vec::new();
    let mut k: usize = 0;
    while k < fields.fields.len()
        invariant
            k <= fields.fields@.len(),
            acc@.len() == k,
            forall|m: int| 0 <= m < k ==> (#[trigger] acc@[m]) == (Slot {
                field: m as usize,
                required: !is_optional(fields.fields@[m]),
            }),
        decreases fields.fields@.len() - k,
    {
        let req = !crate::classify::field_is_optional(&fields.fields[k]);
        acc.push(Slot { field: k, required: req });
        k = k + 1;
    }
    acc
}

/// The phase markers of a list with `r` required fields are `r + 1`
/// distinct markers; the first is the one a fresh builder starts on and
/// only the last is terminal.
pub proof fn law_phase_markers(r: nat)
    requires
        r <= usize::MAX,
    ensures
        spec_phases(r).len() == r + 1,
        spec_phases(r)[0] == phase_after(0, r),
        spec_phases(r)[r as int] == PhaseMarker::CanBuild,
        forall|k: int, l: int| 0 <= k < l <= r ==> spec_phases(r)[k] != spec_phases(r)[l],
        forall|k: int| 0 <= k < r ==> spec_phases(r)[k] != PhaseMarker::CanBuild,
{
}

} // verus!
