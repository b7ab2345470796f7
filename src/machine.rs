use vstd::prelude::*;
use crate::classify::FieldsClassify;
use crate::phases::{PhaseMarker, Transition, OptionalSetter, build_required_impls, build_optional_impls, entry_phase};

verus! {

/// The operations that the generated builder offers for one record type.
pub struct BuilderPlan {
    pub field_count: usize,
    pub entry: PhaseMarker,
    pub transitions: Vec<Transition>,
    pub optional: Vec<OptionalSetter>,
}

pub fn derive_plan(fields: &FieldsClassify) -> (r: BuilderPlan)
    ensures
        r.field_count == fields.fields@.len(),
        r.entry == entry_phase_spec(fields),
        plan_matches(&r, fields),
{
    let transitions = build_required_impls(fields);
    let optional = build_optional_impls(fields);
    let entry = entry_phase(fields);
    BuilderPlan { field_count: fields.fields.len(), entry, transitions, optional }
}

/// What the plan offers for a field list: the transitions of the required
/// fields and the setters of the optional ones, the latter on the terminal
/// phase only.
pub open spec fn plan_matches(plan: &BuilderPlan, fields: &FieldsClassify) -> bool {
    let req = crate::classify::spec_required(fields.fields@);
    let opt = crate::classify::spec_optional(fields.fields@);
    &&& plan.transitions@.len() == req.len()
    &&& forall|i: int| 0 <= i < req.len() ==> {
        &&& #[trigger] plan.transitions@[i].field == req[i]
        &&& plan.transitions@[i].from == crate::phases::spec_phases(req.len())[i]
        &&& plan.transitions@[i].to == crate::phases::spec_phases(req.len())[i + 1]
    }
    &&& plan.optional@.len() == opt.len()
    &&& forall|j: int| 0 <= j < opt.len() ==> (#[trigger] plan.optional@[j]) == (OptionalSetter {
        field: opt[j],
        at: PhaseMarker::CanBuild,
    })
}

pub open spec fn entry_phase_spec(fields: &FieldsClassify) -> PhaseMarker {
    crate::phases::phase_after(0, crate::classify::spec_required(fields.fields@).len())
}

/// An optional field's setters are offered on the terminal phase alone:
/// before every required field is supplied none of them can be called.
pub proof fn law_setters_only_when_buildable(plan: &BuilderPlan, fields: &FieldsClassify, p: PhaseMarker, field: usize)
    requires
        plan_matches(plan, fields),
        setter_offered(plan, p, field),
    ensures
        p == PhaseMarker::CanBuild,
{
    let i = choose|i: int| 0 <= i < plan.optional@.len() && (#[trigger] plan.optional@[i]).field == field
        && plan.optional@[i].at == p;
}

/// Supplying a required field is offered on exactly one phase, the one
/// that waits for it, and leads to the next phase: no phase is left twice.
pub proof fn law_supply_advances(plan: &BuilderPlan, fields: &FieldsClassify, p: PhaseMarker, field: usize)
    requires
        plan_matches(plan, fields),
        supply_offered(plan, p, field),
    ensures
        p != PhaseMarker::CanBuild,
        exists|i: int| 0 <= i < plan.transitions@.len() && p == PhaseMarker::Phase((i + 1) as usize)
            && (#[trigger] plan.transitions@[i]).field == field,
{
    let req = crate::classify::spec_required(fields.fields@);
    let i = choose|i: int| 0 <= i < plan.transitions@.len() && (#[trigger] plan.transitions@[i]).field == field
        && plan.transitions@[i].from == p;
    assert(plan.transitions@[i].from == crate::phases::spec_phases(req.len())[i]);
}

/// A required field is supplied on one phase only, and that operation
/// leaves the phase for a later one: the same field cannot be supplied twice.
pub proof fn law_supply_once(plan: &BuilderPlan, fields: &FieldsClassify, p1: PhaseMarker, p2: PhaseMarker, field: usize)
    requires
        fields.fields@.len() <= usize::MAX,
        plan_matches(plan, fields),
        supply_offered(plan, p1, field),
        supply_offered(plan, p2, field),
    ensures
        p1 == p2,
{
    let req = crate::classify::spec_required(fields.fields@);
    crate::phases::lemma_required_bound(fields.fields@);
    let i = choose|i: int| 0 <= i < plan.transitions@.len() && (#[trigger] plan.transitions@[i]).field == field
        && plan.transitions@[i].from == p1;
    let j = choose|j: int| 0 <= j < plan.transitions@.len() && (#[trigger] plan.transitions@[j]).field == field
        && plan.transitions@[j].from == p2;
    assert(plan.transitions@[i].from == crate::phases::spec_phases(req.len())[i]);
    assert(plan.transitions@[j].from == crate::phases::spec_phases(req.len())[j]);
    if i < j {
        assert(req[i] < req[j]);
    } else if j < i {
        assert(req[j] < req[i]);
    }
}

/// The phase reached from `p` by supplying `field`, if the plan offers it.
pub open spec fn supply_step(plan: &BuilderPlan, p: PhaseMarker, field: usize) -> Option<PhaseMarker> {
    if supply_offered(plan, p, field) {
        let i = choose|i: int| 0 <= i < plan.transitions@.len() && (#[trigger] plan.transitions@[i]).field == field
            && plan.transitions@[i].from == p;
        Some(plan.transitions@[i].to)
    } else {
        None
    }
}

/// The phase reached from `p` by supplying the fields `ops` in turn, if
/// every step is offered.
pub open spec fn supply_run(plan: &BuilderPlan, p: PhaseMarker, ops: Seq<usize>) -> Option<PhaseMarker>
    decreases ops.len(),
{
    if ops.len() == 0 {
        Some(p)
    } else {
        match supply_run(plan, p, ops.drop_last()) {
            Some(q) => supply_step(plan, q, ops.last()),
            None => None,
        }
    }
}

/// Every sequence of supply operations offered from a fresh builder is a
/// prefix of the required fields in declaration order, and it ends on the
/// phase that waits for the next one; so the terminal phase, and with it
/// finalizing and the optional setters, is reached only once every required
/// field has been supplied, each exactly once.
pub proof fn law_supplies_follow_required(plan: &BuilderPlan, fields: &FieldsClassify, ops: Seq<usize>)
    requires
        fields.fields@.len() <= usize::MAX,
        plan_matches(plan, fields),
        supply_run(plan, entry_phase_spec(fields), ops).is_some(),
    ensures
        ops.len() <= crate::classify::spec_required(fields.fields@).len(),
        ops == crate::classify::spec_required(fields.fields@).take(ops.len() as int),
        supply_run(plan, entry_phase_spec(fields), ops) == Some(
            crate::phases::phase_after(ops.len(), crate::classify::spec_required(fields.fields@).len()),
        ),
        supply_run(plan, entry_phase_spec(fields), ops) == Some(PhaseMarker::CanBuild)
            ==> ops == crate::classify::spec_required(fields.fields@),
    decreases ops.len(),
{
    let req = crate::classify::spec_required(fields.fields@);
    let r = req.len();
    crate::phases::lemma_required_bound(fields.fields@);
    if ops.len() > 0 {
        let prev = ops.drop_last();
        law_supplies_follow_required(plan, fields, prev);
        let k = prev.len();
        let q = crate::phases::phase_after(k, r);
        let f = ops.last();
        assert(supply_offered(plan, q, f));
        let i = choose|i: int| 0 <= i < plan.transitions@.len() && (#[trigger] plan.transitions@[i]).field == f
            && plan.transitions@[i].from == q;
        assert(plan.transitions@[i].from == crate::phases::spec_phases(r)[i]);
        assert(i == k);
        assert(ops =~= req.take(ops.len() as int));
    } else {
        assert(ops =~= req.take(0));
    }
    if supply_run(plan, entry_phase_spec(fields), ops) == Some(PhaseMarker::CanBuild) {
        assert(ops.len() == r);
        assert(req.take(r as int) =~= req);
    }
}

/// When no two field names are equal up to ASCII case, supplying a
/// required field carries over the slot of every other field, so a value
/// once supplied stays until the record is finalized.
pub proof fn law_supply_carries_others(plan: &BuilderPlan, fields: &FieldsClassify, i: int, s: int)
    requires
        fields.fields@.len() <= usize::MAX,
        forall|a: int, b: int| 0 <= a < b < fields.fields@.len() ==>
            !crate::classify::eq_ignore_case(fields.fields@[a].name@, fields.fields@[b].name@),
        0 <= i < crate::classify::spec_required(fields.fields@).len(),
        0 <= s < fields.fields@.len(),
        s != crate::classify::spec_required(fields.fields@)[i] as int,
    ensures
        crate::classify::spec_exclude(
            fields.fields@,
            fields.fields@[crate::classify::spec_required(fields.fields@)[i] as int].name@,
        ).contains(s as usize),
{
    let fs = fields.fields@;
    let req = crate::classify::spec_required(fs);
    crate::phases::lemma_required_bound(fs);
    let f = req[i] as int;
    if s < f {
        assert(!crate::classify::eq_ignore_case(fs[s].name@, fs[f].name@));
    } else {
        assert(!crate::classify::eq_ignore_case(fs[f].name@, fs[s].name@));
        if crate::classify::eq_ignore_case(fs[s].name@, fs[f].name@) {
            assert forall|k: int| 0 <= k < fs[f].name@.len() implies
                crate::classify::ascii_lower(#[trigger] fs[f].name@[k]) == crate::classify::ascii_lower(fs[s].name@[k]) by {
                assert(crate::classify::ascii_lower(fs[s].name@[k]) == crate::classify::ascii_lower(fs[f].name@[k]));
            }
        }
    }
    crate::phases::lemma_exclude_keeps(fs, fs[f].name@, s);
}

/// With no required field a fresh builder is on the terminal phase, where
/// it can be finalized at once.
pub proof fn law_no_required_starts_buildable(fields: &FieldsClassify)
    requires
        crate::classify::spec_required(fields.fields@).len() == 0,
    ensures
        entry_phase_spec(fields) == PhaseMarker::CanBuild,
{
}

/// Setting an optional slot twice keeps the second value; clearing it after
/// a set leaves it empty.
pub proof fn law_last_set_wins<V>(slots: Seq<Option<V>>, field: int, v1: V, v2: V)
    requires
        0 <= field < slots.len(),
    ensures
        slots.update(field, Some(v1)).update(field, Some(v2)) == slots.update(field, Some(v2)),
        slots.update(field, Some(v1)).update(field, None)[field] == None::<V>,
{
    assert(slots.update(field, Some(v1)).update(field, Some(v2)) =~= slots.update(field, Some(v2)));
}

/// A builder at run time: its phase and one slot per field.
pub struct Builder<V> {
    pub phase: PhaseMarker,
    pub slots: Vec<Option<V>>,
}

/// Whether the plan offers, on phase `p`, the operation supplying `field`.
pub open spec fn supply_offered(plan: &BuilderPlan, p: PhaseMarker, field: usize) -> bool {
    exists|i: int| 0 <= i < plan.transitions@.len() && (#[trigger] plan.transitions@[i]).field == field
        && plan.transitions@[i].from == p
}

/// Whether the plan offers, on phase `p`, the setters of `field`.
pub open spec fn setter_offered(plan: &BuilderPlan, p: PhaseMarker, field: usize) -> bool {
    exists|i: int| 0 <= i < plan.optional@.len() && (#[trigger] plan.optional@[i]).field == field
        && plan.optional@[i].at == p
}

impl<V> Builder<V> {
    /// A fresh builder: on the plan's entry phase, every slot empty.
    pub fn start(plan: &BuilderPlan) -> (r: Self)
        ensures
            r.phase == plan.entry,
            r.slots@.len() == plan.field_count,
            forall|s: int| 0 <= s < r.slots@.len() ==> (#[trigger] r.slots@[s]).is_none(),
    {
        let mut slots: Vec<Option<V>> = Vec::new();
        let mut k: usize = 0;
        while k < plan.field_count
            invariant
                k <= plan.field_count,
                slots@.len() == k,
                forall|s: int| 0 <= s < k ==> (#[trigger] slots@[s]).is_none(),
            decreases plan.field_count - k,
        {
            slots.push(None);
            k = k + 1;
        }
        Builder { phase: plan.entry, slots }
    }

    /// Supplies a required field. `None` when the current phase offers no
    /// such operation; else the builder on the next phase, the field's slot
    /// filled and the carried slots kept.
    pub fn supply(self, plan: &BuilderPlan, field: usize, v: V) -> (r: Option<Self>)
        requires
            self.slots@.len() == plan.field_count,
            field < plan.field_count,
        ensures
            r.is_some() == supply_offered(plan, self.phase, field),
            r.is_some() ==> {
                let b = r.unwrap();
                &&& b.slots@.len() == self.slots@.len()
                &&& b.slots@[field as int] == Some(v)
                &&& exists|i: int| 0 <= i < plan.transitions@.len()
                    && (#[trigger] plan.transitions@[i]).field == field
                    && plan.transitions@[i].from == self.phase
                    && b.phase == plan.transitions@[i].to
                    && forall|s: int| 0 <= s < b.slots@.len() && s != field ==>
                        (#[trigger] b.slots@[s]) == (if plan.transitions@[i].carried@.contains(s as usize) {
                            self.slots@[s]
                        } else {
                            None
                        })
            },
    {
        let mut i: usize = 0;
        while i < plan.transitions.len()
            invariant
                i <= plan.transitions@.len(),
                self.slots@.len() == plan.field_count,
                field < plan.field_count,
                forall|k: int| 0 <= k < i ==> !((#[trigger] plan.transitions@[k]).field == field
                    && plan.transitions@[k].from == self.phase),
            decreases plan.transitions@.len() - i,
        {
            let t = &plan.transitions[i];
            if t.field == field && t.from == self.phase {
                let mut slots = self.slots;
                let mut s: usize = 0;
                while s < slots.len()
                    invariant
                        slots@.len() == self.slots@.len(),
                        self.slots@.len() == plan.field_count,
                        field < plan.field_count,
                        s <= slots@.len(),
                        forall|m: int| s <= m < slots@.len() ==> slots@[m] == self.slots@[m],
                        forall|m: int| 0 <= m < s ==> (#[trigger] slots@[m]) == (if t.carried@.contains(m as usize) {
                            self.slots@[m]
                        } else {
                            None
                        }),
                    decreases slots@.len() - s,
                {
                    let mut keep = false;
                    let mut c: usize = 0;
                    while c < t.carried.len()
                        invariant
                            c <= t.carried@.len(),
                            keep == exists|q: int| 0 <= q < c && t.carried@[q] == s,
                        decreases t.carried@.len() - c,
                    {
                        if t.carried[c] == s {
                            keep = true;
                        }
                        c = c + 1;
                    }
                    if !keep {
                        slots.set(s, None);
                    }
                    s = s + 1;
                }
                let ghost before = slots@;
                slots.set(field, Some(v));
                let b = Builder { phase: t.to, slots };
                assert(plan.transitions@[i as int].field == field);
                assert forall|m: int| 0 <= m < b.slots@.len() && m != field implies
                    (#[trigger] b.slots@[m]) == (if plan.transitions@[i as int].carried@.contains(m as usize) {
                        self.slots@[m]
                    } else {
                        None
                    }) by {
                    assert(b.slots@[m] == before[m]);
                    if t.carried@.contains(m as usize) {
                        let q = choose|q: int| 0 <= q < t.carried@.len() && t.carried@[q] == m as usize;
                    }
                }
                return Some(b);
            }
            i = i + 1;
        }
        None
    }

    /// Sets an optional field directly. `None` when the current phase offers
    /// no setter of that field.
    pub fn set(self, plan: &BuilderPlan, field: usize, v: V) -> (r: Option<Self>)
        requires
            field < self.slots@.len(),
        ensures
            r.is_some() == setter_offered(plan, self.phase, field),
            r.is_some() ==> r.unwrap().phase == self.phase
                && r.unwrap().slots@ == self.slots@.update(field as int, Some(v)),
    {
        self.set_opt(plan, field, Some(v))
    }

    /// Sets an optional field to a value or clears it. `None` when the
    /// current phase offers no setter of that field.
    pub fn set_opt(self, plan: &BuilderPlan, field: usize, v: Option<V>) -> (r: Option<Self>)
        requires
            field < self.slots@.len(),
        ensures
            r.is_some() == setter_offered(plan, self.phase, field),
            r.is_some() ==> r.unwrap().phase == self.phase
                && r.unwrap().slots@ == self.slots@.update(field as int, v),
    {
        let mut i: usize = 0;
        while i < plan.optional.len()
            invariant
                i <= plan.optional@.len(),
                field < self.slots@.len(),
                forall|k: int| 0 <= k < i ==> !((#[trigger] plan.optional@[k]).field == field
                    && plan.optional@[k].at == self.phase),
            decreases plan.optional@.len() - i,
        {
            if plan.optional[i].field == field && plan.optional[i].at == self.phase {
                let mut slots = self.slots;
                slots.set(field, v);
                return Some(Builder { phase: self.phase, slots });
            }
            i = i + 1;
        }
        None
    }

    /// Finalizes: the record's slots, or `None` when the builder is not on
    /// the terminal phase.
    pub fn build(self) -> (r: Option<Vec<Option<V>>>)
        ensures
            r.is_some() == (self.phase == PhaseMarker::CanBuild),
            r.is_some() ==> r.unwrap()@ == self.slots@,
    {
        if self.phase == PhaseMarker::CanBuild {
            Some(self.slots)
        } else {
            None
        }
    }
}

} // verus!
