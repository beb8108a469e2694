//! The validator combinator tree: per-type validators composed recursively
//! from a schema description and applied to input values, collecting
//! location-tagged line errors without stopping at the first failure, with a
//! slot table for self-referential schemas and a recursion guard that turns
//! unbounded recursion into a reported error.

use vstd::prelude::*;
use vstd::set_lib::{set_int_range, lemma_int_range, lemma_len_subset};
use crate::errors::{ErrorKind, ErrorKindV, LocItem, LocItemV, ValError, ValErrorV, ValLineError, LineErrV, single_line_error};
use crate::value::{Value, ValueV, value_view, key_loc_of, as_loc_item};

verus! {

broadcast use vstd::std_specs::vec::group_vec_axioms, vstd::seq::group_seq_axioms;

// ---------------------------------------------------------------------------
// Recursion guard
// ---------------------------------------------------------------------------

/// Whether the guard sequence holds the pair of `slot` and `v`.
pub open spec fn guard_contains(g: Seq<(int, ValueV)>, slot: int, v: ValueV) -> bool {
    exists|i: int| 0 <= i < g.len() && g[i] == (slot, v)
}

/// The slots below `n` that the guard already pairs with `v`.
pub open spec fn guard_slots_for(g: Seq<(int, ValueV)>, n: int, v: ValueV) -> Set<int> {
    Set::new(|j: int| 0 <= j < n && guard_contains(g, j, v))
}

/// How many more slots below `n` the guard could still pair with `v`: the
/// termination measure that shrinks on every descent through a slot.
pub open spec fn guard_budget(g: Seq<(int, ValueV)>, n: int, v: ValueV) -> int {
    n - guard_slots_for(g, n, v).len()
}

pub proof fn lemma_guard_slots_finite(g: Seq<(int, ValueV)>, n: int, v: ValueV)
    requires
        n >= 0,
    ensures
        guard_slots_for(g, n, v).finite(),
        guard_slots_for(g, n, v).len() <= n,
        guard_budget(g, n, v) >= 0,
{
    let s = guard_slots_for(g, n, v);
    let r = set_int_range(0, n);
    lemma_int_range(0, n);
    assert(s.subset_of(r));
    lemma_len_subset(s, r);
}

pub proof fn lemma_guard_push_budget(g: Seq<(int, ValueV)>, n: int, v: ValueV, slot: int)
    requires
        0 <= slot < n,
        !guard_contains(g, slot, v),
    ensures
        guard_budget(g.push((slot, v)), n, v) < guard_budget(g, n, v),
{
    let s1 = guard_slots_for(g, n, v);
    let s2 = guard_slots_for(g.push((slot, v)), n, v);
    let g2 = g.push((slot, v));
    assert forall|j: int| s2.contains(j) implies s1.insert(slot).contains(j) by {
        if j != slot {
            let i = choose|i: int| 0 <= i < g2.len() && g2[i] == (j, v);
            assert(i < g.len() && g[i] == (j, v));
        }
    }
    assert forall|j: int| s1.insert(slot).contains(j) implies s2.contains(j) by {
        if j == slot {
            assert(g2[g.len() as int] == (slot, v));
        } else {
            let i = choose|i: int| 0 <= i < g.len() && g[i] == (j, v);
            assert(g2[i] == (j, v));
        }
    }
    assert(s2 =~= s1.insert(slot));
    lemma_guard_slots_finite(g, n, v);
    assert(!s1.contains(slot));
    assert(s2.len() == s1.len() + 1);
}

/// A depth and identity tracker for self-referential schemas: before a
/// descent through a slot, the pair of that slot and the input is recorded;
/// meeting the same pair again is reported as a recursion error instead of
/// overflowing the stack. Entries are scoped: pushed on entry, popped on
/// exit, so sibling subtrees never trip the guard.
pub struct RecursionGuard {
    entries: Vec<(usize, Value)>,
}

impl View for RecursionGuard {
    type V = Seq<(int, ValueV)>;

    closed spec fn view(&self) -> Seq<(int, ValueV)> {
        Seq::new(self.entries@.len(), |i: int|
            if 0 <= i < self.entries@.len() {
                (self.entries@[i].0 as int, value_view(self.entries@[i].1))
            } else {
                (0int, ValueV::Null)
            })
    }
}

impl RecursionGuard {
    pub fn new() -> (r: RecursionGuard)
        ensures
            r@ == Seq::<(int, ValueV)>::empty(),
    {
        let r = RecursionGuard { entries: Vec::new() };
        proof {
            assert(r@ =~= Seq::<(int, ValueV)>::empty());
        }
        r
    }

    /// Whether `slot` paired with `input` is already on the active stack.
    pub fn contains(&self, slot: usize, input: &Value) -> (r: bool)
        ensures
            r == guard_contains(self@, slot as int, value_view(*input)),
    {
        let mut i: usize = 0;
        while i < self.entries.len()
            invariant
                i <= self.entries@.len(),
                forall|j: int| 0 <= j < i ==> self@[j] != (slot as int, value_view(*input)),
            decreases self.entries@.len() - i,
        {
            if self.entries[i].0 == slot && self.entries[i].1.deep_eq(input) {
                proof {
                    assert(self@[i as int] == (slot as int, value_view(*input)));
                }
                return true;
            }
            proof {
                assert(self@[i as int] != (slot as int, value_view(*input)));
            }
            i = i + 1;
        }
        false
    }

    /// Records the pair of `slot` and `input` on entry to a slot descent.
    pub fn enter(&mut self, slot: usize, input: &Value)
        ensures
            final(self)@ == old(self)@.push((slot as int, value_view(*input))),
    {
        self.entries.push((slot, input.clone()));
        proof {
            assert(self@ =~= old(self)@.push((slot as int, value_view(*input))));
        }
    }

    /// Removes the most recent pair on exit from the descent.
    pub fn exit(&mut self)
        requires
            old(self)@.len() > 0,
        ensures
            final(self)@ == old(self)@.drop_last(),
    {
        let _ = self.entries.pop();
        proof {
            assert(self@ =~= old(self)@.drop_last());
        }
    }
}

// ---------------------------------------------------------------------------
// The validator tree
// ---------------------------------------------------------------------------

/// A validator for mappings: a key validator and a value validator applied
/// to every entry, with optional bounds on the entry count checked first.
/// In strict mode the caller must already hold the exact mapping
/// representation; extraction happens before the core algorithm either way.
#[derive(Debug)]
pub struct DictValidator {
    pub strict: bool,
    pub key_validator: Box<CombinedValidator>,
    pub value_validator: Box<CombinedValidator>,
    pub min_items: Option<usize>,
    pub max_items: Option<usize>,
}

/// The closed union of validator kinds, dispatched by pattern match. A
/// `Ref` resolves through the slot table, so a definition can reference
/// itself or a sibling.
#[derive(Debug)]
pub enum CombinedValidator {
    Any,
    Int,
    Str,
    Dict(DictValidator),
    Ref(usize),
}

/// The node count of a validator: a structural measure for termination.
pub open spec fn validator_size(v: CombinedValidator) -> nat
    decreases v,
{
    match v {
        CombinedValidator::Dict(d) =>
            1 + validator_size(*d.key_validator) + validator_size(*d.value_validator),
        _ => 1,
    }
}

/// Every slot reference in `v` points below `n`.
pub open spec fn validator_wf(v: CombinedValidator, n: int) -> bool
    decreases v,
{
    match v {
        CombinedValidator::Ref(i) => (i as int) < n,
        CombinedValidator::Dict(d) =>
            validator_wf(*d.key_validator, n) && validator_wf(*d.value_validator, n),
        _ => true,
    }
}

/// Every validator in the slot table is well-formed against the table.
pub open spec fn slots_wf(slots: Seq<CombinedValidator>) -> bool {
    forall|i: int| 0 <= i < slots.len() ==> validator_wf(#[trigger] slots[i], slots.len() as int)
}

/// The synthetic location item that marks a failure on a key itself.
pub open spec fn key_marker() -> LocItemV {
    LocItemV::Key(seq!['[', 'k', 'e', 'y', ']'])
}

/// Every error tagged with one more enclosing frame.
pub open spec fn with_outer(errs: Seq<LineErrV>, loc: LocItemV) -> Seq<LineErrV> {
    errs.map_values(|e: LineErrV| LineErrV { kind: e.kind, location: e.location.push(loc) })
}

/// What validating `input` with `v` returns: the normalized value, or the
/// collected line errors, or a fatal error. Descending through a slot on
/// the same input twice is a recursion error.
pub open spec fn spec_validate(
    v: CombinedValidator,
    slots: Seq<CombinedValidator>,
    g: Seq<(int, ValueV)>,
    input: ValueV,
) -> Result<ValueV, ValErrorV>
    decreases input, guard_budget(g, slots.len() as int, input), validator_size(v), 0int,
    via spec_validate_decreases
{
    match v {
        CombinedValidator::Any => Ok(input),
        CombinedValidator::Int => if input is Int {
            Ok(input)
        } else {
            Err(single_line_error(ErrorKindV::IntType))
        },
        CombinedValidator::Str => if input is Str {
            Ok(input)
        } else {
            Err(single_line_error(ErrorKindV::StrType))
        },
        CombinedValidator::Ref(i) => if (i as int) >= slots.len() {
            Err(ValErrorV::Internal(Seq::empty()))
        } else if guard_contains(g, i as int, input) {
            Err(single_line_error(ErrorKindV::RecursionLoop))
        } else {
            spec_validate(slots[i as int], slots, g.push((i as int, input)), input)
        },
        CombinedValidator::Dict(d) => match input {
            ValueV::Mapping(entries) => {
                if d.min_items matches Some(m) && entries.len() < m {
                    Err(single_line_error(ErrorKindV::TooShort { min_length: d.min_items->0 as int }))
                } else if d.max_items matches Some(m) && entries.len() > m {
                    Err(single_line_error(ErrorKindV::TooLong { max_length: d.max_items->0 as int }))
                } else {
                    match spec_validate_entries(*d.key_validator, *d.value_validator, slots, g, input, 0) {
                        Ok((outs, errs)) => if errs.len() == 0 {
                            Ok(ValueV::Mapping(outs))
                        } else {
                            Err(ValErrorV::LineErrors(errs))
                        },
                        Err(f) => Err(f),
                    }
                }
            }
            _ => Err(single_line_error(ErrorKindV::DictType)),
        },
    }
}

/// The per-entry pass of the mapping validator over the entries of `parent`
/// from index `i` on: each key and value validated in input order, a failed
/// key tagged under the key marker and the key, a failed value under the
/// key, a pair contributing to the output exactly when both succeed, and a
/// fatal error aborting at once.
pub open spec fn spec_validate_entries(
    kv: CombinedValidator,
    vv: CombinedValidator,
    slots: Seq<CombinedValidator>,
    g: Seq<(int, ValueV)>,
    parent: ValueV,
    i: int,
) -> Result<(Seq<(ValueV, ValueV)>, Seq<LineErrV>), ValErrorV>
    decreases parent, guard_budget(g, slots.len() as int, parent),
        validator_size(kv) + validator_size(vv), parent->Mapping_0.len() - i,
    when parent is Mapping && i >= 0
    via spec_validate_entries_decreases
{
    let entries = parent->Mapping_0;
    if i >= entries.len() {
        Ok((Seq::empty(), Seq::empty()))
    } else {
        let k = entries[i].0;
        let val = entries[i].1;
        let kr = spec_validate(kv, slots, g, k);
        if kr is Err && kr->Err_0 is Internal {
            Err(kr->Err_0)
        } else {
            let vr = spec_validate(vv, slots, g, val);
            if vr is Err && vr->Err_0 is Internal {
                Err(vr->Err_0)
            } else {
                let kerrs = match kr {
                    Ok(_) => Seq::<LineErrV>::empty(),
                    Err(ValErrorV::LineErrors(es)) => with_outer(with_outer(es, key_marker()), key_loc_of(k)),
                    Err(ValErrorV::Internal(_)) => Seq::<LineErrV>::empty(),
                };
                let verrs = match vr {
                    Ok(_) => Seq::<LineErrV>::empty(),
                    Err(ValErrorV::LineErrors(es)) => with_outer(es, key_loc_of(k)),
                    Err(ValErrorV::Internal(_)) => Seq::<LineErrV>::empty(),
                };
                let kept = if kr matches Ok(nk) && vr matches Ok(nv) {
                    seq![(kr->Ok_0, vr->Ok_0)]
                } else {
                    Seq::<(ValueV, ValueV)>::empty()
                };
                match spec_validate_entries(kv, vv, slots, g, parent, i + 1) {
                    Ok((outs, errs)) => Ok((kept + outs, kerrs + verrs + errs)),
                    Err(f) => Err(f),
                }
            }
        }
    }
}

/// A freshly built single line error has the form of `single_line_error`.
proof fn lemma_single_error_view(e: ValError, kind: ErrorKind)
    requires
        e matches ValError::LineErrors(v)
            && v@.len() == 1
            && v@[0].kind == kind
            && v@[0].location@.len() == 0,
    ensures
        e.deep_view() == single_line_error(kind.deep_view()),
{
    let v = e->LineErrors_0;
    assert(v@[0].location.deep_view() =~= Seq::<LocItemV>::empty());
    assert(v.deep_view() =~~= seq![LineErrV { kind: kind.deep_view(), location: Seq::empty() }]);
}

impl CombinedValidator {
    /// Validates `input` against this validator, resolving slot references
    /// through `slots` under `guard`, which is restored on exit. The result
    /// is exactly what [`spec_validate`] denotes.
    pub fn validate(
        &self,
        slots: &Vec<CombinedValidator>,
        guard: &mut RecursionGuard,
        input: &Value,
    ) -> (r: Result<Value, ValError>)
        requires
            validator_wf(*self, slots@.len() as int),
            slots_wf(slots@),
        ensures
            final(guard)@ == old(guard)@,
            (r matches Ok(v) ==> spec_validate(*self, slots@, old(guard)@, value_view(*input))
                == Ok::<ValueV, ValErrorV>(value_view(v))),
            (r matches Err(e) ==> spec_validate(*self, slots@, old(guard)@, value_view(*input))
                == Err::<ValueV, ValErrorV>(e.deep_view())),
        decreases value_view(*input),
            guard_budget(guard@, slots@.len() as int, value_view(*input)),
            validator_size(*self),
    {
        match self {
            CombinedValidator::Any => Ok(input.clone()),
            CombinedValidator::Int => match input {
                Value::Int(_) => Ok(input.clone()),
                _ => {
                    let e = ValError::new(ErrorKind::IntType);
                    proof {
                        lemma_single_error_view(e, ErrorKind::IntType);
                    }
                    Err(e)
                }
            },
            CombinedValidator::Str => match input {
                Value::Str(_) => Ok(input.clone()),
                _ => {
                    let e = ValError::new(ErrorKind::StrType);
                    proof {
                        lemma_single_error_view(e, ErrorKind::StrType);
                    }
                    Err(e)
                }
            },
            CombinedValidator::Ref(idx) => {
                let idx = *idx;
                if guard.contains(idx, input) {
                    let e = ValError::new(ErrorKind::RecursionLoop);
                    proof {
                        lemma_single_error_view(e, ErrorKind::RecursionLoop);
                    }
                    Err(e)
                } else {
                    let ghost g0 = guard@;
                    let ghost n = slots@.len() as int;
                    let ghost iv = value_view(*input);
                    proof {
                        lemma_guard_slots_finite(g0, n, iv);
                        lemma_guard_push_budget(g0, n, iv, idx as int);
                        lemma_guard_slots_finite(g0.push((idx as int, iv)), n, iv);
                        assert(validator_wf(slots@[idx as int], n));
                    }
                    guard.enter(idx, input);
                    let r = slots[idx].validate(slots, guard, input);
                    guard.exit();
                    proof {
                        assert(guard@ =~= g0);
                    }
                    r
                }
            }
            CombinedValidator::Dict(d) => self.validate_dict(d, slots, guard, input),
        }
    }

    /// The mapping algorithm: bounds first, then one pass over the entries
    /// in input order, validating each key and value, collecting recoverable
    /// line errors instead of stopping, and keeping a pair in the output
    /// exactly when both halves succeeded.
    fn validate_dict(
        &self,
        d: &DictValidator,
        slots: &Vec<CombinedValidator>,
        guard: &mut RecursionGuard,
        input: &Value,
    ) -> (r: Result<Value, ValError>)
        requires
            *self is Dict,
            self->Dict_0 == *d,
            validator_wf(*self, slots@.len() as int),
            slots_wf(slots@),
        ensures
            final(guard)@ == old(guard)@,
            (r matches Ok(v) ==> spec_validate(*self, slots@, old(guard)@, value_view(*input))
                == Ok::<ValueV, ValErrorV>(value_view(v))),
            (r matches Err(e) ==> spec_validate(*self, slots@, old(guard)@, value_view(*input))
                == Err::<ValueV, ValErrorV>(e.deep_view())),
        decreases value_view(*input),
            guard_budget(guard@, slots@.len() as int, value_view(*input)),
            validator_size(*d.key_validator) + validator_size(*d.value_validator),
    {
        let ghost n = slots@.len() as int;
        let ghost g0 = guard@;
        let ghost parent = value_view(*input);
        let pairs = match input {
            Value::Mapping(pairs) => pairs,
            _ => {
                let e = ValError::new(ErrorKind::DictType);
                proof {
                    lemma_single_error_view(e, ErrorKind::DictType);
                }
                return Err(e);
            }
        };
        let ghost entries = parent->Mapping_0;
        proof {
            assert(entries.len() == pairs@.len());
        }
        if let Some(min) = d.min_items {
            if pairs.len() < min {
                let e = ValError::new(ErrorKind::TooShort { min_length: min });
                proof {
                    lemma_single_error_view(e, ErrorKind::TooShort { min_length: min });
                }
                return Err(e);
            }
        }
        if let Some(max) = d.max_items {
            if pairs.len() > max {
                let e = ValError::new(ErrorKind::TooLong { max_length: max });
                proof {
                    lemma_single_error_view(e, ErrorKind::TooLong { max_length: max });
                }
                return Err(e);
            }
        }
        let ghost kv = *d.key_validator;
        let ghost vv = *d.value_validator;
        let mut output: Vec<(Value, Value)> = Vec::new();
        let mut errors: Vec<ValLineError> = Vec::new();
        let mut i: usize = 0;
        while i < pairs.len()
            invariant
                i <= pairs.len(),
                guard@ == g0,
                g0 == old(guard)@,
                n == slots@.len() as int,
                validator_wf(*d.key_validator, n),
                validator_wf(*d.value_validator, n),
                kv == *d.key_validator,
                vv == *d.value_validator,
                slots_wf(slots@),
                *self is Dict,
                self->Dict_0 == *d,
                *input == Value::Mapping(*pairs),
                parent == value_view(*input),
                parent is Mapping,
                (d.min_items matches Some(m) ==> entries.len() >= m),
                (d.max_items matches Some(m) ==> entries.len() <= m),
                entries == parent->Mapping_0,
                entries.len() == pairs@.len(),
                spec_validate_entries(kv, vv, slots@, g0, parent, 0)
                    == (match spec_validate_entries(kv, vv, slots@, g0, parent, i as int) {
                        Ok(rest) => Ok::<_, ValErrorV>((
                            output.deep_view() + rest.0,
                            errors.deep_view() + rest.1,
                        )),
                        Err(f) => Err::<(Seq<(ValueV, ValueV)>, Seq<LineErrV>), _>(f),
                    }),
            decreases pairs@.len() - i,
        {
            let ghost out0 = output.deep_view();
            let ghost errs0 = errors.deep_view();
            proof {
                assert(decreases_to!(parent => parent->Mapping_0));
                assert(decreases_to!(entries => entries[i as int]));
                assert(decreases_to!(entries[i as int] => entries[i as int].0));
                assert(decreases_to!(entries[i as int] => entries[i as int].1));
                assert(entries[i as int].0 == value_view(pairs@[i as int].0));
                assert(entries[i as int].1 == value_view(pairs@[i as int].1));
            }
            let ghost k_spec = spec_validate(kv, slots@, g0, entries[i as int].0);
            let ghost v_spec = spec_validate(vv, slots@, g0, entries[i as int].1);
            let key_r = d.key_validator.validate(slots, guard, &pairs[i].0);
            let output_key: Option<Value> = match key_r {
                Ok(v) => Some(v),
                Err(e) => match e {
                    ValError::LineErrors(les) => {
                        push_key_errors(&mut errors, les, &pairs[i].0);
                        proof {
                            assert(errors.deep_view() =~= errs0
                                + with_outer(with_outer(k_spec->Err_0->LineErrors_0, key_marker()),
                                    key_loc_of(entries[i as int].0)));
                        }
                        None
                    }
                    ValError::Internal(m) => {
                        let e2 = ValError::Internal(m);
                        proof {
                            assert(k_spec == Err::<ValueV, ValErrorV>(e2.deep_view()));
                            assert(spec_validate_entries(kv, vv, slots@, g0, parent, i as int)
                                == Err::<(Seq<(ValueV, ValueV)>, Seq<LineErrV>), ValErrorV>(e2.deep_view()));
                            assert(spec_validate_entries(kv, vv, slots@, g0, parent, 0)
                                == Err::<(Seq<(ValueV, ValueV)>, Seq<LineErrV>), ValErrorV>(e2.deep_view()));
                            assert(spec_validate(*self, slots@, g0, parent)
                                == Err::<ValueV, ValErrorV>(e2.deep_view()));
                        }
                        return Err(e2);
                    }
                },
            };
            let value_r = d.value_validator.validate(slots, guard, &pairs[i].1);
            let output_value: Option<Value> = match value_r {
                Ok(v) => Some(v),
                Err(e) => match e {
                    ValError::LineErrors(les) => {
                        let ghost errs_mid = errors.deep_view();
                        push_value_errors(&mut errors, les, &pairs[i].0);
                        proof {
                            assert(errors.deep_view() =~= errs_mid
                                + with_outer(v_spec->Err_0->LineErrors_0, key_loc_of(entries[i as int].0)));
                        }
                        None
                    }
                    ValError::Internal(m) => {
                        let e2 = ValError::Internal(m);
                        proof {
                            assert(v_spec == Err::<ValueV, ValErrorV>(e2.deep_view()));
                            assert(spec_validate_entries(kv, vv, slots@, g0, parent, i as int)
                                == Err::<(Seq<(ValueV, ValueV)>, Seq<LineErrV>), ValErrorV>(e2.deep_view()));
                            assert(spec_validate_entries(kv, vv, slots@, g0, parent, 0)
                                == Err::<(Seq<(ValueV, ValueV)>, Seq<LineErrV>), ValErrorV>(e2.deep_view()));
                            assert(spec_validate(*self, slots@, g0, parent)
                                == Err::<ValueV, ValErrorV>(e2.deep_view()));
                        }
                        return Err(e2);
                    }
                },
            };
            if let (Some(k), Some(v)) = (output_key, output_value) {
                output.push((k, v));
            }
            proof {
                let step = spec_validate_entries(kv, vv, slots@, g0, parent, i as int);
                let rest = spec_validate_entries(kv, vv, slots@, g0, parent, i + 1);
                let kerrs = match k_spec {
                    Ok(_) => Seq::<LineErrV>::empty(),
                    Err(ValErrorV::LineErrors(es)) => with_outer(with_outer(es, key_marker()), key_loc_of(entries[i as int].0)),
                    Err(ValErrorV::Internal(_)) => Seq::<LineErrV>::empty(),
                };
                let verrs = match v_spec {
                    Ok(_) => Seq::<LineErrV>::empty(),
                    Err(ValErrorV::LineErrors(es)) => with_outer(es, key_loc_of(entries[i as int].0)),
                    Err(ValErrorV::Internal(_)) => Seq::<LineErrV>::empty(),
                };
                assert(errors.deep_view() =~= errs0 + (kerrs + verrs));
                let kept = if k_spec is Ok && v_spec is Ok {
                    seq![(k_spec->Ok_0, v_spec->Ok_0)]
                } else {
                    Seq::<(ValueV, ValueV)>::empty()
                };
                assert(output.deep_view() =~= out0 + kept);
                match rest {
                    Ok(ro) => {
                        assert(step == Ok::<_, ValErrorV>((kept + ro.0, kerrs + verrs + ro.1)));
                        assert(out0 + (kept + ro.0) =~= (out0 + kept) + ro.0);
                        assert(errs0 + (kerrs + verrs + ro.1) =~= (errs0 + (kerrs + verrs)) + ro.1);
                    }
                    Err(f) => {
                        assert(step == Err::<(Seq<(ValueV, ValueV)>, Seq<LineErrV>), ValErrorV>(f));
                    }
                }
            }
            i = i + 1;
        }
        proof {
            assert(spec_validate_entries(kv, vv, slots@, g0, parent, pairs@.len() as int)
                == Ok::<_, ValErrorV>((Seq::<(ValueV, ValueV)>::empty(), Seq::<LineErrV>::empty())));
            assert(output.deep_view() + Seq::<(ValueV, ValueV)>::empty() =~= output.deep_view());
            assert(errors.deep_view() + Seq::<LineErrV>::empty() =~= errors.deep_view());
        }
        if errors.len() == 0 {
            proof {
                assert(errors.deep_view().len() == 0);
            }
            let out = Value::Mapping(output);
            proof {
                assert(value_view(out)->Mapping_0 =~= out->Mapping_0.deep_view());
                assert(value_view(out) =~= ValueV::Mapping(out->Mapping_0.deep_view()));
            }
            Ok(out)
        } else {
            let e = ValError::LineErrors(errors);
            proof {
                assert(e.deep_view() == ValErrorV::LineErrors(e->LineErrors_0.deep_view()));
            }
            Err(e)
        }
    }
}

/// A declarative schema description: the type tag and the type-specific
/// parameters that the build step compiles into a validator tree. A `Dict`
/// schema may leave its key or value schema out; an accept-anything
/// validator then takes that place.
#[derive(Debug)]
pub enum Schema {
    Any,
    Int,
    Str,
    Dict {
        strict: bool,
        keys_schema: Option<Box<Schema>>,
        values_schema: Option<Box<Schema>>,
        min_items: Option<usize>,
        max_items: Option<usize>,
    },
    Ref(usize),
}

/// Every slot reference in the schema points below `n`.
pub open spec fn schema_wf(s: Schema, n: int) -> bool
    decreases s,
{
    match s {
        Schema::Ref(i) => (i as int) < n,
        Schema::Dict { keys_schema, values_schema, .. } => {
            &&& (keys_schema matches Some(k) ==> schema_wf(*k, n))
            &&& (values_schema matches Some(v) ==> schema_wf(*v, n))
        },
        _ => true,
    }
}

/// The validator that compiling a schema yields.
pub open spec fn build_spec(s: Schema) -> CombinedValidator
    decreases s,
{
    match s {
        Schema::Any => CombinedValidator::Any,
        Schema::Int => CombinedValidator::Int,
        Schema::Str => CombinedValidator::Str,
        Schema::Ref(i) => CombinedValidator::Ref(i),
        Schema::Dict { strict, keys_schema, values_schema, min_items, max_items } =>
            CombinedValidator::Dict(DictValidator {
                strict,
                key_validator: Box::new(match keys_schema {
                    Some(k) => build_spec(*k),
                    None => CombinedValidator::Any,
                }),
                value_validator: Box::new(match values_schema {
                    Some(v) => build_spec(*v),
                    None => CombinedValidator::Any,
                }),
                min_items,
                max_items,
            }),
    }
}

/// The text name of a validator, nesting the child names of a mapping.
pub open spec fn validator_name(v: CombinedValidator) -> Seq<char>
    decreases v,
{
    match v {
        CombinedValidator::Any => "any"@,
        CombinedValidator::Int => "int"@,
        CombinedValidator::Str => "str"@,
        CombinedValidator::Ref(_) => "definition-ref"@,
        CombinedValidator::Dict(d) => "dict["@ + validator_name(*d.key_validator) + ", "@
            + validator_name(*d.value_validator) + "]"@,
    }
}

impl CombinedValidator {
    /// Compiles a schema against a table of `n_slots` definitions. A slot
    /// reference at or past the table is a malformed schema and fails fast
    /// at build time, before any value is processed.
    pub fn build(schema: &Schema, n_slots: usize) -> (r: Result<CombinedValidator, String>)
        ensures
            (r is Ok) == schema_wf(*schema, n_slots as int),
            (r matches Ok(v) ==> v == build_spec(*schema) && validator_wf(v, n_slots as int)),
        decreases *schema,
    {
        match schema {
            Schema::Any => Ok(CombinedValidator::Any),
            Schema::Int => Ok(CombinedValidator::Int),
            Schema::Str => Ok(CombinedValidator::Str),
            Schema::Ref(i) => {
                if *i < n_slots {
                    Ok(CombinedValidator::Ref(*i))
                } else {
                    Err("invalid schema: definition reference out of range".to_owned())
                }
            }
            Schema::Dict { strict, keys_schema, values_schema, min_items, max_items } => {
                let key_validator = match keys_schema {
                    Some(k) => match Self::build(k, n_slots) {
                        Ok(v) => v,
                        Err(e) => {
                            return Err(e);
                        }
                    },
                    None => CombinedValidator::Any,
                };
                proof {
                    assert(validator_wf(key_validator, n_slots as int));
                }
                let value_validator = match values_schema {
                    Some(v) => match Self::build(v, n_slots) {
                        Ok(v) => v,
                        Err(e) => {
                            return Err(e);
                        }
                    },
                    None => CombinedValidator::Any,
                };
                proof {
                    assert(validator_wf(value_validator, n_slots as int));
                }
                let r = CombinedValidator::Dict(DictValidator {
                    strict: *strict,
                    key_validator: Box::new(key_validator),
                    value_validator: Box::new(value_validator),
                    min_items: *min_items,
                    max_items: *max_items,
                });
                proof {
                    assert(build_spec(*schema) is Dict);
                    assert(r->Dict_0.key_validator == build_spec(*schema)->Dict_0.key_validator);
                    assert(r->Dict_0.value_validator == build_spec(*schema)->Dict_0.value_validator);
                    assert(r == build_spec(*schema));
                    assert(validator_wf(r, n_slots as int));
                }
                Ok(r)
            }
        }
    }

    /// Validates in strict mode: the input must already be the exact
    /// expected representation. Extraction between host representations
    /// happens outside this core, so the per-entry algorithm is the one
    /// that [`CombinedValidator::validate`] runs.
    pub fn validate_strict(
        &self,
        slots: &Vec<CombinedValidator>,
        guard: &mut RecursionGuard,
        input: &Value,
    ) -> (r: Result<Value, ValError>)
        requires
            validator_wf(*self, slots@.len() as int),
            slots_wf(slots@),
        ensures
            final(guard)@ == old(guard)@,
            (r matches Ok(v) ==> spec_validate(*self, slots@, old(guard)@, value_view(*input))
                == Ok::<ValueV, ValErrorV>(value_view(v))),
            (r matches Err(e) ==> spec_validate(*self, slots@, old(guard)@, value_view(*input))
                == Err::<ValueV, ValErrorV>(e.deep_view())),
    {
        self.validate(slots, guard, input)
    }

    /// The validator's name: the type tag, with a mapping's child names.
    pub fn get_name(&self) -> (r: String)
        ensures
            r@ == validator_name(*self),
        decreases validator_size(*self),
    {
        match self {
            CombinedValidator::Any => {
                let r = "any".to_owned();
                r
            }
            CombinedValidator::Int => {
                let r = "int".to_owned();
                r
            }
            CombinedValidator::Str => {
                let r = "str".to_owned();
                r
            }
            CombinedValidator::Ref(_) => {
                let r = "definition-ref".to_owned();
                r
            }
            CombinedValidator::Dict(d) => {
                let mut s = "dict[".to_owned();
                let kn = d.key_validator.get_name();
                s.append(kn.as_str());
                s.append(", ");
                let vn = d.value_validator.get_name();
                s.append(vn.as_str());
                s.append("]");
                s
            }
        }
    }
}

// ---------------------------------------------------------------------------
// Laws of the mapping validator
// ---------------------------------------------------------------------------

/// The pairs that survive entry validation, in input order: exactly those
/// whose key and value both validate, each mapped to its normalized form.
pub open spec fn valid_outputs(
    kv: CombinedValidator,
    vv: CombinedValidator,
    slots: Seq<CombinedValidator>,
    g: Seq<(int, ValueV)>,
    entries: Seq<(ValueV, ValueV)>,
) -> Seq<(ValueV, ValueV)>
    decreases entries.len(),
{
    if entries.len() == 0 {
        Seq::empty()
    } else {
        let kr = spec_validate(kv, slots, g, entries[0].0);
        let vr = spec_validate(vv, slots, g, entries[0].1);
        (if kr is Ok && vr is Ok {
            seq![(kr->Ok_0, vr->Ok_0)]
        } else {
            Seq::<(ValueV, ValueV)>::empty()
        }) + valid_outputs(kv, vv, slots, g, entries.drop_first())
    }
}

/// The line errors that entry validation collects, in input order: for each
/// entry the key's errors under the key marker and the key, then the value's
/// errors under the key.
pub open spec fn entry_errors(
    kv: CombinedValidator,
    vv: CombinedValidator,
    slots: Seq<CombinedValidator>,
    g: Seq<(int, ValueV)>,
    entries: Seq<(ValueV, ValueV)>,
) -> Seq<LineErrV>
    decreases entries.len(),
{
    if entries.len() == 0 {
        Seq::empty()
    } else {
        let kr = spec_validate(kv, slots, g, entries[0].0);
        let vr = spec_validate(vv, slots, g, entries[0].1);
        let kerrs = match kr {
            Ok(_) => Seq::<LineErrV>::empty(),
            Err(ValErrorV::LineErrors(es)) => with_outer(with_outer(es, key_marker()), key_loc_of(entries[0].0)),
            Err(ValErrorV::Internal(_)) => Seq::<LineErrV>::empty(),
        };
        let verrs = match vr {
            Ok(_) => Seq::<LineErrV>::empty(),
            Err(ValErrorV::LineErrors(es)) => with_outer(es, key_loc_of(entries[0].0)),
            Err(ValErrorV::Internal(_)) => Seq::<LineErrV>::empty(),
        };
        kerrs + verrs + entry_errors(kv, vv, slots, g, entries.drop_first())
    }
}

/// No entry meets a fatal error in either of its halves from `i` on.
pub open spec fn no_fatal(
    kv: CombinedValidator,
    vv: CombinedValidator,
    slots: Seq<CombinedValidator>,
    g: Seq<(int, ValueV)>,
    entries: Seq<(ValueV, ValueV)>,
) -> bool {
    forall|j: int| 0 <= j < entries.len() ==> {
        &&& !(#[trigger] spec_validate(kv, slots, g, entries[j].0) matches Err(ValErrorV::Internal(_)))
        &&& !(spec_validate(vv, slots, g, entries[j].1) matches Err(ValErrorV::Internal(_)))
    }
}

/// Entry validation from `i` on yields exactly the surviving pairs and the
/// collected errors of the remaining entries, in input order.
proof fn lemma_entries_characterization(
    kv: CombinedValidator,
    vv: CombinedValidator,
    slots: Seq<CombinedValidator>,
    g: Seq<(int, ValueV)>,
    parent: ValueV,
    i: int,
)
    requires
        parent is Mapping,
        0 <= i <= parent->Mapping_0.len(),
        no_fatal(kv, vv, slots, g, parent->Mapping_0),
    ensures
        spec_validate_entries(kv, vv, slots, g, parent, i) == Ok::<_, ValErrorV>((
            valid_outputs(kv, vv, slots, g, parent->Mapping_0.skip(i)),
            entry_errors(kv, vv, slots, g, parent->Mapping_0.skip(i)),
        )),
    decreases parent->Mapping_0.len() - i,
{
    let entries = parent->Mapping_0;
    let suffix = entries.skip(i);
    if i == entries.len() {
        assert(suffix.len() == 0);
    } else {
        lemma_entries_characterization(kv, vv, slots, g, parent, i + 1);
        assert(suffix[0] == entries[i]);
        assert(suffix.drop_first() =~= entries.skip(i + 1));
    }
}

/// A well-formed validator never reports a fatal error: every failure of
/// this closed union is a collection of line errors.
pub proof fn lemma_no_fatal_error(
    v: CombinedValidator,
    slots: Seq<CombinedValidator>,
    g: Seq<(int, ValueV)>,
    input: ValueV,
)
    requires
        validator_wf(v, slots.len() as int),
        slots_wf(slots),
    ensures
        !(spec_validate(v, slots, g, input) matches Err(ValErrorV::Internal(_))),
    decreases input, guard_budget(g, slots.len() as int, input), validator_size(v), 0int,
{
    let n = slots.len() as int;
    lemma_guard_slots_finite(g, n, input);
    match v {
        CombinedValidator::Ref(i) => {
            if !guard_contains(g, i as int, input) {
                lemma_guard_push_budget(g, n, input, i as int);
                lemma_guard_slots_finite(g.push((i as int, input)), n, input);
                lemma_no_fatal_error(slots[i as int], slots, g.push((i as int, input)), input);
            }
        }
        CombinedValidator::Dict(d) => {
            if input is Mapping
                && !(d.min_items matches Some(m) && input->Mapping_0.len() < m)
                && !(d.max_items matches Some(m) && input->Mapping_0.len() > m) {
                lemma_entries_no_fatal(*d.key_validator, *d.value_validator, slots, g, input, 0);
            }
        }
        _ => {}
    }
}

/// The per-entry pass of a well-formed mapping validator never aborts.
proof fn lemma_entries_no_fatal(
    kv: CombinedValidator,
    vv: CombinedValidator,
    slots: Seq<CombinedValidator>,
    g: Seq<(int, ValueV)>,
    parent: ValueV,
    i: int,
)
    requires
        validator_wf(kv, slots.len() as int),
        validator_wf(vv, slots.len() as int),
        slots_wf(slots),
        parent is Mapping,
        0 <= i,
    ensures
        spec_validate_entries(kv, vv, slots, g, parent, i) is Ok,
    decreases parent, guard_budget(g, slots.len() as int, parent),
        validator_size(kv) + validator_size(vv), parent->Mapping_0.len() - i,
{
    let n = slots.len() as int;
    lemma_guard_slots_finite(g, n, parent);
    let entries = parent->Mapping_0;
    if i < entries.len() {
        assert(decreases_to!(parent => parent->Mapping_0));
        assert(decreases_to!(entries => entries[i]));
        assert(decreases_to!(entries[i] => entries[i].0));
        assert(decreases_to!(entries[i] => entries[i].1));
        lemma_no_fatal_error(kv, slots, g, entries[i].0);
        lemma_no_fatal_error(vv, slots, g, entries[i].1);
        lemma_entries_no_fatal(kv, vv, slots, g, parent, i + 1);
    }
}

/// Law of order preservation and error-collection completeness: validating a
/// mapping within its length bounds, where no entry meets a fatal error,
/// returns the surviving pairs in input order when no entry erred, and
/// otherwise all the collected per-entry line errors — validation never
/// stops at the first failure.
pub proof fn lemma_dict_characterization(
    d: DictValidator,
    slots: Seq<CombinedValidator>,
    g: Seq<(int, ValueV)>,
    entries: Seq<(ValueV, ValueV)>,
)
    requires
        (d.min_items matches Some(m) ==> entries.len() >= m),
        (d.max_items matches Some(m) ==> entries.len() <= m),
        no_fatal(*d.key_validator, *d.value_validator, slots, g, entries),
    ensures
        ({
            let outs = valid_outputs(*d.key_validator, *d.value_validator, slots, g, entries);
            let errs = entry_errors(*d.key_validator, *d.value_validator, slots, g, entries);
            spec_validate(CombinedValidator::Dict(d), slots, g, ValueV::Mapping(entries))
                == (if errs.len() == 0 {
                    Ok::<ValueV, ValErrorV>(ValueV::Mapping(outs))
                } else {
                    Err::<ValueV, ValErrorV>(ValErrorV::LineErrors(errs))
                })
        }),
{
    let parent = ValueV::Mapping(entries);
    lemma_entries_characterization(*d.key_validator, *d.value_validator, slots, g, parent, 0);
    assert(entries.skip(0) =~= entries);
}

/// The characterization holds of every well-formed validator pair outright:
/// with this closed union, no entry can meet a fatal error.
pub proof fn lemma_dict_characterization_wf(
    d: DictValidator,
    slots: Seq<CombinedValidator>,
    g: Seq<(int, ValueV)>,
    entries: Seq<(ValueV, ValueV)>,
)
    requires
        validator_wf(CombinedValidator::Dict(d), slots.len() as int),
        slots_wf(slots),
        (d.min_items matches Some(m) ==> entries.len() >= m),
        (d.max_items matches Some(m) ==> entries.len() <= m),
    ensures
        ({
            let outs = valid_outputs(*d.key_validator, *d.value_validator, slots, g, entries);
            let errs = entry_errors(*d.key_validator, *d.value_validator, slots, g, entries);
            spec_validate(CombinedValidator::Dict(d), slots, g, ValueV::Mapping(entries))
                == (if errs.len() == 0 {
                    Ok::<ValueV, ValErrorV>(ValueV::Mapping(outs))
                } else {
                    Err::<ValueV, ValErrorV>(ValErrorV::LineErrors(errs))
                })
        }),
{
    assert forall|j: int| 0 <= j < entries.len() implies {
        &&& !(#[trigger] spec_validate(*d.key_validator, slots, g, entries[j].0)
            matches Err(ValErrorV::Internal(_)))
        &&& !(spec_validate(*d.value_validator, slots, g, entries[j].1)
            matches Err(ValErrorV::Internal(_)))
    } by {
        lemma_no_fatal_error(*d.key_validator, slots, g, entries[j].0);
        lemma_no_fatal_error(*d.value_validator, slots, g, entries[j].1);
    }
    lemma_dict_characterization(d, slots, g, entries);
}

/// Law of length bounds: a mapping outside its declared bounds fails at once
/// with the one length error, before any per-entry work.
pub proof fn lemma_length_bounds(
    d: DictValidator,
    slots: Seq<CombinedValidator>,
    g: Seq<(int, ValueV)>,
    entries: Seq<(ValueV, ValueV)>,
)
    ensures
        (d.min_items matches Some(m) && entries.len() < m
            ==> spec_validate(CombinedValidator::Dict(d), slots, g, ValueV::Mapping(entries))
                == Err::<ValueV, ValErrorV>(single_line_error(
                    ErrorKindV::TooShort { min_length: d.min_items->0 as int }))),
        !(d.min_items matches Some(m) && entries.len() < m)
            && (d.max_items matches Some(m) && entries.len() > m)
            ==> (spec_validate(CombinedValidator::Dict(d), slots, g, ValueV::Mapping(entries))
                == Err::<ValueV, ValErrorV>(single_line_error(
                    ErrorKindV::TooLong { max_length: d.max_items->0 as int }))),
{
}

/// Law of error-collection completeness in counting form: when every key
/// validates and every failing value reports exactly one line error, the
/// error count and the output count split the entry count exactly.
pub proof fn lemma_error_count(
    kv: CombinedValidator,
    vv: CombinedValidator,
    slots: Seq<CombinedValidator>,
    g: Seq<(int, ValueV)>,
    entries: Seq<(ValueV, ValueV)>,
)
    requires
        forall|j: int| 0 <= j < entries.len()
            ==> (#[trigger] spec_validate(kv, slots, g, entries[j].0)) is Ok,
        forall|j: int| 0 <= j < entries.len() ==> {
            let vr = #[trigger] spec_validate(vv, slots, g, entries[j].1);
            vr is Ok || (vr matches Err(ValErrorV::LineErrors(es)) && es.len() == 1)
        },
    ensures
        entry_errors(kv, vv, slots, g, entries).len()
            + valid_outputs(kv, vv, slots, g, entries).len() == entries.len(),
    decreases entries.len(),
{
    if entries.len() > 0 {
        assert(spec_validate(kv, slots, g, entries[0].0) is Ok);
        let vr = spec_validate(vv, slots, g, entries[0].1);
        assert forall|j: int| 0 <= j < entries.drop_first().len()
            implies (#[trigger] spec_validate(kv, slots, g, entries.drop_first()[j].0)) is Ok by {
            assert(entries.drop_first()[j] == entries[j + 1]);
        }
        assert forall|j: int| 0 <= j < entries.drop_first().len() implies {
            let vr2 = #[trigger] spec_validate(vv, slots, g, entries.drop_first()[j].1);
            vr2 is Ok || (vr2 matches Err(ValErrorV::LineErrors(es)) && es.len() == 1)
        } by {
            assert(entries.drop_first()[j] == entries[j + 1]);
        }
        lemma_error_count(kv, vv, slots, g, entries.drop_first());
    }
}

/// Appends the line errors of a failed key, each tagged with the key marker
/// and then the key itself.
fn push_key_errors(dst: &mut Vec<ValLineError>, src: Vec<ValLineError>, key: &Value)
    ensures
        final(dst).deep_view() == old(dst).deep_view()
            + with_outer(with_outer(src.deep_view(), key_marker()), key_loc_of(value_view(*key))),
{
    let ghost target = with_outer(with_outer(src.deep_view(), key_marker()), key_loc_of(value_view(*key)));
    let ghost dst0 = old(dst).deep_view();
    let mut j: usize = 0;
    while j < src.len()
        invariant
            j <= src@.len(),
            target == with_outer(with_outer(src.deep_view(), key_marker()), key_loc_of(value_view(*key))),
            target.len() == src@.len(),
            dst.deep_view() == dst0 + target.take(j as int),
        decreases src@.len() - j,
    {
        let ghost d_before = dst.deep_view();
        let mut marker = String::new();
        marker.append("[key]");
        proof {
            reveal_strlit("[key]");
            assert(marker@ =~= key_marker()->Key_0);
        }
        let e2 = src[j].clone()
            .with_outer_location(LocItem::Key(marker))
            .with_outer_location(as_loc_item(key));
        let ghost pre = *dst;
        dst.push(e2);
        proof {
            crate::errors::lemma_deep_view_push(pre, *dst, e2);
            assert(e2.deep_view().location =~= src@[j as int].deep_view().location
                .push(key_marker()).push(key_loc_of(value_view(*key))));
            assert(e2.deep_view() == target[j as int]) by {
                assert(target[j as int] == LineErrV {
                    kind: src.deep_view()[j as int].kind,
                    location: src.deep_view()[j as int].location
                        .push(key_marker()).push(key_loc_of(value_view(*key))),
                });
                assert(e2.deep_view() =~~= target[j as int]);
            }
            assert(d_before.push(e2.deep_view()) =~= dst0 + target.take(j + 1));
            assert(dst.deep_view() =~= d_before.push(e2.deep_view()));
        }
        j = j + 1;
    }
    proof {
        assert(target.take(src@.len() as int) =~= target);
    }
}

/// Appends the line errors of a failed value, each tagged with the key.
fn push_value_errors(dst: &mut Vec<ValLineError>, src: Vec<ValLineError>, key: &Value)
    ensures
        final(dst).deep_view() == old(dst).deep_view()
            + with_outer(src.deep_view(), key_loc_of(value_view(*key))),
{
    let ghost target = with_outer(src.deep_view(), key_loc_of(value_view(*key)));
    let ghost dst0 = old(dst).deep_view();
    let mut j: usize = 0;
    while j < src.len()
        invariant
            j <= src@.len(),
            target == with_outer(src.deep_view(), key_loc_of(value_view(*key))),
            target.len() == src@.len(),
            dst.deep_view() == dst0 + target.take(j as int),
        decreases src@.len() - j,
    {
        let ghost d_before = dst.deep_view();
        let e2 = src[j].clone().with_outer_location(as_loc_item(key));
        let ghost pre = *dst;
        dst.push(e2);
        proof {
            crate::errors::lemma_deep_view_push(pre, *dst, e2);
            assert(e2.deep_view().location =~= src@[j as int].deep_view().location
                .push(key_loc_of(value_view(*key))));
            assert(e2.deep_view() == target[j as int]) by {
                assert(target[j as int] == LineErrV {
                    kind: src.deep_view()[j as int].kind,
                    location: src.deep_view()[j as int].location.push(key_loc_of(value_view(*key))),
                });
                assert(e2.deep_view() =~~= target[j as int]);
            }
            assert(d_before.push(e2.deep_view()) =~= dst0 + target.take(j + 1));
            assert(dst.deep_view() =~= d_before.push(e2.deep_view()));
        }
        j = j + 1;
    }
    proof {
        assert(target.take(src@.len() as int) =~= target);
    }
}

#[via_fn]
proof fn spec_validate_decreases(
    v: CombinedValidator,
    slots: Seq<CombinedValidator>,
    g: Seq<(int, ValueV)>,
    input: ValueV,
) {
    let n = slots.len() as int;
    lemma_guard_slots_finite(g, n, input);
    match v {
        CombinedValidator::Ref(i) => {
            if (i as int) < n && !guard_contains(g, i as int, input) {
                lemma_guard_push_budget(g, n, input, i as int);
                lemma_guard_slots_finite(g.push((i as int, input)), n, input);
            }
        }
        _ => {}
    }
}

#[via_fn]
proof fn spec_validate_entries_decreases(
    kv: CombinedValidator,
    vv: CombinedValidator,
    slots: Seq<CombinedValidator>,
    g: Seq<(int, ValueV)>,
    parent: ValueV,
    i: int,
) {
    let n = slots.len() as int;
    lemma_guard_slots_finite(g, n, parent);
    let entries = parent->Mapping_0;
    if parent is Mapping && 0 <= i < entries.len() {
        assert(decreases_to!(parent => parent->Mapping_0));
        assert(decreases_to!(entries => entries[i]));
        assert(decreases_to!(entries[i] => entries[i].0));
        assert(decreases_to!(entries[i] => entries[i].1));
        lemma_guard_slots_finite(g, n, entries[i].0);
        lemma_guard_slots_finite(g, n, entries[i].1);
    }
}

} // verus!
