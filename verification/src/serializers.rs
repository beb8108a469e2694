//! The serializer combinator tree: per-type serializers with field
//! filtering, aliasing, default suppression and an extra-field policy,
//! degrading to a generic fallback with a recorded warning when a value does
//! not match the statically expected shape.

use vstd::prelude::*;
use crate::errors::{ValError, ValErrorV};
use crate::value::{Value, ValueV, value_view, key_str_of, key_to_string};
use crate::datetime::{duration_iso_of, duration_to_iso};

verus! {

broadcast use vstd::std_specs::vec::group_vec_axioms, vstd::seq::group_seq_axioms;

/// The output mode of one serialization call: a native value tree, or a
/// JSON-oriented form.
#[derive(Debug, Clone, Copy, PartialEq, Eq, Structural)]
pub enum SerMode {
    Python,
    Json,
}

/// The per-call serialization options, threaded unchanged through every
/// frame of the tree.
#[derive(Debug, Clone, Copy, PartialEq, Eq, Structural)]
pub struct Extra {
    pub mode: SerMode,
    pub by_alias: bool,
    pub exclude_none: bool,
    pub exclude_defaults: bool,
}

/// One declared field of a typed mapping: an optional serialization alias
/// and the field's serializer.
#[derive(Debug)]
pub struct TypedDictField {
    pub alias: Option<String>,
    pub serializer: CombinedSerializer,
}

/// The precomputed set of field names excluded by the schema, combined at
/// each call with the caller's include and exclude sets.
#[derive(Debug)]
pub struct SchemaFilter {
    pub exclude: Vec<String>,
}

/// A serializer for mappings with declared fields: per-field aliasing and
/// default suppression, filtering, and a policy for keys outside the
/// declared set.
#[derive(Debug)]
pub struct TypedDictSerializer {
    pub fields: Vec<(String, TypedDictField)>,
    pub include_extra: bool,
    pub filter: SchemaFilter,
}

/// The closed union of serializer kinds. `WithDefault` carries a field's
/// declared default around its inner serializer.
#[derive(Debug)]
pub enum CombinedSerializer {
    Any,
    TimeDelta,
    WithDefault { default: Value, inner: Box<CombinedSerializer> },
    TypedDict(TypedDictSerializer),
}

// ---------------------------------------------------------------------------
// Mathematical forms
// ---------------------------------------------------------------------------

/// The mathematical form of a [`TypedDictField`].
#[verifier::ext_equal]
pub struct FieldV {
    pub alias: Option<Seq<char>>,
    pub serializer: SerV,
}

/// The mathematical form of a [`TypedDictSerializer`].
#[verifier::ext_equal]
pub struct TypedDictV {
    pub fields: Seq<(Seq<char>, FieldV)>,
    pub include_extra: bool,
    pub schema_exclude: Seq<Seq<char>>,
}

/// The mathematical form of a [`CombinedSerializer`].
#[verifier::ext_equal]
pub enum SerV {
    Any,
    TimeDelta,
    WithDefault { default: ValueV, inner: Box<SerV> },
    TypedDict(TypedDictV),
}

/// The mathematical form of a serializer.
pub open spec fn ser_view(s: CombinedSerializer) -> SerV
    decreases s,
{
    match s {
        CombinedSerializer::Any => SerV::Any,
        CombinedSerializer::TimeDelta => SerV::TimeDelta,
        CombinedSerializer::WithDefault { default, inner } => SerV::WithDefault {
            default: value_view(default),
            inner: Box::new(ser_view(*inner)),
        },
        CombinedSerializer::TypedDict(t) => SerV::TypedDict(TypedDictV {
            fields: Seq::new(t.fields@.len(), |i: int|
                if 0 <= i < t.fields@.len() {
                    (t.fields@[i].0@, FieldV {
                        alias: match t.fields@[i].1.alias {
                            Some(a) => Some(a@),
                            None => None,
                        },
                        serializer: ser_view(t.fields@[i].1.serializer),
                    })
                } else {
                    (Seq::empty(), FieldV { alias: None, serializer: SerV::Any })
                }),
            include_extra: t.include_extra,
            schema_exclude: t.filter.exclude.deep_view(),
        }),
    }
}

impl DeepView for CombinedSerializer {
    type V = SerV;

    open spec fn deep_view(&self) -> SerV {
        ser_view(*self)
    }
}

/// A structural size for termination.
pub open spec fn ser_size(s: SerV) -> nat
    decreases s,
{
    match s {
        SerV::WithDefault { inner, .. } => 1 + ser_size(*inner),
        _ => 1,
    }
}

/// The declared default a serializer carries, if any.
pub open spec fn ser_default(s: SerV) -> Option<ValueV> {
    match s {
        SerV::WithDefault { default, .. } => Some(default),
        _ => None,
    }
}

/// The first declared field under `key`, if any.
pub open spec fn field_lookup(fields: Seq<(Seq<char>, FieldV)>, key: Seq<char>) -> Option<FieldV>
    decreases fields.len(),
{
    if fields.len() == 0 {
        None
    } else if fields[0].0 == key {
        Some(fields[0].1)
    } else {
        field_lookup(fields.drop_first(), key)
    }
}

/// Whether a field key passes the combined filters: never when the caller
/// excludes it; when the caller names an include set, only when it is in
/// that set; otherwise unless the schema excludes it by default.
pub open spec fn spec_key_filter(
    schema_exclude: Seq<Seq<char>>,
    incl: Option<Seq<Seq<char>>>,
    exclude: Option<Seq<Seq<char>>>,
    key: Seq<char>,
) -> bool {
    if exclude matches Some(e) && e.contains(key) {
        false
    } else {
        match incl {
            Some(inc) => inc.contains(key),
            None => !schema_exclude.contains(key),
        }
    }
}

/// Filtering as applied to an arbitrary key value: only string keys are
/// subject to the name filters.
pub open spec fn key_passes(
    schema_exclude: Seq<Seq<char>>,
    incl: Option<Seq<Seq<char>>>,
    exclude: Option<Seq<Seq<char>>>,
    k: ValueV,
) -> bool {
    match k {
        ValueV::Str(ks) => spec_key_filter(schema_exclude, incl, exclude, ks),
        _ => true,
    }
}

/// The rendered output key of a declared field: its alias when one is
/// declared and aliasing is on, else the declared name.
pub open spec fn rendered_key(ks: Seq<char>, f: FieldV, by_alias: bool) -> Seq<char> {
    if by_alias && f.alias is Some {
        f.alias->0
    } else {
        ks
    }
}

/// The text of a duration value.
pub open spec fn duration_json(d: crate::datetime::RawDuration) -> Seq<char> {
    duration_iso_of(d.positive, d.day as int, d.second as int, d.microsecond as int)
}

/// What serializing `v` with `s` yields in native-output mode, with the
/// fallback warnings recorded along the way. Serialization never fails:
/// a value that does not match the expected shape degrades to the generic
/// fallback, which hands the value through unchanged.
pub open spec fn spec_to_python(
    s: SerV,
    v: ValueV,
    incl: Option<Seq<Seq<char>>>,
    exclude: Option<Seq<Seq<char>>>,
    extra: Extra,
) -> (ValueV, Seq<Seq<char>>)
    decreases v, ser_size(s), 0int,
{
    match s {
        SerV::Any => (v, Seq::empty()),
        SerV::TimeDelta => match extra.mode {
            SerMode::Json => match v {
                ValueV::Duration(d) => (ValueV::Str(duration_json(d)), Seq::empty()),
                _ => (v, seq!["timedelta"@]),
            },
            SerMode::Python => (v, Seq::empty()),
        },
        SerV::WithDefault { inner, .. } => spec_to_python(*inner, v, incl, exclude, extra),
        SerV::TypedDict(t) => match v {
            ValueV::Mapping(_) => {
                let (outs, warns) = spec_serialize_entries(t, v, incl, exclude, extra, 0);
                (ValueV::Mapping(outs), warns)
            }
            _ => (v, seq!["typed-dict"@]),
        },
    }
}

/// The per-entry pass of the typed-mapping serializer over the entries of
/// `parent` from `i` on, in input order: nulls skipped under `exclude_none`,
/// filtered keys skipped silently, a declared field suppressed when it
/// equals its default under `exclude_defaults` and otherwise serialized
/// under its rendered key, and an undeclared key kept as it stands exactly
/// when extra fields are allowed.
pub open spec fn spec_serialize_entries(
    t: TypedDictV,
    parent: ValueV,
    incl: Option<Seq<Seq<char>>>,
    exclude: Option<Seq<Seq<char>>>,
    extra: Extra,
    i: int,
) -> (Seq<(ValueV, ValueV)>, Seq<Seq<char>>)
    decreases parent, 0nat, parent->Mapping_0.len() - i,
    when parent is Mapping && i >= 0
    via spec_serialize_entries_decreases
{
    let entries = parent->Mapping_0;
    if i >= entries.len() {
        (Seq::empty(), Seq::empty())
    } else {
        let k = entries[i].0;
        let val = entries[i].1;
        let rest = spec_serialize_entries(t, parent, incl, exclude, extra, i + 1);
        if extra.exclude_none && val is Null {
            rest
        } else if !key_passes(t.schema_exclude, incl, exclude, k) {
            rest
        } else {
            match k {
                ValueV::Str(ks) => match field_lookup(t.fields, ks) {
                    Some(f) => if extra.exclude_defaults
                        && (ser_default(f.serializer) matches Some(dflt) && dflt == val) {
                        rest
                    } else {
                        let (ov, w) = spec_to_python(f.serializer, val, None, None, extra);
                        (seq![(ValueV::Str(rendered_key(ks, f, extra.by_alias)), ov)] + rest.0, w + rest.1)
                    },
                    None => if t.include_extra {
                        (seq![(k, val)] + rest.0, rest.1)
                    } else {
                        rest
                    },
                },
                _ => if t.include_extra {
                    (seq![(k, val)] + rest.0, rest.1)
                } else {
                    rest
                },
            }
        }
    }
}

/// The view of an optional key set handed down by a caller.
pub open spec fn opt_keys_view(o: Option<&Vec<String>>) -> Option<Seq<Seq<char>>> {
    match o {
        Some(v) => Some(v.deep_view()),
        None => None,
    }
}

/// Whether the set of names holds `key`.
fn contains_str(v: &Vec<String>, key: &String) -> (r: bool)
    ensures
        r == v.deep_view().contains(key@),
{
    let mut i: usize = 0;
    while i < v.len()
        invariant
            i <= v@.len(),
            forall|j: int| 0 <= j < i ==> v.deep_view()[j] != key@,
        decreases v@.len() - i,
    {
        if *key == v[i] {
            proof {
                assert(v.deep_view()[i as int] == key@);
            }
            return true;
        }
        proof {
            assert(v.deep_view()[i as int] == v@[i as int]@);
        }
        i = i + 1;
    }
    false
}

impl SchemaFilter {
    /// Decides whether the entry under `k` is serialized at all, combining
    /// this filter's schema-level exclusions with the caller's sets.
    /// Filtering is not an error path: a filtered key is skipped silently.
    pub fn key_filter(&self, k: &Value, incl: Option<&Vec<String>>, exclude: Option<&Vec<String>>) -> (r: bool)
        ensures
            r == key_passes(self.exclude.deep_view(), opt_keys_view(incl), opt_keys_view(exclude), value_view(*k)),
    {
        match k {
            Value::Str(ks) => {
                if let Some(e) = exclude {
                    if contains_str(e, ks) {
                        return false;
                    }
                }
                match incl {
                    Some(inc) => contains_str(inc, ks),
                    None => !contains_str(&self.exclude, ks),
                }
            }
            _ => true,
        }
    }
}

/// A key equal to `key` first occurs in `fields` at `j`: the lookup finds it.
proof fn lemma_field_lookup_hit(fields: Seq<(Seq<char>, FieldV)>, key: Seq<char>, j: int)
    requires
        0 <= j < fields.len(),
        fields[j].0 == key,
        forall|i: int| 0 <= i < j ==> fields[i].0 != key,
    ensures
        field_lookup(fields, key) == Some(fields[j].1),
    decreases j,
{
    if j > 0 {
        lemma_field_lookup_hit(fields.drop_first(), key, j - 1);
    }
}

/// No key in `fields` equals `key`: the lookup finds nothing.
proof fn lemma_field_lookup_miss(fields: Seq<(Seq<char>, FieldV)>, key: Seq<char>)
    requires
        forall|i: int| 0 <= i < fields.len() ==> fields[i].0 != key,
    ensures
        field_lookup(fields, key) is None,
    decreases fields.len(),
{
    if fields.len() > 0 {
        lemma_field_lookup_miss(fields.drop_first(), key);
    }
}

impl TypedDictSerializer {
    /// The index of the first declared field named `key`, if any.
    fn find_field(&self, key: &String) -> (r: Option<usize>)
        ensures
            (r matches Some(j) ==> j < self.fields@.len()
                && field_lookup(ser_field_views(*self), key@)
                    == Some(ser_field_views(*self)[j as int].1)
                && ser_field_views(*self)[j as int].0 == key@),
            (r is None ==> field_lookup(ser_field_views(*self), key@) is None),
    {
        let ghost fv = ser_field_views(*self);
        let mut i: usize = 0;
        while i < self.fields.len()
            invariant
                i <= self.fields@.len(),
                fv == ser_field_views(*self),
                fv.len() == self.fields@.len(),
                forall|j: int| 0 <= j < i ==> #[trigger] fv[j].0 != key@,
            decreases self.fields@.len() - i,
        {
            if *key == self.fields[i].0 {
                proof {
                    assert(fv[i as int].0 == key@);
                    lemma_field_lookup_hit(fv, key@, i as int);
                }
                return Some(i);
            }
            proof {
                assert(fv[i as int].0 == self.fields@[i as int].0@);
            }
            i = i + 1;
        }
        proof {
            lemma_field_lookup_miss(fv, key@);
        }
        None
    }
}

/// The field views of a typed-mapping serializer.
pub open spec fn ser_field_views(t: TypedDictSerializer) -> Seq<(Seq<char>, FieldV)> {
    ser_view(CombinedSerializer::TypedDict(t))->TypedDict_0.fields
}

#[via_fn]
proof fn spec_serialize_entries_decreases(
    t: TypedDictV,
    parent: ValueV,
    incl: Option<Seq<Seq<char>>>,
    exclude: Option<Seq<Seq<char>>>,
    extra: Extra,
    i: int,
) {
    let entries = parent->Mapping_0;
    if parent is Mapping && 0 <= i < entries.len() {
        assert(decreases_to!(parent => parent->Mapping_0));
        assert(decreases_to!(entries => entries[i]));
        assert(decreases_to!(entries[i] => entries[i].1));
    }
}

impl CombinedSerializer {
    /// Serializes `value` in native-output mode: exactly what
    /// [`spec_to_python`] denotes, with the fallback warnings appended to
    /// `warnings` in order.
    pub fn to_python(
        &self,
        value: &Value,
        incl: Option<&Vec<String>>,
        exclude: Option<&Vec<String>>,
        extra: &Extra,
        warnings: &mut Vec<String>,
    ) -> (r: Value)
        ensures
            ({
                let s = spec_to_python(ser_view(*self), value_view(*value),
                    opt_keys_view(incl), opt_keys_view(exclude), *extra);
                r.deep_view() == s.0
                    && final(warnings).deep_view() == old(warnings).deep_view() + s.1
            }),
        decreases value_view(*value), ser_size(ser_view(*self)), 1int,
    {
        match self {
            CombinedSerializer::Any => {
                let r = value.clone();
                proof {
                    assert(warnings.deep_view() =~= old(warnings).deep_view() + Seq::<Seq<char>>::empty());
                }
                r
            }
            CombinedSerializer::TimeDelta => {
                let json = match extra.mode {
                    SerMode::Json => true,
                    SerMode::Python => false,
                };
                if json {
                    match value {
                        Value::Duration(d) => {
                            let r = Value::Str(duration_to_iso(d));
                            proof {
                                assert(warnings.deep_view() =~= old(warnings).deep_view()
                                    + Seq::<Seq<char>>::empty());
                            }
                            r
                        }
                        _ => {
                            let ghost w0 = warnings.deep_view();
                            warnings.push("timedelta".to_owned());
                            let r = value.clone();
                            proof {
                                assert(warnings.deep_view() =~= w0 + seq!["timedelta"@]);
                            }
                            r
                        }
                    }
                } else {
                    let r = value.clone();
                    proof {
                        assert(warnings.deep_view() =~= old(warnings).deep_view()
                            + Seq::<Seq<char>>::empty());
                    }
                    r
                }
            }
            CombinedSerializer::WithDefault { inner, .. } => {
                inner.to_python(value, incl, exclude, extra, warnings)
            }
            CombinedSerializer::TypedDict(t) => self.typed_dict_to_python(t, value, incl, exclude, extra, warnings),
        }
    }

    /// The typed-mapping pass in native-output mode, preserving the input's
    /// key order.
    fn typed_dict_to_python(
        &self,
        t: &TypedDictSerializer,
        value: &Value,
        incl: Option<&Vec<String>>,
        exclude: Option<&Vec<String>>,
        extra: &Extra,
        warnings: &mut Vec<String>,
    ) -> (r: Value)
        requires
            *self is TypedDict,
            self->TypedDict_0 == *t,
        ensures
            ({
                let s = spec_to_python(ser_view(*self), value_view(*value),
                    opt_keys_view(incl), opt_keys_view(exclude), *extra);
                r.deep_view() == s.0
                    && final(warnings).deep_view() == old(warnings).deep_view() + s.1
            }),
        decreases value_view(*value), ser_size(ser_view(*self)), 0int,
    {
        let ghost tv = ser_view(*self)->TypedDict_0;
        let ghost parent = value_view(*value);
        let pairs = match value {
            Value::Mapping(pairs) => pairs,
            _ => {
                let ghost w0 = warnings.deep_view();
                warnings.push("typed-dict".to_owned());
                let r = value.clone();
                proof {
                    assert(warnings.deep_view() =~= w0 + seq!["typed-dict"@]);
                }
                return r;
            }
        };
        let ghost entries = parent->Mapping_0;
        let mut output: Vec<(Value, Value)> = Vec::new();
        let ghost w0 = warnings.deep_view();
        let mut i: usize = 0;
        while i < pairs.len()
            invariant
                i <= pairs.len(),
                *self is TypedDict,
                self->TypedDict_0 == *t,
                tv == ser_view(*self)->TypedDict_0,
                *value == Value::Mapping(*pairs),
                parent == value_view(*value),
                parent is Mapping,
                entries == parent->Mapping_0,
                entries.len() == pairs@.len(),
                w0 == old(warnings).deep_view(),
                ({
                    let full = spec_serialize_entries(tv, parent, opt_keys_view(incl),
                        opt_keys_view(exclude), *extra, 0);
                    let rest = spec_serialize_entries(tv, parent, opt_keys_view(incl),
                        opt_keys_view(exclude), *extra, i as int);
                    full.0 == output.deep_view() + rest.0
                        && warnings.deep_view() + rest.1 == w0 + full.1
                }),
            decreases pairs@.len() - i,
        {
            let ghost out0 = output.deep_view();
            let ghost wpre = warnings.deep_view();
            let ghost rest_i = spec_serialize_entries(tv, parent, opt_keys_view(incl),
                opt_keys_view(exclude), *extra, i as int);
            let ghost rest_n = spec_serialize_entries(tv, parent, opt_keys_view(incl),
                opt_keys_view(exclude), *extra, i + 1);
            proof {
                assert(decreases_to!(parent => parent->Mapping_0));
                assert(decreases_to!(entries => entries[i as int]));
                assert(decreases_to!(entries[i as int] => entries[i as int].1));
                assert(entries[i as int].0 == value_view(pairs@[i as int].0));
                assert(entries[i as int].1 == value_view(pairs@[i as int].1));
            }
            let k = &pairs[i].0;
            let val = &pairs[i].1;
            let skip_null = extra.exclude_none && match val {
                Value::Null => true,
                _ => false,
            };
            if skip_null {
                i = i + 1;
                continue;
            }
            if !t.filter.key_filter(k, incl, exclude) {
                i = i + 1;
                continue;
            }
            let mut handled = false;
            if let Value::Str(ks) = k {
                if let Some(j) = t.find_field(ks) {
                    let ghost f = field_lookup(tv.fields, ks@)->0;
                    let field = &t.fields[j].1;
                    proof {
                        assert(ser_field_views(*t)[j as int].1.serializer == ser_view(field.serializer));
                        assert(f.serializer == ser_view(field.serializer));
                        assert((f.alias is Some) == (field.alias is Some));
                        assert(f.alias matches Some(a) ==> field.alias matches Some(ea) && ea@ == a);
                    }
                    let suppress = if extra.exclude_defaults {
                        match &field.serializer {
                            CombinedSerializer::WithDefault { default, .. } => default.deep_eq(val),
                            _ => false,
                        }
                    } else {
                        false
                    };
                    if !suppress {
                        let ov = field.serializer.to_python(val, None, None, extra, warnings);
                        let out_key: String = if extra.by_alias {
                            match &field.alias {
                                Some(a) => a.clone(),
                                None => ks.clone(),
                            }
                        } else {
                            ks.clone()
                        };
                        output.push((Value::Str(out_key), ov));
                        proof {
                            let sp = spec_to_python(f.serializer, entries[i as int].1, None, None, *extra);
                            let pair = (ValueV::Str(rendered_key(ks@, f, extra.by_alias)), sp.0);
                            assert(output.deep_view() =~= out0 + seq![pair]);
                            assert(warnings.deep_view() =~= wpre + sp.1);
                            assert(rest_i == (seq![pair] + rest_n.0, sp.1 + rest_n.1));
                            assert(out0 + (seq![pair] + rest_n.0) =~= (out0 + seq![pair]) + rest_n.0);
                            assert((wpre + sp.1) + rest_n.1 =~= wpre + (sp.1 + rest_n.1));
                        }
                    } else {
                        proof {
                            assert(rest_i == rest_n);
                        }
                    }
                    handled = true;
                }
            }
            if !handled {
                if t.include_extra {
                    let nk = k.clone();
                    let nv = val.clone();
                    output.push((nk, nv));
                    proof {
                        let pair = (entries[i as int].0, entries[i as int].1);
                        assert(output.deep_view() =~= out0 + seq![pair]);
                        assert(rest_i == (seq![pair] + rest_n.0, rest_n.1));
                        assert(out0 + (seq![pair] + rest_n.0) =~= (out0 + seq![pair]) + rest_n.0);
                    }
                } else {
                    proof {
                        assert(rest_i == rest_n);
                    }
                }
            }
            i = i + 1;
        }
        proof {
            assert(spec_serialize_entries(tv, parent, opt_keys_view(incl),
                opt_keys_view(exclude), *extra, pairs@.len() as int)
                == (Seq::<(ValueV, ValueV)>::empty(), Seq::<Seq<char>>::empty()));
            assert(output.deep_view() + Seq::<(ValueV, ValueV)>::empty() =~= output.deep_view());
            assert(warnings.deep_view() + Seq::<Seq<char>>::empty() =~= warnings.deep_view());
        }
        let r = Value::Mapping(output);
        proof {
            assert(value_view(r)->Mapping_0 =~= r->Mapping_0.deep_view());
            assert(value_view(r) =~= ValueV::Mapping(r->Mapping_0.deep_view()));
        }
        r
    }
}

/// The serializer for durations: it needs nothing from its schema, so its
/// build step yields the duration member of the union directly.
#[derive(Debug)]
pub struct TimeDeltaSerializer;

impl TimeDeltaSerializer {
    pub fn build() -> (r: CombinedSerializer)
        ensures
            r is TimeDelta,
    {
        CombinedSerializer::TimeDelta
    }
}

/// One declared field in a typed-mapping schema: its name, its own schema,
/// an optional serialization alias, and whether it is excluded from output
/// unconditionally.
#[derive(Debug)]
pub struct SerFieldSchema {
    pub key: String,
    pub schema: Box<SerSchema>,
    pub serialization_alias: Option<String>,
    pub serialization_exclude: bool,
}

/// A declarative schema for the serializer tree.
#[derive(Debug)]
pub enum SerSchema {
    Any,
    TimeDelta,
    WithDefault { default: Value, inner: Box<SerSchema> },
    TypedDict { extra_behavior_allow: bool, fields: Vec<SerFieldSchema> },
}

/// The names of the fields flagged for unconditional exclusion, in
/// declaration order.
pub open spec fn excluded_keys(fs: Seq<SerFieldSchema>) -> Seq<Seq<char>>
    decreases fs.len(),
{
    if fs.len() == 0 {
        Seq::empty()
    } else {
        (if fs[0].serialization_exclude {
            seq![fs[0].key@]
        } else {
            Seq::<Seq<char>>::empty()
        }) + excluded_keys(fs.drop_first())
    }
}

/// The serializer that compiling a schema yields.
pub open spec fn build_ser_spec(s: SerSchema) -> SerV
    decreases s,
{
    match s {
        SerSchema::Any => SerV::Any,
        SerSchema::TimeDelta => SerV::TimeDelta,
        SerSchema::WithDefault { default, inner } => SerV::WithDefault {
            default: value_view(default),
            inner: Box::new(build_ser_spec(*inner)),
        },
        SerSchema::TypedDict { extra_behavior_allow, fields } => SerV::TypedDict(TypedDictV {
            fields: Seq::new(fields@.len(), |i: int|
                if 0 <= i < fields@.len() {
                    (fields@[i].key@, FieldV {
                        alias: match fields@[i].serialization_alias {
                            Some(a) => Some(a@),
                            None => None,
                        },
                        serializer: build_ser_spec(*fields@[i].schema),
                    })
                } else {
                    (Seq::empty(), FieldV { alias: None, serializer: SerV::Any })
                }),
            include_extra: extra_behavior_allow,
            schema_exclude: excluded_keys(fields@),
        }),
    }
}

impl CombinedSerializer {
    /// Compiles a serializer schema: per declared field its alias and its
    /// own serializer, and the unconditionally excluded names gathered into
    /// the filter; the extra-field policy is read off the schema.
    pub fn build(schema: &SerSchema) -> (r: CombinedSerializer)
        ensures
            ser_view(r) == build_ser_spec(*schema),
        decreases *schema,
    {
        match schema {
            SerSchema::Any => CombinedSerializer::Any,
            SerSchema::TimeDelta => CombinedSerializer::TimeDelta,
            SerSchema::WithDefault { default, inner } => {
                let r = CombinedSerializer::WithDefault {
                    default: default.clone(),
                    inner: Box::new(Self::build(inner)),
                };
                proof {
                    assert(ser_view(r) =~~= build_ser_spec(*schema));
                }
                r
            }
            SerSchema::TypedDict { extra_behavior_allow, fields } => {
                let ghost target = build_ser_spec(*schema)->TypedDict_0;
                let mut built: Vec<(String, TypedDictField)> = Vec::new();
                let mut excluded: Vec<String> = Vec::new();
                let mut i: usize = 0;
                proof {
                    assert(fields@.skip(0) =~= fields@);
                    assert(excluded.deep_view() + excluded_keys(fields@) =~= excluded_keys(fields@));
                }
                while i < fields.len()
                    invariant
                        i <= fields@.len(),
                        target == build_ser_spec(*schema)->TypedDict_0,
                        *schema matches SerSchema::TypedDict { fields: f2, .. } && f2 == *fields,
                        target.fields.len() == fields@.len(),
                        built@.len() == i,
                        forall|j: int| 0 <= j < i ==> (#[trigger] built@[j]).0@ == target.fields[j].0
                            && ser_view(built@[j].1.serializer) == target.fields[j].1.serializer
                            && (match built@[j].1.alias {
                                Some(a) => Some(a@),
                                None => None::<Seq<char>>,
                            }) == target.fields[j].1.alias,
                        excluded_keys(fields@) == excluded.deep_view() + excluded_keys(fields@.skip(i as int)),
                    decreases fields@.len() - i,
                {
                    let ghost exc0 = excluded.deep_view();
                    proof {
                        assert(fields@.skip(i as int)[0] == fields@[i as int]);
                        assert(fields@.skip(i as int).drop_first() =~= fields@.skip(i + 1));
                    }
                    let fs = &fields[i];
                    let ser = Self::build(&fs.schema);
                    let alias: Option<String> = match &fs.serialization_alias {
                        Some(a) => Some(a.clone()),
                        None => None,
                    };
                    built.push((fs.key.clone(), TypedDictField { alias, serializer: ser }));
                    if fs.serialization_exclude {
                        excluded.push(fs.key.clone());
                        proof {
                            assert(excluded.deep_view() =~= exc0 + seq![fields@[i as int].key@]);
                            assert(exc0 + (seq![fields@[i as int].key@] + excluded_keys(fields@.skip(i + 1)))
                                =~= (exc0 + seq![fields@[i as int].key@]) + excluded_keys(fields@.skip(i + 1)));
                        }
                    } else {
                        proof {
                            assert(exc0 + (Seq::<Seq<char>>::empty() + excluded_keys(fields@.skip(i + 1)))
                                =~= exc0 + excluded_keys(fields@.skip(i + 1)));
                        }
                    }
                    i = i + 1;
                }
                let t = TypedDictSerializer {
                    fields: built,
                    include_extra: *extra_behavior_allow,
                    filter: SchemaFilter { exclude: excluded },
                };
                let r = CombinedSerializer::TypedDict(t);
                proof {
                    assert(fields@.skip(fields@.len() as int) =~= Seq::<SerFieldSchema>::empty());
                    assert(r->TypedDict_0.filter.exclude.deep_view()
                        + Seq::<Seq<char>>::empty() =~= r->TypedDict_0.filter.exclude.deep_view());
                    let rv = ser_view(r)->TypedDict_0;
                    assert(rv.fields.len() == target.fields.len());
                    assert forall|j: int| 0 <= j < rv.fields.len()
                        implies rv.fields[j] == target.fields[j] by {
                        assert(rv.fields[j].1 =~~= target.fields[j].1);
                    }
                    assert(rv.fields =~= target.fields);
                    assert(rv.schema_exclude =~= target.schema_exclude);
                    assert(ser_view(r) =~~= build_ser_spec(*schema));
                }
                r
            }
        }
    }
}

/// What rendering `k` as a JSON object key yields for a duration-typed key:
/// the duration's text, else a warning and the generic key text, which does
/// not exist for a mapping — the one fatal case in serialization.
pub open spec fn spec_timedelta_json_key(k: ValueV) -> Result<(Seq<char>, Seq<Seq<char>>), ValErrorV> {
    match k {
        ValueV::Duration(d) => Ok((duration_json(d), Seq::empty())),
        _ => match key_str_of(k) {
            Some(s) => Ok((s, seq!["timedelta"@])),
            None => Err(ValErrorV::Internal("key is not serializable"@)),
        },
    }
}

/// What serializing `v` with `s` yields in the JSON-oriented stream form:
/// as the native form, but every emitted object key is rendered as text,
/// and an undeclared key that has no text form is a fatal error.
pub open spec fn spec_serde(
    s: SerV,
    v: ValueV,
    incl: Option<Seq<Seq<char>>>,
    exclude: Option<Seq<Seq<char>>>,
    extra: Extra,
) -> Result<(ValueV, Seq<Seq<char>>), ValErrorV>
    decreases v, ser_size(s), 1int,
{
    match s {
        SerV::Any => Ok((v, Seq::empty())),
        SerV::TimeDelta => match v {
            ValueV::Duration(d) => Ok((ValueV::Str(duration_json(d)), Seq::empty())),
            _ => Ok((v, seq!["timedelta"@])),
        },
        SerV::WithDefault { inner, .. } => spec_serde(*inner, v, incl, exclude, extra),
        SerV::TypedDict(t) => match v {
            ValueV::Mapping(_) => match spec_serde_entries(t, v, incl, exclude, extra, 0) {
                Ok((outs, warns)) => Ok((ValueV::Mapping(outs), warns)),
                Err(f) => Err(f),
            },
            _ => Ok((v, seq!["typed-dict"@])),
        },
    }
}

/// The per-entry pass of the typed-mapping serializer in JSON mode over the
/// entries of `parent` from `i` on: as the native pass, except that an
/// undeclared key is rendered as text, and fails the call when it has none.
pub open spec fn spec_serde_entries(
    t: TypedDictV,
    parent: ValueV,
    incl: Option<Seq<Seq<char>>>,
    exclude: Option<Seq<Seq<char>>>,
    extra: Extra,
    i: int,
) -> Result<(Seq<(ValueV, ValueV)>, Seq<Seq<char>>), ValErrorV>
    decreases parent, 0nat, parent->Mapping_0.len() - i,
    when parent is Mapping && i >= 0
    via spec_serde_entries_decreases
{
    let entries = parent->Mapping_0;
    if i >= entries.len() {
        Ok((Seq::empty(), Seq::empty()))
    } else {
        let k = entries[i].0;
        let val = entries[i].1;
        if extra.exclude_none && val is Null {
            spec_serde_entries(t, parent, incl, exclude, extra, i + 1)
        } else if !key_passes(t.schema_exclude, incl, exclude, k) {
            spec_serde_entries(t, parent, incl, exclude, extra, i + 1)
        } else {
            let hit = match k {
                ValueV::Str(ks) => field_lookup(t.fields, ks),
                _ => None,
            };
            match hit {
                Some(f) => if extra.exclude_defaults
                    && (ser_default(f.serializer) matches Some(dflt) && dflt == val) {
                    spec_serde_entries(t, parent, incl, exclude, extra, i + 1)
                } else {
                    match spec_serde(f.serializer, val, None, None, extra) {
                        Ok((ov, w)) => match spec_serde_entries(t, parent, incl, exclude, extra, i + 1) {
                            Ok((outs, warns)) => Ok((
                                seq![(ValueV::Str(rendered_key(k->Str_0, f, extra.by_alias)), ov)] + outs,
                                w + warns,
                            )),
                            Err(f2) => Err(f2),
                        },
                        Err(f2) => Err(f2),
                    }
                },
                None => if t.include_extra {
                    match key_str_of(k) {
                        Some(kstr) => match spec_serde_entries(t, parent, incl, exclude, extra, i + 1) {
                            Ok((outs, warns)) => Ok((seq![(ValueV::Str(kstr), val)] + outs, warns)),
                            Err(f2) => Err(f2),
                        },
                        None => Err(ValErrorV::Internal("key is not serializable"@)),
                    }
                } else {
                    spec_serde_entries(t, parent, incl, exclude, extra, i + 1)
                },
            }
        }
    }
}

#[via_fn]
proof fn spec_serde_entries_decreases(
    t: TypedDictV,
    parent: ValueV,
    incl: Option<Seq<Seq<char>>>,
    exclude: Option<Seq<Seq<char>>>,
    extra: Extra,
    i: int,
) {
    let entries = parent->Mapping_0;
    if parent is Mapping && 0 <= i < entries.len() {
        assert(decreases_to!(parent => parent->Mapping_0));
        assert(decreases_to!(entries => entries[i]));
        assert(decreases_to!(entries[i] => entries[i].1));
    }
}

impl CombinedSerializer {
    /// Renders a value standing as a JSON object key: a duration-typed key
    /// as its duration text, any other as its generic text form with a
    /// recorded warning, and a mapping key as the one fatal error.
    pub fn json_key(&self, key: &Value, warnings: &mut Vec<String>) -> (r: Result<String, ValError>)
        requires
            *self is TimeDelta,
        ensures
            ({
                let s = spec_timedelta_json_key(value_view(*key));
                &&& (r matches Ok(ks) ==> s matches Ok(p) && p.0 == ks@
                    && final(warnings).deep_view() == old(warnings).deep_view() + p.1)
                &&& (r matches Err(e) ==> s == Err::<(Seq<char>, Seq<Seq<char>>), ValErrorV>(e.deep_view())
                    && final(warnings)@ == old(warnings)@)
            }),
    {
        match key {
            Value::Duration(d) => {
                let r = duration_to_iso(d);
                proof {
                    assert(warnings.deep_view() =~= old(warnings).deep_view() + Seq::<Seq<char>>::empty());
                }
                Ok(r)
            }
            _ => {
                match key_to_string(key) {
                    Some(ks) => {
                        let ghost w0 = warnings.deep_view();
                        warnings.push("timedelta".to_owned());
                        proof {
                            assert(warnings.deep_view() =~= w0 + seq!["timedelta"@]);
                        }
                        Ok(ks)
                    }
                    None => {
                        let e = ValError::Internal("key is not serializable".to_owned());
                        proof {
                            reveal_strlit("key is not serializable");
                        }
                        Err(e)
                    }
                }
            }
        }
    }

    /// Serializes `value` into the JSON-oriented form: exactly what
    /// [`spec_serde`] denotes, with the fallback warnings appended in order.
    pub fn serde_serialize(
        &self,
        value: &Value,
        incl: Option<&Vec<String>>,
        exclude: Option<&Vec<String>>,
        extra: &Extra,
        warnings: &mut Vec<String>,
    ) -> (r: Result<Value, ValError>)
        ensures
            ({
                let s = spec_serde(ser_view(*self), value_view(*value),
                    opt_keys_view(incl), opt_keys_view(exclude), *extra);
                &&& (r matches Ok(v) ==> s matches Ok(p) && p.0 == v.deep_view()
                    && final(warnings).deep_view() == old(warnings).deep_view() + p.1)
                &&& (r matches Err(e) ==> s == Err::<(ValueV, Seq<Seq<char>>), ValErrorV>(e.deep_view()))
            }),
        decreases value_view(*value), ser_size(ser_view(*self)), 1int,
    {
        match self {
            CombinedSerializer::Any => {
                let r = value.clone();
                proof {
                    assert(warnings.deep_view() =~= old(warnings).deep_view() + Seq::<Seq<char>>::empty());
                }
                Ok(r)
            }
            CombinedSerializer::TimeDelta => match value {
                Value::Duration(d) => {
                    let r = Value::Str(duration_to_iso(d));
                    proof {
                        assert(warnings.deep_view() =~= old(warnings).deep_view() + Seq::<Seq<char>>::empty());
                    }
                    Ok(r)
                }
                _ => {
                    let ghost w0 = warnings.deep_view();
                    warnings.push("timedelta".to_owned());
                    let r = value.clone();
                    proof {
                        assert(warnings.deep_view() =~= w0 + seq!["timedelta"@]);
                    }
                    Ok(r)
                }
            },
            CombinedSerializer::WithDefault { inner, .. } => {
                inner.serde_serialize(value, incl, exclude, extra, warnings)
            }
            CombinedSerializer::TypedDict(t) => self.typed_dict_serde(t, value, incl, exclude, extra, warnings),
        }
    }

    /// The typed-mapping pass in JSON mode, preserving the input's key
    /// order and rendering every emitted key as text.
    fn typed_dict_serde(
        &self,
        t: &TypedDictSerializer,
        value: &Value,
        incl: Option<&Vec<String>>,
        exclude: Option<&Vec<String>>,
        extra: &Extra,
        warnings: &mut Vec<String>,
    ) -> (r: Result<Value, ValError>)
        requires
            *self is TypedDict,
            self->TypedDict_0 == *t,
        ensures
            ({
                let s = spec_serde(ser_view(*self), value_view(*value),
                    opt_keys_view(incl), opt_keys_view(exclude), *extra);
                &&& (r matches Ok(v) ==> s matches Ok(p) && p.0 == v.deep_view()
                    && final(warnings).deep_view() == old(warnings).deep_view() + p.1)
                &&& (r matches Err(e) ==> s == Err::<(ValueV, Seq<Seq<char>>), ValErrorV>(e.deep_view()))
            }),
        decreases value_view(*value), ser_size(ser_view(*self)), 0int,
    {
        let ghost tv = ser_view(*self)->TypedDict_0;
        let ghost parent = value_view(*value);
        let pairs = match value {
            Value::Mapping(pairs) => pairs,
            _ => {
                let ghost w0 = warnings.deep_view();
                warnings.push("typed-dict".to_owned());
                let r = value.clone();
                proof {
                    assert(warnings.deep_view() =~= w0 + seq!["typed-dict"@]);
                }
                return Ok(r);
            }
        };
        let ghost entries = parent->Mapping_0;
        let mut output: Vec<(Value, Value)> = Vec::new();
        let ghost w0 = warnings.deep_view();
        let mut i: usize = 0;
        while i < pairs.len()
            invariant
                i <= pairs.len(),
                *self is TypedDict,
                self->TypedDict_0 == *t,
                tv == ser_view(*self)->TypedDict_0,
                *value == Value::Mapping(*pairs),
                parent == value_view(*value),
                parent is Mapping,
                entries == parent->Mapping_0,
                entries.len() == pairs@.len(),
                w0 == old(warnings).deep_view(),
                ({
                    let full = spec_serde_entries(tv, parent, opt_keys_view(incl),
                        opt_keys_view(exclude), *extra, 0);
                    let rest = spec_serde_entries(tv, parent, opt_keys_view(incl),
                        opt_keys_view(exclude), *extra, i as int);
                    match rest {
                        Ok(rp) => full matches Ok(fp)
                            && fp.0 == output.deep_view() + rp.0
                            && warnings.deep_view() + rp.1 == w0 + fp.1,
                        Err(f) => full == Err::<(Seq<(ValueV, ValueV)>, Seq<Seq<char>>), ValErrorV>(f),
                    }
                }),
            decreases pairs@.len() - i,
        {
            let ghost out0 = output.deep_view();
            let ghost wpre = warnings.deep_view();
            let ghost rest_i = spec_serde_entries(tv, parent, opt_keys_view(incl),
                opt_keys_view(exclude), *extra, i as int);
            let ghost rest_n = spec_serde_entries(tv, parent, opt_keys_view(incl),
                opt_keys_view(exclude), *extra, i + 1);
            proof {
                assert(decreases_to!(parent => parent->Mapping_0));
                assert(decreases_to!(entries => entries[i as int]));
                assert(decreases_to!(entries[i as int] => entries[i as int].1));
                assert(entries[i as int].0 == value_view(pairs@[i as int].0));
                assert(entries[i as int].1 == value_view(pairs@[i as int].1));
            }
            let k = &pairs[i].0;
            let val = &pairs[i].1;
            let skip_null = extra.exclude_none && match val {
                Value::Null => true,
                _ => false,
            };
            if skip_null {
                i = i + 1;
                continue;
            }
            if !t.filter.key_filter(k, incl, exclude) {
                i = i + 1;
                continue;
            }
            let mut handled = false;
            if let Value::Str(ks) = k {
                if let Some(j) = t.find_field(ks) {
                    let ghost f = field_lookup(tv.fields, ks@)->0;
                    let field = &t.fields[j].1;
                    proof {
                        assert(ser_field_views(*t)[j as int].1.serializer == ser_view(field.serializer));
                        assert(f.serializer == ser_view(field.serializer));
                        assert((f.alias is Some) == (field.alias is Some));
                        assert(f.alias matches Some(a) ==> field.alias matches Some(ea) && ea@ == a);
                    }
                    let suppress = if extra.exclude_defaults {
                        match &field.serializer {
                            CombinedSerializer::WithDefault { default, .. } => default.deep_eq(val),
                            _ => false,
                        }
                    } else {
                        false
                    };
                    if !suppress {
                        let ov = match field.serializer.serde_serialize(val, None, None, extra, warnings) {
                            Ok(v) => v,
                            Err(e) => {
                                proof {
                                    assert(rest_i == Err::<(Seq<(ValueV, ValueV)>, Seq<Seq<char>>), ValErrorV>(e.deep_view()));
                                }
                                return Err(e);
                            }
                        };
                        let out_key: String = if extra.by_alias {
                            match &field.alias {
                                Some(a) => a.clone(),
                                None => ks.clone(),
                            }
                        } else {
                            ks.clone()
                        };
                        output.push((Value::Str(out_key), ov));
                        proof {
                            let sp = spec_serde(f.serializer, entries[i as int].1, None, None, *extra)->Ok_0;
                            let pair = (ValueV::Str(rendered_key(ks@, f, extra.by_alias)), sp.0);
                            assert(output.deep_view() =~= out0 + seq![pair]);
                            assert(warnings.deep_view() =~= wpre + sp.1);
                            if rest_n is Ok {
                                let rp = rest_n->Ok_0;
                                assert(rest_i matches Ok(ip) && ip.0 == seq![pair] + rp.0 && ip.1 == sp.1 + rp.1);
                                assert(out0 + (seq![pair] + rp.0) =~= (out0 + seq![pair]) + rp.0);
                                assert((wpre + sp.1) + rp.1 =~= wpre + (sp.1 + rp.1));
                            }
                        }
                    } else {
                        proof {
                            assert(rest_i == rest_n);
                        }
                    }
                    handled = true;
                }
            }
            if !handled {
                if t.include_extra {
                    let kstr = match key_to_string(k) {
                        Some(s) => s,
                        None => {
                            let e = ValError::Internal("key is not serializable".to_owned());
                            proof {
                                reveal_strlit("key is not serializable");
                                assert(rest_i == Err::<(Seq<(ValueV, ValueV)>, Seq<Seq<char>>), ValErrorV>(e.deep_view()));
                            }
                            return Err(e);
                        }
                    };
                    let nv = val.clone();
                    output.push((Value::Str(kstr), nv));
                    proof {
                        let pair = (ValueV::Str(key_str_of(entries[i as int].0)->0), entries[i as int].1);
                        assert(output.deep_view() =~= out0 + seq![pair]);
                        if rest_n is Ok {
                            let rp = rest_n->Ok_0;
                            assert(rest_i matches Ok(ip) && ip.0 == seq![pair] + rp.0 && ip.1 == rp.1);
                            assert(out0 + (seq![pair] + rp.0) =~= (out0 + seq![pair]) + rp.0);
                        }
                    }
                } else {
                    proof {
                        assert(rest_i == rest_n);
                    }
                }
            }
            i = i + 1;
        }
        proof {
            assert(spec_serde_entries(tv, parent, opt_keys_view(incl),
                opt_keys_view(exclude), *extra, pairs@.len() as int)
                == Ok::<(Seq<(ValueV, ValueV)>, Seq<Seq<char>>), ValErrorV>((
                    Seq::<(ValueV, ValueV)>::empty(), Seq::<Seq<char>>::empty())));
            assert(output.deep_view() + Seq::<(ValueV, ValueV)>::empty() =~= output.deep_view());
            assert(warnings.deep_view() + Seq::<Seq<char>>::empty() =~= warnings.deep_view());
        }
        let r = Value::Mapping(output);
        proof {
            assert(value_view(r)->Mapping_0 =~= r->Mapping_0.deep_view());
            assert(value_view(r) =~= ValueV::Mapping(r->Mapping_0.deep_view()));
        }
        Ok(r)
    }
}

// ---------------------------------------------------------------------------
// Laws of the typed-mapping serializer
// ---------------------------------------------------------------------------

/// A found field is a declared field.
proof fn lemma_field_lookup_index(fields: Seq<(Seq<char>, FieldV)>, key: Seq<char>)
    requires
        field_lookup(fields, key) is Some,
    ensures
        exists|fi: int| 0 <= fi < fields.len() && #[trigger] fields[fi]
            == (key, field_lookup(fields, key)->0),
    decreases fields.len(),
{
    if fields.len() > 0 {
        if fields[0].0 == key {
            assert(fields[0] == (key, field_lookup(fields, key)->0));
        } else {
            lemma_field_lookup_index(fields.drop_first(), key);
            let fi = choose|fi: int| 0 <= fi < fields.drop_first().len()
                && #[trigger] fields.drop_first()[fi] == (key, field_lookup(fields, key)->0);
            assert(fields[fi + 1] == (key, field_lookup(fields, key)->0));
        }
    }
}

/// Law of alias against canonical key: a declared field serializes under its
/// alias exactly when one is declared and aliasing is on, else under its
/// declared name; and an entry whose key hits a declared field, is not
/// filtered, not a suppressed null and not a suppressed default, emits its
/// rendered key first in the remaining output.
pub proof fn lemma_alias_emission(
    t: TypedDictV,
    parent: ValueV,
    incl: Option<Seq<Seq<char>>>,
    exclude: Option<Seq<Seq<char>>>,
    extra: Extra,
    i: int,
    ks: Seq<char>,
)
    requires
        parent is Mapping,
        0 <= i < parent->Mapping_0.len(),
        parent->Mapping_0[i].0 == ValueV::Str(ks),
        field_lookup(t.fields, ks) is Some,
        !(extra.exclude_none && parent->Mapping_0[i].1 is Null),
        key_passes(t.schema_exclude, incl, exclude, ValueV::Str(ks)),
        !(extra.exclude_defaults
            && (ser_default(field_lookup(t.fields, ks)->0.serializer)
                matches Some(dflt) && dflt == parent->Mapping_0[i].1)),
    ensures
        ({
            let f = field_lookup(t.fields, ks)->0;
            let outs = spec_serialize_entries(t, parent, incl, exclude, extra, i).0;
            &&& outs.len() > 0
            &&& outs[0].0 == ValueV::Str(rendered_key(ks, f, extra.by_alias))
            &&& (extra.by_alias && f.alias is Some ==> outs[0].0 == ValueV::Str(f.alias->0))
            &&& (!extra.by_alias ==> outs[0].0 == ValueV::Str(ks))
        }),
{
}

/// Law of default suppression: under `exclude_defaults`, an entry whose
/// declared field carries a default equal to the entry's value contributes
/// nothing; with the option off, an unfiltered non-null entry of a declared
/// field is always emitted.
pub proof fn lemma_default_suppression(
    t: TypedDictV,
    parent: ValueV,
    incl: Option<Seq<Seq<char>>>,
    exclude: Option<Seq<Seq<char>>>,
    extra: Extra,
    i: int,
    ks: Seq<char>,
)
    requires
        parent is Mapping,
        0 <= i < parent->Mapping_0.len(),
        parent->Mapping_0[i].0 == ValueV::Str(ks),
        field_lookup(t.fields, ks) is Some,
        !(extra.exclude_none && parent->Mapping_0[i].1 is Null),
        key_passes(t.schema_exclude, incl, exclude, ValueV::Str(ks)),
    ensures
        (extra.exclude_defaults
            && (ser_default(field_lookup(t.fields, ks)->0.serializer)
                matches Some(dflt) && dflt == parent->Mapping_0[i].1)
            ==> spec_serialize_entries(t, parent, incl, exclude, extra, i)
                == spec_serialize_entries(t, parent, incl, exclude, extra, i + 1)),
        (!extra.exclude_defaults
            ==> spec_serialize_entries(t, parent, incl, exclude, extra, i).0.len() > 0),
{
}

/// Law of the extra-field policy: with extra fields disallowed, every key in
/// the serialized output is the rendered key of a declared field — a key
/// absent from the declared set never appears, whatever the input holds.
pub proof fn lemma_extra_policy(
    t: TypedDictV,
    parent: ValueV,
    incl: Option<Seq<Seq<char>>>,
    exclude: Option<Seq<Seq<char>>>,
    extra: Extra,
    i: int,
)
    requires
        parent is Mapping,
        0 <= i,
        !t.include_extra,
    ensures
        ({
            let outs = spec_serialize_entries(t, parent, incl, exclude, extra, i).0;
            forall|j: int| 0 <= j < outs.len() ==> exists|fi: int|
                0 <= fi < t.fields.len()
                && (#[trigger] outs[j]).0 == ValueV::Str(rendered_key(
                    t.fields[fi].0, t.fields[fi].1, extra.by_alias))
        }),
    decreases parent->Mapping_0.len() - i,
{
    let entries = parent->Mapping_0;
    let outs = spec_serialize_entries(t, parent, incl, exclude, extra, i).0;
    if i >= entries.len() {
    } else {
        lemma_extra_policy(t, parent, incl, exclude, extra, i + 1);
        let rest = spec_serialize_entries(t, parent, incl, exclude, extra, i + 1).0;
        let k = entries[i as int].0;
        let val = entries[i as int].1;
        if !(extra.exclude_none && val is Null)
            && key_passes(t.schema_exclude, incl, exclude, k)
            && k is Str && field_lookup(t.fields, k->Str_0) is Some
            && !(extra.exclude_defaults
                && (ser_default(field_lookup(t.fields, k->Str_0)->0.serializer)
                    matches Some(dflt) && dflt == val)) {
            let ks = k->Str_0;
            let f = field_lookup(t.fields, ks)->0;
            lemma_field_lookup_index(t.fields, ks);
            let fi = choose|fi: int| 0 <= fi < t.fields.len() && #[trigger] t.fields[fi] == (ks, f);
            assert forall|j: int| 0 <= j < outs.len() implies exists|fx: int|
                0 <= fx < t.fields.len()
                && (#[trigger] outs[j]).0 == ValueV::Str(rendered_key(
                    t.fields[fx].0, t.fields[fx].1, extra.by_alias)) by {
                if j == 0 {
                    assert(outs[0].0 == ValueV::Str(rendered_key(t.fields[fi].0, t.fields[fi].1, extra.by_alias)));
                } else {
                    assert(outs[j] == rest[j - 1]);
                }
            }
        } else {
            assert(outs =~= rest);
        }
    }
}

} // verus!
