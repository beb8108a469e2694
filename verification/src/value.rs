//! The value model: one representation for the inputs and outputs of
//! validation and serialization — plain scalars, strings, durations and
//! order-preserving mappings — with a mathematical view, deep equality
//! and key rendering.

use vstd::prelude::*;
use crate::datetime::{RawDuration, digit_char, duration_iso_of};
use crate::datetime::duration_to_iso;

verus! {

broadcast use vstd::std_specs::vec::group_vec_axioms, vstd::seq::group_seq_axioms;

/// A value flowing through validators and serializers. A mapping is a
/// sequence of key-value pairs in insertion order; order is preserved, and
/// nothing here forces keys to be unique.
#[derive(Debug)]
pub enum Value {
    Null,
    Bool(bool),
    Int(i64),
    Str(String),
    Duration(RawDuration),
    Mapping(Vec<(Value, Value)>),
}

/// The mathematical form of a [`Value`].
#[verifier::ext_equal]
pub enum ValueV {
    Null,
    Bool(bool),
    Int(int),
    Str(Seq<char>),
    Duration(RawDuration),
    Mapping(Seq<(ValueV, ValueV)>),
}

/// The mathematical form of a value: scalars as themselves, strings as
/// character sequences, a mapping as the sequence of its pairs' forms.
pub open spec fn value_view(v: Value) -> ValueV
    decreases v,
{
    match v {
        Value::Null => ValueV::Null,
        Value::Bool(b) => ValueV::Bool(b),
        Value::Int(i) => ValueV::Int(i as int),
        Value::Str(s) => ValueV::Str(s@),
        Value::Duration(d) => ValueV::Duration(d),
        Value::Mapping(pairs) => ValueV::Mapping(
            Seq::new(pairs@.len(), |i: int|
                if 0 <= i < pairs@.len() {
                    (value_view(pairs@[i].0), value_view(pairs@[i].1))
                } else {
                    (ValueV::Null, ValueV::Null)
                })
        ),
    }
}

impl DeepView for Value {
    type V = ValueV;

    open spec fn deep_view(&self) -> ValueV {
        value_view(*self)
    }
}

impl Clone for Value {
    /// A clone has the same mathematical form.
    fn clone(&self) -> (r: Value)
        ensures
            r.deep_view() == self.deep_view(),
        decreases self,
    {
        match self {
            Value::Null => Value::Null,
            Value::Bool(b) => Value::Bool(*b),
            Value::Int(i) => Value::Int(*i),
            Value::Str(s) => Value::Str(s.clone()),
            Value::Duration(d) => Value::Duration(*d),
            Value::Mapping(pairs) => {
                let mut out: Vec<(Value, Value)> = Vec::new();
                let mut i: usize = 0;
                while i < pairs.len()
                    invariant
                        i <= pairs.len(),
                        out@.len() == i,
                        *self == Value::Mapping(*pairs),
                        forall|j: int| 0 <= j < i ==> #[trigger] value_view(out@[j].0) == value_view(pairs@[j].0)
                            && value_view(out@[j].1) == value_view(pairs@[j].1),
                    decreases pairs.len() - i,
                {
                    proof {
                        assert(decreases_to!(*self => self->Mapping_0));
                        assert(decreases_to!(*pairs => pairs@));
                        assert(decreases_to!(pairs@ => pairs@[i as int]));
                    }
                    let k = pairs[i].0.clone();
                    let v = pairs[i].1.clone();
                    out.push((k, v));
                    i = i + 1;
                }
                let r = Value::Mapping(out);
                proof {
                    let rv = value_view(r)->Mapping_0;
                    let dv = value_view(*self)->Mapping_0;
                    assert(rv.len() == out@.len());
                    assert(dv.len() == pairs@.len());
                    assert forall|j: int| 0 <= j < rv.len() implies rv[j] == dv[j] by {
                        assert(rv[j] == (value_view(out@[j].0), value_view(out@[j].1)));
                        assert(dv[j] == (value_view(pairs@[j].0), value_view(pairs@[j].1)));
                    }
                    assert(rv =~= dv);
                    assert(value_view(r) =~= value_view(*self));
                }
                r
            }
        }
    }
}

impl Value {
    /// Structural equality of the mathematical forms, decided in full depth.
    pub fn deep_eq(&self, other: &Value) -> (r: bool)
        ensures
            r == (self.deep_view() == other.deep_view()),
        decreases self,
    {
        match (self, other) {
            (Value::Null, Value::Null) => true,
            (Value::Bool(a), Value::Bool(b)) => a == b,
            (Value::Int(a), Value::Int(b)) => a == b,
            (Value::Str(a), Value::Str(b)) => *a == *b,
            (Value::Duration(a), Value::Duration(b)) => a == b,
            (Value::Mapping(a), Value::Mapping(b)) => {
                if a.len() != b.len() {
                    proof {
                        assert(value_view(*self)->Mapping_0.len() != value_view(*other)->Mapping_0.len());
                    }
                    return false;
                }
                let mut i: usize = 0;
                while i < a.len()
                    invariant
                        i <= a.len(),
                        a@.len() == b@.len(),
                        *self == Value::Mapping(*a),
                        *other == Value::Mapping(*b),
                        forall|j: int| 0 <= j < i ==> #[trigger] value_view(a@[j].0) == value_view(b@[j].0)
                            && value_view(a@[j].1) == value_view(b@[j].1),
                    decreases a.len() - i,
                {
                    proof {
                        assert(decreases_to!(*self => self->Mapping_0));
                        assert(decreases_to!(*a => a@));
                        assert(decreases_to!(a@ => a@[i as int]));
                    }
                    let kq = a[i].0.deep_eq(&b[i].0);
                    let vq = a[i].1.deep_eq(&b[i].1);
                    if !kq || !vq {
                        proof {
                            let sv = value_view(*self)->Mapping_0;
                            let ov = value_view(*other)->Mapping_0;
                            assert(sv[i as int] == (value_view(a@[i as int].0), value_view(a@[i as int].1)));
                            assert(ov[i as int] == (value_view(b@[i as int].0), value_view(b@[i as int].1)));
                            assert(sv[i as int] != ov[i as int]);
                        }
                        return false;
                    }
                    i = i + 1;
                }
                proof {
                    let sv = value_view(*self)->Mapping_0;
                    let ov = value_view(*other)->Mapping_0;
                    assert(sv.len() == a@.len());
                    assert(ov.len() == b@.len());
                    assert forall|j: int| 0 <= j < sv.len() implies sv[j] == ov[j] by {
                        assert(sv[j] == (value_view(a@[j].0), value_view(a@[j].1)));
                        assert(ov[j] == (value_view(b@[j].0), value_view(b@[j].1)));
                    }
                    assert(sv =~= ov);
                    assert(value_view(*self) =~= value_view(*other));
                }
                true
            }
            _ => false,
        }
    }
}

/// The decimal digit sequence of a non-negative number, most significant
/// first.
pub open spec fn dec_digits(n: int) -> Seq<char>
    decreases n,
{
    if n < 10 {
        seq![digit_char(n)]
    } else {
        dec_digits(n / 10).push(digit_char(n % 10))
    }
}

/// The decimal text of an integer: a minus sign for negative numbers, then
/// the digits of the magnitude.
pub open spec fn int_dec_str(n: int) -> Seq<char> {
    if n < 0 {
        seq!['-'] + dec_digits(-n)
    } else {
        dec_digits(n)
    }
}

fn push_dec_u64(s: &mut String, n: u64)
    ensures
        final(s)@ == old(s)@ + dec_digits(n as int),
    decreases n,
{
    if n < 10 {
        crate::datetime::push_digit(s, n as u32);
        proof {
            assert(s@ =~= old(s)@ + dec_digits(n as int));
        }
    } else {
        push_dec_u64(s, n / 10);
        crate::datetime::push_digit(s, (n % 10) as u32);
        proof {
            assert(s@ =~= old(s)@ + dec_digits(n as int));
        }
    }
}

/// The decimal text of `n`.
pub fn int_to_string(n: i64) -> (r: String)
    ensures
        r@ == int_dec_str(n as int),
{
    let mut s = String::new();
    if n < 0 {
        s.append("-");
        proof {
            reveal_strlit("-");
        }
        let m: u64 = (-(n as i128)) as u64;
        push_dec_u64(&mut s, m);
        proof {
            assert(s@ =~= int_dec_str(n as int));
        }
    } else {
        push_dec_u64(&mut s, n as u64);
        proof {
            assert(s@ =~= int_dec_str(n as int));
        }
    }
    s
}

/// The text a value renders to when it stands as an output key, if it can:
/// strings stand for themselves, the other scalars for their canonical text,
/// and a mapping for nothing.
pub open spec fn key_str_of(v: ValueV) -> Option<Seq<char>> {
    match v {
        ValueV::Null => Some("null"@),
        ValueV::Bool(b) => if b { Some("true"@) } else { Some("false"@) },
        ValueV::Int(i) => Some(int_dec_str(i)),
        ValueV::Str(s) => Some(s),
        ValueV::Duration(d) => Some(duration_iso_of(
            d.positive, d.day as int, d.second as int, d.microsecond as int)),
        ValueV::Mapping(_) => None::<Seq<char>>,
    }
}

/// Renders a value as an output key, or nothing for a mapping.
pub fn key_to_string(v: &Value) -> (r: Option<String>)
    ensures
        r matches Some(s) ==> key_str_of(v.deep_view()) == Some(s@),
        (r is Some) == (key_str_of(v.deep_view()) is Some),
{
    match v {
        Value::Null => {
            let mut s = String::new();
            s.append("null");
            proof {
                reveal_strlit("null");
                assert(s@ =~= "null"@);
            }
            Some(s)
        }
        Value::Bool(b) => {
            let mut s = String::new();
            if *b {
                s.append("true");
                proof {
                    reveal_strlit("true");
                    assert(s@ =~= "true"@);
                }
            } else {
                s.append("false");
                proof {
                    reveal_strlit("false");
                    assert(s@ =~= "false"@);
                }
            }
            Some(s)
        }
        Value::Int(i) => Some(int_to_string(*i)),
        Value::Str(s) => Some(s.clone()),
        Value::Duration(d) => Some(duration_to_iso(d)),
        Value::Mapping(_) => None,
    }
}

/// The location item a mapping key contributes to an error path: an index
/// for a non-negative machine-sized integer, else the key's text.
pub open spec fn key_loc_of(k: ValueV) -> crate::errors::LocItemV {
    match k {
        ValueV::Int(i) => if 0 <= i <= usize::MAX {
            crate::errors::LocItemV::Index(i)
        } else {
            crate::errors::LocItemV::Key(int_dec_str(i))
        },
        _ => match key_str_of(k) {
            Some(s) => crate::errors::LocItemV::Key(s),
            None => crate::errors::LocItemV::Key(Seq::empty()),
        },
    }
}

/// Renders a value as one step of an error location path.
pub fn as_loc_item(v: &Value) -> (r: crate::errors::LocItem)
    ensures
        r.deep_view() == key_loc_of(value_view(*v)),
{
    match v {
        Value::Int(i) => {
            if *i >= 0 && (*i as u64) <= (usize::MAX as u64) {
                crate::errors::LocItem::Index(*i as usize)
            } else {
                crate::errors::LocItem::Key(int_to_string(*i))
            }
        }
        _ => {
            match key_to_string(v) {
                Some(s) => crate::errors::LocItem::Key(s),
                None => crate::errors::LocItem::Key(String::new()),
            }
        }
    }
}

} // verus!
