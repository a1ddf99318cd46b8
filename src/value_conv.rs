//! Conversions into and between the value trees.
use crate::pack_value::{lemma_pairs_model, lemma_values_model, size};
use crate::value::{
    lemma_pairs_strings_wf_at, lemma_ref_pairs_strings_wf_at, lemma_ref_values_strings_wf_at,
    lemma_values_strings_wf_at, pairs_strings_wf, ref_pairs_strings_wf, ref_strings_wf,
    ref_values_strings_wf, strings_wf, values_strings_wf, int_of, pairs_model, ref_model, ref_pairs_model, ref_values_model, values_model,
    Integer, RefValue, Utf8String, Utf8StringRef, Value, ValueModel,
};
use vstd::prelude::*;
use vstd::slice::slice_to_vec;
use vstd::std_specs::convert::FromSpecImpl;

verus! {

pub proof fn lemma_ref_values_model<'a>(vs: Seq<RefValue<'a>>)
    ensures
        ref_values_model(vs).len() == vs.len(),
        forall|i: int| 0 <= i < vs.len() ==> #[trigger] ref_values_model(vs)[i] == ref_model(vs[i]),
    decreases vs.len(),
{
    if vs.len() > 0 {
        lemma_ref_values_model(vs.drop_last());
    }
}

pub proof fn lemma_ref_pairs_model<'a>(ps: Seq<(RefValue<'a>, RefValue<'a>)>)
    ensures
        ref_pairs_model(ps).len() == ps.len(),
        forall|i: int|
            0 <= i < ps.len() ==> #[trigger] ref_pairs_model(ps)[i] == (
                ref_model(ps[i].0),
                ref_model(ps[i].1),
            ),
    decreases ps.len(),
{
    if ps.len() > 0 {
        lemma_ref_pairs_model(ps.drop_last());
    }
}

impl Value {
    /// A borrowed view of the same tree.
    pub fn to_ref(&self) -> (r: RefValue<'_>)
        ensures
            r@ == self@,
            strings_wf(*self) ==> ref_strings_wf(r),
        decreases size(self@),
    {
        match self {
            Value::Nil => RefValue::Nil,
            Value::Boolean(v) => RefValue::Boolean(*v),
            Value::Float(v) => RefValue::Float(*v),
            Value::Integer(v) => RefValue::Integer(*v),
            Value::Binary(v) => RefValue::Binary(v.as_slice()),
            Value::String(v) => RefValue::String(v.as_ref()),
            Value::Array(vs) => {
                let ghost ms = values_model(vs@);
                proof {
                    lemma_values_model(vs@);
                }
                let mut out: Vec<RefValue<'_>> = Vec::new();
                let mut i: usize = 0;
                while i < vs.len()
                    invariant
                        i <= vs@.len() == ms.len(),
                        self@ == ValueModel::Array(ms),
                        forall|j: int| 0 <= j < ms.len() ==> #[trigger] ms[j] == vs@[j]@,
                        ref_values_model(out@) == ms.take(i as int),
                        strings_wf(*self) ==> values_strings_wf(vs@),
                        strings_wf(*self) ==> ref_values_strings_wf(out@),
                    decreases vs@.len() - i,
                {
                    proof {
                        crate::pack_value::lemma_size_seq(ms, i as int);
                        if strings_wf(*self) {
                            lemma_values_strings_wf_at(vs@, i as int);
                        }
                    }
                    let e = vs[i].to_ref();
                    proof {
                        assert(out@.push(e).drop_last() =~= out@);
                        assert(ms.take(i + 1) =~= ms.take(i as int).push(ms[i as int]));
                    }
                    out.push(e);
                    i = i + 1;
                }
                assert(ms.take(i as int) =~= ms);
                RefValue::Array(out)
            },
            Value::Pairs(ps) => {
                let ghost ms = pairs_model(ps@);
                proof {
                    lemma_pairs_model(ps@);
                }
                let mut out: Vec<(RefValue<'_>, RefValue<'_>)> = Vec::new();
                let mut i: usize = 0;
                while i < ps.len()
                    invariant
                        i <= ps@.len() == ms.len(),
                        self@ == ValueModel::Pairs(ms),
                        forall|j: int| 0 <= j < ms.len() ==> #[trigger] ms[j] == (ps@[j].0@, ps@[j].1@),
                        ref_pairs_model(out@) == ms.take(i as int),
                        strings_wf(*self) ==> pairs_strings_wf(ps@),
                        strings_wf(*self) ==> ref_pairs_strings_wf(out@),
                    decreases ps@.len() - i,
                {
                    proof {
                        crate::pack_value::lemma_size_pairs(ms, i as int);
                    }
                    let pair = &ps[i];
                    assert(ms[i as int] == (pair.0@, pair.1@));
                    proof {
                        if strings_wf(*self) {
                            lemma_pairs_strings_wf_at(ps@, i as int);
                        }
                    }
                    let k = pair.0.to_ref();
                    let v = pair.1.to_ref();
                    proof {
                        assert(out@.push((k, v)).drop_last() =~= out@);
                        assert(ms.take(i + 1) =~= ms.take(i as int).push(ms[i as int]));
                    }
                    out.push((k, v));
                    i = i + 1;
                }
                assert(ms.take(i as int) =~= ms);
                RefValue::Pairs(out)
            },
            Value::Extension(ty, buf) => RefValue::Extension(*ty, buf.as_slice()),
            Value::Timestamp(sec, nsec) => RefValue::Timestamp(*sec, *nsec),
        }
    }
}

impl<'a> RefValue<'a> {
    /// An owned copy of the same tree.
    pub fn to_owned(&self) -> (r: Value)
        ensures
            r@ == self@,
            ref_strings_wf(*self) ==> strings_wf(r),
        decreases size(self@),
    {
        match self {
            RefValue::Nil => Value::Nil,
            RefValue::Boolean(v) => Value::Boolean(*v),
            RefValue::Integer(v) => Value::Integer(*v),
            RefValue::Float(v) => Value::Float(*v),
            RefValue::Binary(v) => Value::Binary(slice_to_vec(v)),
            RefValue::String(v) => Value::String(v.to_owned_string()),
            RefValue::Array(vs) => {
                let ghost ms = ref_values_model(vs@);
                proof {
                    lemma_ref_values_model(vs@);
                }
                let mut out: Vec<Value> = Vec::new();
                let mut i: usize = 0;
                while i < vs.len()
                    invariant
                        i <= vs@.len() == ms.len(),
                        self@ == ValueModel::Array(ms),
                        forall|j: int| 0 <= j < ms.len() ==> #[trigger] ms[j] == vs@[j]@,
                        values_model(out@) == ms.take(i as int),
                        ref_strings_wf(*self) ==> ref_values_strings_wf(vs@),
                        ref_strings_wf(*self) ==> values_strings_wf(out@),
                    decreases vs@.len() - i,
                {
                    proof {
                        crate::pack_value::lemma_size_seq(ms, i as int);
                        if ref_strings_wf(*self) {
                            lemma_ref_values_strings_wf_at(vs@, i as int);
                        }
                    }
                    let e = vs[i].to_owned();
                    proof {
                        assert(out@.push(e).drop_last() =~= out@);
                        assert(ms.take(i + 1) =~= ms.take(i as int).push(ms[i as int]));
                    }
                    out.push(e);
                    i = i + 1;
                }
                assert(ms.take(i as int) =~= ms);
                Value::Array(out)
            },
            RefValue::Pairs(ps) => {
                let ghost ms = ref_pairs_model(ps@);
                proof {
                    lemma_ref_pairs_model(ps@);
                }
                let mut out: Vec<(Value, Value)> = Vec::new();
                let mut i: usize = 0;
                while i < ps.len()
                    invariant
                        i <= ps@.len() == ms.len(),
                        self@ == ValueModel::Pairs(ms),
                        forall|j: int| 0 <= j < ms.len() ==> #[trigger] ms[j] == (ps@[j].0@, ps@[j].1@),
                        pairs_model(out@) == ms.take(i as int),
                        ref_strings_wf(*self) ==> ref_pairs_strings_wf(ps@),
                        ref_strings_wf(*self) ==> pairs_strings_wf(out@),
                    decreases ps@.len() - i,
                {
                    proof {
                        crate::pack_value::lemma_size_pairs(ms, i as int);
                    }
                    let pair = &ps[i];
                    assert(ms[i as int] == (pair.0@, pair.1@));
                    proof {
                        if ref_strings_wf(*self) {
                            lemma_ref_pairs_strings_wf_at(ps@, i as int);
                        }
                    }
                    let k = pair.0.to_owned();
                    let v = pair.1.to_owned();
                    proof {
                        assert(out@.push((k, v)).drop_last() =~= out@);
                        assert(ms.take(i + 1) =~= ms.take(i as int).push(ms[i as int]));
                    }
                    out.push((k, v));
                    i = i + 1;
                }
                assert(ms.take(i as int) =~= ms);
                Value::Pairs(out)
            },
            RefValue::Extension(ty, buf) => Value::Extension(*ty, slice_to_vec(buf)),
            RefValue::Timestamp(sec, nsec) => Value::Timestamp(*sec, *nsec),
        }
    }
}

impl From<u8> for Value {
    fn from(v: u8) -> (r: Value) {
        Value::Integer(Integer::from_u64(v as u64))
    }
}

impl FromSpecImpl<u8> for Value {
    open spec fn obeys_from_spec() -> bool {
        true
    }

    open spec fn from_spec(v: u8) -> Value {
        Value::Integer(int_of(v as int))
    }
}

impl From<u16> for Value {
    fn from(v: u16) -> (r: Value) {
        Value::Integer(Integer::from_u64(v as u64))
    }
}

impl FromSpecImpl<u16> for Value {
    open spec fn obeys_from_spec() -> bool {
        true
    }

    open spec fn from_spec(v: u16) -> Value {
        Value::Integer(int_of(v as int))
    }
}

impl From<u32> for Value {
    fn from(v: u32) -> (r: Value) {
        Value::Integer(Integer::from_u64(v as u64))
    }
}

impl FromSpecImpl<u32> for Value {
    open spec fn obeys_from_spec() -> bool {
        true
    }

    open spec fn from_spec(v: u32) -> Value {
        Value::Integer(int_of(v as int))
    }
}

impl From<u64> for Value {
    fn from(v: u64) -> (r: Value) {
        Value::Integer(Integer::from_u64(v))
    }
}

impl FromSpecImpl<u64> for Value {
    open spec fn obeys_from_spec() -> bool {
        true
    }

    open spec fn from_spec(v: u64) -> Value {
        Value::Integer(int_of(v as int))
    }
}

impl From<i8> for Value {
    fn from(v: i8) -> (r: Value) {
        Value::Integer(Integer::from_i64(v as i64))
    }
}

impl FromSpecImpl<i8> for Value {
    open spec fn obeys_from_spec() -> bool {
        true
    }

    open spec fn from_spec(v: i8) -> Value {
        Value::Integer(int_of(v as int))
    }
}

impl From<i16> for Value {
    fn from(v: i16) -> (r: Value) {
        Value::Integer(Integer::from_i64(v as i64))
    }
}

impl FromSpecImpl<i16> for Value {
    open spec fn obeys_from_spec() -> bool {
        true
    }

    open spec fn from_spec(v: i16) -> Value {
        Value::Integer(int_of(v as int))
    }
}

impl From<i32> for Value {
    fn from(v: i32) -> (r: Value) {
        Value::Integer(Integer::from_i64(v as i64))
    }
}

impl FromSpecImpl<i32> for Value {
    open spec fn obeys_from_spec() -> bool {
        true
    }

    open spec fn from_spec(v: i32) -> Value {
        Value::Integer(int_of(v as int))
    }
}

impl From<i64> for Value {
    fn from(v: i64) -> (r: Value) {
        Value::Integer(Integer::from_i64(v))
    }
}

impl FromSpecImpl<i64> for Value {
    open spec fn obeys_from_spec() -> bool {
        true
    }

    open spec fn from_spec(v: i64) -> Value {
        Value::Integer(int_of(v as int))
    }
}

impl From<bool> for Value {
    fn from(v: bool) -> (r: Value) {
        Value::Boolean(v)
    }
}

impl FromSpecImpl<bool> for Value {
    open spec fn obeys_from_spec() -> bool {
        true
    }

    open spec fn from_spec(v: bool) -> Value {
        Value::Boolean(v)
    }
}

impl From<String> for Value {
    fn from(v: String) -> (r: Value) {
        Value::String(Utf8String { s: Ok(v) })
    }
}

impl FromSpecImpl<String> for Value {
    open spec fn obeys_from_spec() -> bool {
        true
    }

    open spec fn from_spec(v: String) -> Value {
        Value::String(Utf8String { s: Ok(v) })
    }
}

impl<'a> From<u8> for RefValue<'a> {
    fn from(v: u8) -> (r: RefValue<'a>) {
        RefValue::Integer(Integer::from_u64(v as u64))
    }
}

impl<'a> FromSpecImpl<u8> for RefValue<'a> {
    open spec fn obeys_from_spec() -> bool {
        true
    }

    open spec fn from_spec(v: u8) -> RefValue<'a> {
        RefValue::Integer(int_of(v as int))
    }
}

impl<'a> From<u64> for RefValue<'a> {
    fn from(v: u64) -> (r: RefValue<'a>) {
        RefValue::Integer(Integer::from_u64(v))
    }
}

impl<'a> FromSpecImpl<u64> for RefValue<'a> {
    open spec fn obeys_from_spec() -> bool {
        true
    }

    open spec fn from_spec(v: u64) -> RefValue<'a> {
        RefValue::Integer(int_of(v as int))
    }
}

impl<'a> From<i8> for RefValue<'a> {
    fn from(v: i8) -> (r: RefValue<'a>) {
        RefValue::Integer(Integer::from_i64(v as i64))
    }
}

impl<'a> FromSpecImpl<i8> for RefValue<'a> {
    open spec fn obeys_from_spec() -> bool {
        true
    }

    open spec fn from_spec(v: i8) -> RefValue<'a> {
        RefValue::Integer(int_of(v as int))
    }
}

impl<'a> From<i64> for RefValue<'a> {
    fn from(v: i64) -> (r: RefValue<'a>) {
        RefValue::Integer(Integer::from_i64(v))
    }
}

impl<'a> FromSpecImpl<i64> for RefValue<'a> {
    open spec fn obeys_from_spec() -> bool {
        true
    }

    open spec fn from_spec(v: i64) -> RefValue<'a> {
        RefValue::Integer(int_of(v as int))
    }
}

impl<'a> From<bool> for RefValue<'a> {
    fn from(v: bool) -> (r: RefValue<'a>) {
        RefValue::Boolean(v)
    }
}

impl<'a> FromSpecImpl<bool> for RefValue<'a> {
    open spec fn obeys_from_spec() -> bool {
        true
    }

    open spec fn from_spec(v: bool) -> RefValue<'a> {
        RefValue::Boolean(v)
    }
}

impl<'a> From<&'a str> for RefValue<'a> {
    fn from(v: &'a str) -> (r: RefValue<'a>) {
        RefValue::String(Utf8StringRef { s: Ok(v) })
    }
}

impl<'a> FromSpecImpl<&'a str> for RefValue<'a> {
    open spec fn obeys_from_spec() -> bool {
        true
    }

    open spec fn from_spec(v: &'a str) -> RefValue<'a> {
        RefValue::String(Utf8StringRef { s: Ok(v) })
    }
}

} // verus!
