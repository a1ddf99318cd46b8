//! The dynamic value trees: `Value` owns its payloads, `RefValue` borrows
//! them from the bytes it was decoded from. Both have the same mathematical
//! model, `ValueModel`, in which strings and binaries are byte sequences.
use crate::text::{str_from_utf8, string_from_utf8};
use std::str::Utf8Error;
use vstd::prelude::*;
use vstd::slice::slice_to_vec;
use vstd::string::StringSliceAdditionalSpecFns;
use vstd::utf8::{decode_utf8_encode_utf8, encode_utf8, encode_utf8_valid_utf8, valid_utf8};

verus! {

broadcast use {decode_utf8_encode_utf8, encode_utf8_valid_utf8};

/// The sign domain of an integer: a positive one is kept as `u64`, a
/// negative one as `i64`, so that no value is narrowed on a round trip.
#[derive(Debug, Clone, Copy, PartialEq, Eq, Structural)]
pub enum Number {
    PosInt(u64),
    NegInt(i64),
}

#[derive(Debug, Clone, Copy, PartialEq, Eq, Structural)]
pub struct Integer {
    pub n: Number,
}

/// The canonical integer for a number: non-negative numbers are `PosInt`.
pub open spec fn int_of(v: int) -> Integer {
    if v >= 0 {
        Integer { n: Number::PosInt(v as u64) }
    } else {
        Integer { n: Number::NegInt(v as i64) }
    }
}

impl Integer {
    pub open spec fn value(self) -> int {
        match self.n {
            Number::PosInt(v) => v as int,
            Number::NegInt(v) => v as int,
        }
    }

    /// Canonical: the negative kind holds negative numbers only.
    pub open spec fn wf(self) -> bool {
        self.n matches Number::NegInt(v) ==> v < 0
    }

    pub fn from_u64(v: u64) -> (r: Integer)
        ensures
            r == int_of(v as int),
    {
        Integer { n: Number::PosInt(v) }
    }

    pub fn from_i64(v: i64) -> (r: Integer)
        ensures
            r == int_of(v as int),
    {
        if v >= 0 {
            Integer { n: Number::PosInt(v as u64) }
        } else {
            Integer { n: Number::NegInt(v) }
        }
    }
}

/// A float of either width, held as its IEEE 754 bit pattern.
#[derive(Debug, Clone, Copy, PartialEq, Eq, Structural)]
pub enum FloatNumber {
    Float32(u32),
    Float64(u64),
}

#[derive(Debug, Clone, Copy, PartialEq, Eq, Structural)]
pub struct Float {
    pub n: FloatNumber,
}

/// A string that may hold bytes that are not UTF-8: either text, or the raw
/// bytes with the error that validating them gave.
#[derive(Debug, PartialEq)]
pub struct Utf8String {
    pub s: Result<String, (Vec<u8>, Utf8Error)>,
}

impl Utf8String {
    /// The bytes of the string, as they stand on the wire.
    pub open spec fn bytes(&self) -> Seq<u8> {
        match self.s {
            Ok(t) => encode_utf8(t@),
            Err((b, _)) => b@,
        }
    }

    /// Raw bytes are kept only when they are not valid UTF-8.
    pub open spec fn wf(&self) -> bool {
        self.s matches Err((b, _)) ==> !valid_utf8(b@)
    }

    pub fn new(s: String) -> (r: Self)
        ensures
            r.s == Ok::<String, (Vec<u8>, Utf8Error)>(s),
    {
        Self { s: Ok(s) }
    }

    pub fn is_str(&self) -> (r: bool)
        ensures
            r == self.s is Ok,
    {
        self.s.is_ok()
    }

    pub fn is_err(&self) -> (r: bool)
        ensures
            r == self.s is Err,
    {
        self.s.is_err()
    }

    pub fn as_str(&self) -> (r: Option<&str>)
        ensures
            r is Some == self.s is Ok,
            r matches Some(t) ==> t@ == self.s->Ok_0@,
    {
        match &self.s {
            Ok(s) => Some(s.as_str()),
            Err(_) => None,
        }
    }

    pub fn into_string(self) -> (r: Option<String>)
        ensures
            r is Some == self.s is Ok,
            r matches Some(t) ==> t == self.s->Ok_0,
    {
        match self.s {
            Ok(s) => Some(s),
            Err(_) => None,
        }
    }

    pub fn as_slice(&self) -> (r: &[u8])
        ensures
            r@ == self.bytes(),
    {
        match &self.s {
            Ok(s) => s.as_str().as_bytes(),
            Err((v, _)) => v.as_slice(),
        }
    }

    pub fn into_err(self) -> (r: Option<Utf8Error>)
        ensures
            r is Some == self.s is Err,
    {
        match self.s {
            Ok(_) => None,
            Err((_, err)) => Some(err),
        }
    }

    pub fn as_ref(&self) -> (r: Utf8StringRef<'_>)
        ensures
            r.bytes() == self.bytes(),
            r.s is Ok == self.s is Ok,
            self.wf() ==> r.wf(),
    {
        match &self.s {
            Ok(s) => Utf8StringRef { s: Ok(s.as_str()) },
            Err((buf, err)) => Utf8StringRef { s: Err((buf.as_slice(), *err)) },
        }
    }
}

impl From<String> for Utf8String {
    fn from(val: String) -> (r: Self) {
        Utf8String { s: Ok(val) }
    }
}

impl vstd::std_specs::convert::FromSpecImpl<String> for Utf8String {
    open spec fn obeys_from_spec() -> bool {
        true
    }

    open spec fn from_spec(v: String) -> Utf8String {
        Utf8String { s: Ok(v) }
    }
}

/// Validates bytes into a string value; the bytes are kept either way.
pub fn utf8_string_from_bytes(val: Vec<u8>) -> (r: Utf8String)
    ensures
        r.bytes() == val@,
        r.wf(),
        r.s is Ok <==> valid_utf8(val@),
{
    match string_from_utf8(val) {
        Ok(s) => Utf8String { s: Ok(s) },
        Err((bytes, e)) => Utf8String { s: Err((bytes, e)) },
    }
}

/// The borrowed twin of `Utf8String`.
#[derive(Clone, Copy, Debug, PartialEq)]
pub struct Utf8StringRef<'a> {
    pub s: Result<&'a str, (&'a [u8], Utf8Error)>,
}

impl<'a> Utf8StringRef<'a> {
    pub open spec fn bytes(&self) -> Seq<u8> {
        match self.s {
            Ok(t) => encode_utf8(t@),
            Err((b, _)) => b@,
        }
    }

    pub open spec fn wf(&self) -> bool {
        self.s matches Err((b, _)) ==> !valid_utf8(b@)
    }

    pub fn new(s: &'a str) -> (r: Self)
        ensures
            r.s == Ok::<&'a str, (&'a [u8], Utf8Error)>(s),
    {
        Self { s: Ok(s) }
    }

    pub fn is_str(&self) -> (r: bool)
        ensures
            r == self.s is Ok,
    {
        self.s.is_ok()
    }

    pub fn is_err(&self) -> (r: bool)
        ensures
            r == self.s is Err,
    {
        self.s.is_err()
    }

    pub fn as_str(&self) -> (r: Option<&'a str>)
        ensures
            r is Some == self.s is Ok,
            r matches Some(t) ==> t@ == self.s->Ok_0@,
    {
        match self.s {
            Ok(s) => Some(s),
            Err(_) => None,
        }
    }

    pub fn into_str(self) -> (r: Option<String>)
        ensures
            r is Some == self.s is Ok,
            r matches Some(t) ==> t@ == self.s->Ok_0@,
    {
        match self.s {
            Ok(s) => Some(s.to_owned()),
            Err(_) => None,
        }
    }

    pub fn as_slice(&self) -> (r: &'a [u8])
        ensures
            r@ == self.bytes(),
    {
        match self.s {
            Ok(s) => s.as_bytes(),
            Err((v, _)) => v,
        }
    }

    pub fn into_err(self) -> (r: Option<Utf8Error>)
        ensures
            r is Some == self.s is Err,
    {
        match self.s {
            Ok(_) => None,
            Err((_, err)) => Some(err),
        }
    }

    /// Validates borrowed bytes: text when they are UTF-8, else the raw bytes.
    pub fn from_slice(val: &'a [u8]) -> (r: Self)
        ensures
            r.bytes() == val@,
            r.wf(),
            r.s is Ok <==> valid_utf8(val@),
    {
        match str_from_utf8(val) {
            Ok(s) => Utf8StringRef { s: Ok(s) },
            Err(err) => Utf8StringRef { s: Err((val, err)) },
        }
    }

    /// An owned copy.
    pub fn to_owned_string(&self) -> (r: Utf8String)
        ensures
            r.bytes() == self.bytes(),
            r.s is Ok == self.s is Ok,
            self.wf() ==> r.wf(),
    {
        match self.s {
            Ok(s) => Utf8String { s: Ok(s.to_owned()) },
            Err((buf, err)) => Utf8String { s: Err((slice_to_vec(buf), err)) },
        }
    }
}

impl<'a> From<&'a str> for Utf8StringRef<'a> {
    fn from(val: &'a str) -> (r: Self) {
        Utf8StringRef { s: Ok(val) }
    }
}

impl<'a> vstd::std_specs::convert::FromSpecImpl<&'a str> for Utf8StringRef<'a> {
    open spec fn obeys_from_spec() -> bool {
        true
    }

    open spec fn from_spec(v: &'a str) -> Utf8StringRef<'a> {
        Utf8StringRef { s: Ok(v) }
    }
}

/// The mathematical model of a value tree: strings and binaries are byte
/// sequences, arrays and maps are sequences.
pub enum ValueModel {
    Nil,
    Boolean(bool),
    Integer(Integer),
    Float(Float),
    Binary(Seq<u8>),
    String(Seq<u8>),
    Array(Seq<ValueModel>),
    Pairs(Seq<(ValueModel, ValueModel)>),
    Extension(i8, Seq<u8>),
    Timestamp(i64, u32),
}

#[derive(PartialEq, Debug)]
pub enum Value {
    Integer(Integer),
    Nil,
    Boolean(bool),
    Float(Float),
    Binary(Vec<u8>),
    String(Utf8String),
    Array(Vec<Value>),
    /// A map: key-value pairs in the order they were written; keys may
    /// repeat.
    Pairs(Vec<(Value, Value)>),
    Extension(i8, Vec<u8>),
    /// Seconds and nanoseconds since the epoch.
    Timestamp(i64, u32),
}

#[derive(PartialEq, Debug)]
pub enum RefValue<'a> {
    Integer(Integer),
    Nil,
    Boolean(bool),
    Float(Float),
    Binary(&'a [u8]),
    String(Utf8StringRef<'a>),
    Array(Vec<RefValue<'a>>),
    Pairs(Vec<(RefValue<'a>, RefValue<'a>)>),
    Extension(i8, &'a [u8]),
    Timestamp(i64, u32),
}

pub open spec fn value_model(v: Value) -> ValueModel
    decreases v,
{
    match v {
        Value::Integer(i) => ValueModel::Integer(i),
        Value::Nil => ValueModel::Nil,
        Value::Boolean(b) => ValueModel::Boolean(b),
        Value::Float(f) => ValueModel::Float(f),
        Value::Binary(b) => ValueModel::Binary(b@),
        Value::String(s) => ValueModel::String(s.bytes()),
        Value::Array(vs) => ValueModel::Array(values_model(vs@)),
        Value::Pairs(ps) => ValueModel::Pairs(pairs_model(ps@)),
        Value::Extension(t, d) => ValueModel::Extension(t, d@),
        Value::Timestamp(s, n) => ValueModel::Timestamp(s, n),
    }
}

pub open spec fn values_model(vs: Seq<Value>) -> Seq<ValueModel>
    decreases vs,
{
    if vs.len() == 0 {
        seq![]
    } else {
        values_model(vs.drop_last()).push(value_model(vs.last()))
    }
}

pub open spec fn pairs_model(ps: Seq<(Value, Value)>) -> Seq<(ValueModel, ValueModel)>
    decreases ps,
{
    if ps.len() == 0 {
        seq![]
    } else {
        pairs_model(ps.drop_last()).push((value_model(ps.last().0), value_model(ps.last().1)))
    }
}

impl View for Value {
    type V = ValueModel;

    open spec fn view(&self) -> ValueModel {
        value_model(*self)
    }
}

pub open spec fn ref_model<'a>(v: RefValue<'a>) -> ValueModel
    decreases v,
{
    match v {
        RefValue::Integer(i) => ValueModel::Integer(i),
        RefValue::Nil => ValueModel::Nil,
        RefValue::Boolean(b) => ValueModel::Boolean(b),
        RefValue::Float(f) => ValueModel::Float(f),
        RefValue::Binary(b) => ValueModel::Binary(b@),
        RefValue::String(s) => ValueModel::String(s.bytes()),
        RefValue::Array(vs) => ValueModel::Array(ref_values_model(vs@)),
        RefValue::Pairs(ps) => ValueModel::Pairs(ref_pairs_model(ps@)),
        RefValue::Extension(t, d) => ValueModel::Extension(t, d@),
        RefValue::Timestamp(s, n) => ValueModel::Timestamp(s, n),
    }
}

pub open spec fn ref_values_model<'a>(vs: Seq<RefValue<'a>>) -> Seq<ValueModel>
    decreases vs,
{
    if vs.len() == 0 {
        seq![]
    } else {
        ref_values_model(vs.drop_last()).push(ref_model(vs.last()))
    }
}

pub open spec fn ref_pairs_model<'a>(ps: Seq<(RefValue<'a>, RefValue<'a>)>) -> Seq<
    (ValueModel, ValueModel),
>
    decreases ps,
{
    if ps.len() == 0 {
        seq![]
    } else {
        ref_pairs_model(ps.drop_last()).push((ref_model(ps.last().0), ref_model(ps.last().1)))
    }
}

impl<'a> View for RefValue<'a> {
    type V = ValueModel;

    open spec fn view(&self) -> ValueModel {
        ref_model(*self)
    }
}

/// Every string in the tree is well formed: it holds text exactly when its
/// bytes are valid UTF-8 (text always encodes to valid UTF-8, and raw bytes
/// are kept only when they are not).
pub open spec fn strings_wf(v: Value) -> bool
    decreases v,
{
    match v {
        Value::String(s) => s.wf(),
        Value::Array(vs) => values_strings_wf(vs@),
        Value::Pairs(ps) => pairs_strings_wf(ps@),
        _ => true,
    }
}

pub open spec fn values_strings_wf(vs: Seq<Value>) -> bool
    decreases vs,
{
    vs.len() == 0 || (values_strings_wf(vs.drop_last()) && strings_wf(vs.last()))
}

pub open spec fn pairs_strings_wf(ps: Seq<(Value, Value)>) -> bool
    decreases ps,
{
    ps.len() == 0 || (pairs_strings_wf(ps.drop_last()) && strings_wf(ps.last().0) && strings_wf(
        ps.last().1,
    ))
}

/// The borrowed twin of `strings_wf`.
pub open spec fn ref_strings_wf<'a>(v: RefValue<'a>) -> bool
    decreases v,
{
    match v {
        RefValue::String(s) => s.wf(),
        RefValue::Array(vs) => ref_values_strings_wf(vs@),
        RefValue::Pairs(ps) => ref_pairs_strings_wf(ps@),
        _ => true,
    }
}

pub open spec fn ref_values_strings_wf<'a>(vs: Seq<RefValue<'a>>) -> bool
    decreases vs,
{
    vs.len() == 0 || (ref_values_strings_wf(vs.drop_last()) && ref_strings_wf(vs.last()))
}

pub open spec fn ref_pairs_strings_wf<'a>(ps: Seq<(RefValue<'a>, RefValue<'a>)>) -> bool
    decreases ps,
{
    ps.len() == 0 || (ref_pairs_strings_wf(ps.drop_last()) && ref_strings_wf(ps.last().0)
        && ref_strings_wf(ps.last().1))
}

pub proof fn lemma_values_strings_wf_at(vs: Seq<Value>, i: int)
    requires
        values_strings_wf(vs),
        0 <= i < vs.len(),
    ensures
        strings_wf(vs[i]),
    decreases vs.len(),
{
    if i < vs.len() - 1 {
        lemma_values_strings_wf_at(vs.drop_last(), i);
    }
}

pub proof fn lemma_pairs_strings_wf_at(ps: Seq<(Value, Value)>, i: int)
    requires
        pairs_strings_wf(ps),
        0 <= i < ps.len(),
    ensures
        strings_wf(ps[i].0) && strings_wf(ps[i].1),
    decreases ps.len(),
{
    if i < ps.len() - 1 {
        lemma_pairs_strings_wf_at(ps.drop_last(), i);
    }
}

pub proof fn lemma_ref_values_strings_wf_at<'a>(vs: Seq<RefValue<'a>>, i: int)
    requires
        ref_values_strings_wf(vs),
        0 <= i < vs.len(),
    ensures
        ref_strings_wf(vs[i]),
    decreases vs.len(),
{
    if i < vs.len() - 1 {
        lemma_ref_values_strings_wf_at(vs.drop_last(), i);
    }
}

pub proof fn lemma_ref_pairs_strings_wf_at<'a>(ps: Seq<(RefValue<'a>, RefValue<'a>)>, i: int)
    requires
        ref_pairs_strings_wf(ps),
        0 <= i < ps.len(),
    ensures
        ref_strings_wf(ps[i].0) && ref_strings_wf(ps[i].1),
    decreases ps.len(),
{
    if i < ps.len() - 1 {
        lemma_ref_pairs_strings_wf_at(ps.drop_last(), i);
    }
}

/// A well-formed string holds text exactly when its bytes are valid UTF-8.
pub proof fn lemma_text_iff_valid(s: Utf8String)
    requires
        s.wf(),
    ensures
        s.s is Ok <==> valid_utf8(s.bytes()),
{
}

/// The borrowed twin of `lemma_text_iff_valid`.
pub proof fn lemma_text_iff_valid_ref<'a>(s: Utf8StringRef<'a>)
    requires
        s.wf(),
    ensures
        s.s is Ok <==> valid_utf8(s.bytes()),
{
}

} // verus!
