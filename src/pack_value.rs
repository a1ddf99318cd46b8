//! Encoding of whole value trees. Integers take their narrowest form by sign
//! domain; floats keep their width; raw strings go out byte for byte.
use crate::code::{FLOAT32, FLOAT64, NIL};
use crate::error::PackError;
use crate::pack::{
    array_header, bin_header, enc_bool, enc_int, enc_timestamp, enc_uint, ext_header, len_fits,
    map_header, pack_array_header, pack_bin, pack_bool, pack_ext_header, pack_f32, pack_f64,
    pack_from_i64, pack_from_u64, pack_map_header, pack_nil, pack_str, pack_str_from_slice,
    pack_timestamp, str_header,
};
use crate::primitive::{be_bytes, write_all};
use crate::value::{
    pairs_model, value_model, values_model, FloatNumber, Number, Value, ValueModel,
};
use vstd::prelude::*;

verus! {

/// The bytes that stand for a value.
pub open spec fn enc_value(m: ValueModel) -> Seq<u8>
    decreases m,
{
    match m {
        ValueModel::Nil => seq![NIL],
        ValueModel::Boolean(b) => enc_bool(b),
        ValueModel::Integer(i) => match i.n {
            Number::PosInt(v) => enc_uint(v as nat),
            Number::NegInt(v) => enc_int(v as int),
        },
        ValueModel::Float(f) => match f.n {
            FloatNumber::Float32(b) => seq![FLOAT32] + be_bytes(b as nat, 4),
            FloatNumber::Float64(b) => seq![FLOAT64] + be_bytes(b as nat, 8),
        },
        ValueModel::Binary(b) => bin_header(b.len()) + b,
        ValueModel::String(b) => str_header(b.len()) + b,
        ValueModel::Array(vs) => array_header(vs.len()) + enc_values(vs),
        ValueModel::Pairs(ps) => map_header(ps.len()) + enc_pairs(ps),
        ValueModel::Extension(t, d) => ext_header(t, d.len()) + d,
        ValueModel::Timestamp(s, n) => enc_timestamp(s as int, n as nat),
    }
}

/// The elements of an array, one after another.
pub open spec fn enc_values(vs: Seq<ValueModel>) -> Seq<u8>
    decreases vs,
{
    if vs.len() == 0 {
        seq![]
    } else {
        enc_values(vs.drop_last()) + enc_value(vs.last())
    }
}

/// The entries of a map, each key followed by its value.
pub open spec fn enc_pairs(ps: Seq<(ValueModel, ValueModel)>) -> Seq<u8>
    decreases ps,
{
    if ps.len() == 0 {
        seq![]
    } else {
        enc_pairs(ps.drop_last()) + enc_value(ps.last().0) + enc_value(ps.last().1)
    }
}

/// `p` holds of every node of the tree.
pub open spec fn all_nodes(m: ValueModel, p: spec_fn(ValueModel) -> bool) -> bool
    decreases m,
{
    p(m) && match m {
        ValueModel::Array(vs) => all_nodes_seq(vs, p),
        ValueModel::Pairs(ps) => all_nodes_pairs(ps, p),
        _ => true,
    }
}

pub open spec fn all_nodes_seq(vs: Seq<ValueModel>, p: spec_fn(ValueModel) -> bool) -> bool
    decreases vs,
{
    vs.len() == 0 || (all_nodes_seq(vs.drop_last(), p) && all_nodes(vs.last(), p))
}

pub open spec fn all_nodes_pairs(ps: Seq<(ValueModel, ValueModel)>, p: spec_fn(ValueModel) -> bool) -> bool
    decreases ps,
{
    ps.len() == 0 || (all_nodes_pairs(ps.drop_last(), p) && pair_ok(ps.last(), p))
}

/// `p` holds of every node of both the key and the value.
pub open spec fn pair_ok(pr: (ValueModel, ValueModel), p: spec_fn(ValueModel) -> bool) -> bool
    decreases pr,
{
    all_nodes(pr.0, p) && all_nodes(pr.1, p)
}

/// Every length in the node fits a 32-bit length field.
pub open spec fn node_fits(m: ValueModel) -> bool {
    match m {
        ValueModel::Binary(b) => len_fits(b.len()),
        ValueModel::String(b) => len_fits(b.len()),
        ValueModel::Array(vs) => len_fits(vs.len()),
        ValueModel::Pairs(ps) => len_fits(ps.len()),
        ValueModel::Extension(_, d) => len_fits(d.len()),
        _ => true,
    }
}

pub open spec fn fits_pred() -> spec_fn(ValueModel) -> bool {
    |x: ValueModel| node_fits(x)
}

/// An extension node uses a type that is not reserved.
pub open spec fn tag_ok_pred() -> spec_fn(ValueModel) -> bool {
    |x: ValueModel| (x matches ValueModel::Extension(t, _) ==> t >= 0)
}

/// Every length in the tree fits its length field.
pub open spec fn fits(m: ValueModel) -> bool {
    all_nodes(m, fits_pred())
}

/// No extension in the tree uses a reserved (negative) type.
pub open spec fn tags_ok(m: ValueModel) -> bool {
    all_nodes(m, tag_ok_pred())
}

pub proof fn lemma_values_model(vs: Seq<Value>)
    ensures
        values_model(vs).len() == vs.len(),
        forall|i: int| 0 <= i < vs.len() ==> #[trigger] values_model(vs)[i] == value_model(vs[i]),
    decreases vs.len(),
{
    if vs.len() > 0 {
        lemma_values_model(vs.drop_last());
    }
}

pub proof fn lemma_pairs_model(ps: Seq<(Value, Value)>)
    ensures
        pairs_model(ps).len() == ps.len(),
        forall|i: int|
            0 <= i < ps.len() ==> #[trigger] pairs_model(ps)[i] == (
                value_model(ps[i].0),
                value_model(ps[i].1),
            ),
    decreases ps.len(),
{
    if ps.len() > 0 {
        lemma_pairs_model(ps.drop_last());
    }
}

pub proof fn lemma_all_nodes_seq(vs: Seq<ValueModel>, p: spec_fn(ValueModel) -> bool)
    ensures
        all_nodes_seq(vs, p) <==> forall|i: int| 0 <= i < vs.len() ==> #[trigger] all_nodes(vs[i], p),
    decreases vs.len(),
{
    if vs.len() > 0 {
        let d = vs.drop_last();
        lemma_all_nodes_seq(d, p);
        assert forall|i: int| 0 <= i < d.len() implies #[trigger] d[i] == vs[i] by {}
        if all_nodes_seq(vs, p) {
            assert forall|i: int| 0 <= i < vs.len() implies #[trigger] all_nodes(vs[i], p) by {
                if i < d.len() {
                    assert(all_nodes(d[i], p));
                }
            }
        }
        if forall|i: int| 0 <= i < vs.len() ==> #[trigger] all_nodes(vs[i], p) {
            assert forall|i: int| 0 <= i < d.len() implies #[trigger] all_nodes(d[i], p) by {
                assert(all_nodes(vs[i], p));
            }
            assert(all_nodes(vs[vs.len() - 1], p));
        }
    }
}

pub proof fn lemma_all_nodes_pairs(ps: Seq<(ValueModel, ValueModel)>, p: spec_fn(ValueModel) -> bool)
    ensures
        all_nodes_pairs(ps, p) <==> forall|i: int| 0 <= i < ps.len() ==> #[trigger] pair_ok(ps[i], p),
    decreases ps.len(),
{
    if ps.len() > 0 {
        let d = ps.drop_last();
        lemma_all_nodes_pairs(d, p);
        assert forall|i: int| 0 <= i < d.len() implies #[trigger] d[i] == ps[i] by {}
        if all_nodes_pairs(ps, p) {
            assert forall|i: int| 0 <= i < ps.len() implies #[trigger] pair_ok(ps[i], p) by {
                if i < d.len() {
                    assert(pair_ok(d[i], p));
                }
            }
        }
        if forall|i: int| 0 <= i < ps.len() ==> #[trigger] pair_ok(ps[i], p) {
            assert forall|i: int| 0 <= i < d.len() implies #[trigger] pair_ok(d[i], p) by {
                assert(pair_ok(ps[i], p));
            }
            assert(pair_ok(ps[ps.len() - 1], p));
        }
    }
}

/// The number of nodes in a tree.
pub open spec fn size(m: ValueModel) -> nat
    decreases m,
{
    match m {
        ValueModel::Array(vs) => 1 + size_seq(vs),
        ValueModel::Pairs(ps) => 1 + size_pairs(ps),
        _ => 1,
    }
}

pub open spec fn size_seq(vs: Seq<ValueModel>) -> nat
    decreases vs,
{
    if vs.len() == 0 {
        0
    } else {
        size_seq(vs.drop_last()) + size(vs.last())
    }
}

pub open spec fn size_pairs(ps: Seq<(ValueModel, ValueModel)>) -> nat
    decreases ps,
{
    if ps.len() == 0 {
        0
    } else {
        size_pairs(ps.drop_last()) + size(ps.last().0) + size(ps.last().1)
    }
}

pub proof fn lemma_size_seq(vs: Seq<ValueModel>, i: int)
    requires
        0 <= i < vs.len(),
    ensures
        size(vs[i]) <= size_seq(vs),
    decreases vs.len(),
{
    if i < vs.len() - 1 {
        lemma_size_seq(vs.drop_last(), i);
    }
}

pub proof fn lemma_size_pairs(ps: Seq<(ValueModel, ValueModel)>, i: int)
    requires
        0 <= i < ps.len(),
    ensures
        size(ps[i].0) + size(ps[i].1) <= size_pairs(ps),
    decreases ps.len(),
{
    if i < ps.len() - 1 {
        lemma_size_pairs(ps.drop_last(), i);
    }
}

/// One more element at the end of an array adds its encoding at the end.
pub proof fn lemma_enc_values_push(vs: Seq<ValueModel>, v: ValueModel)
    ensures
        enc_values(vs.push(v)) == enc_values(vs) + enc_value(v),
{
    assert(vs.push(v).drop_last() =~= vs);
}

pub proof fn lemma_enc_pairs_push(ps: Seq<(ValueModel, ValueModel)>, p: (ValueModel, ValueModel))
    ensures
        enc_pairs(ps.push(p)) == enc_pairs(ps) + enc_value(p.0) + enc_value(p.1),
{
    assert(ps.push(p).drop_last() =~= ps);
}

fn write_value(writer: &mut Vec<u8>, val: &Value) -> (r: Result<(), PackError>)
    requires
        fits(val@),
    ensures
        r is Ok == tags_ok(val@),
        r is Ok ==> final(writer)@ == old(writer)@ + enc_value(val@),
    decreases size(val@),
{
    match val {
        Value::Integer(i) => match i.n {
            Number::PosInt(v) => pack_from_u64(writer, v),
            Number::NegInt(v) => pack_from_i64(writer, v),
        },
        Value::Nil => pack_nil(writer),
        Value::Boolean(v) => pack_bool(writer, *v),
        Value::Float(f) => match f.n {
            FloatNumber::Float32(b) => pack_f32(writer, b),
            FloatNumber::Float64(b) => pack_f64(writer, b),
        },
        Value::Binary(v) => pack_bin(writer, v.as_slice()),
        Value::String(s) => match &s.s {
            Ok(t) => pack_str(writer, t.as_str()),
            Err((b, _)) => pack_str_from_slice(writer, b.as_slice()),
        },
        Value::Array(vs) => {
            let ghost ms = values_model(vs@);
            let ghost p = fits_pred();
            let ghost q = tag_ok_pred();
            proof {
                lemma_values_model(vs@);
                lemma_all_nodes_seq(ms, p);
                lemma_all_nodes_seq(ms, q);
            }
            pack_array_header(writer, vs.len())?;
            let mut i: usize = 0;
            while i < vs.len()
                invariant
                    i <= vs@.len() == ms.len(),
                    val@ == ValueModel::Array(ms),
                    p == fits_pred(),
                    q == tag_ok_pred(),
                    forall|j: int| 0 <= j < ms.len() ==> #[trigger] ms[j] == vs@[j]@,
                    forall|j: int| 0 <= j < ms.len() ==> #[trigger] all_nodes(ms[j], p),
                    forall|j: int| 0 <= j < i ==> #[trigger] all_nodes(ms[j], q),
                    all_nodes_seq(ms, q) <==> forall|j: int| 0 <= j < ms.len() ==> #[trigger] all_nodes(ms[j], q),
                    writer@ == old(writer)@ + array_header(ms.len()) + enc_values(ms.take(i as int)),
                decreases vs@.len() - i,
            {
                let elem = &vs[i];
                proof {
                    assert(elem@ == ms[i as int]);
                    assert(all_nodes(ms[i as int], p));
                    lemma_size_seq(ms, i as int);
                }
                let r = write_value(writer, elem);
                if r.is_err() {
                    assert(!all_nodes(ms[i as int], q));
                    return r;
                }
                proof {
                    assert(ms.take(i + 1) =~= ms.take(i as int).push(ms[i as int]));
                    lemma_enc_values_push(ms.take(i as int), ms[i as int]);
                }
                i = i + 1;
            }
            assert(ms.take(i as int) =~= ms);
            Ok(())
        },
        Value::Pairs(ps) => {
            let ghost ms = pairs_model(ps@);
            let ghost p = fits_pred();
            let ghost q = tag_ok_pred();
            proof {
                lemma_pairs_model(ps@);
                lemma_all_nodes_pairs(ms, p);
                lemma_all_nodes_pairs(ms, q);
            }
            pack_map_header(writer, ps.len())?;
            let mut i: usize = 0;
            while i < ps.len()
                invariant
                    i <= ps@.len() == ms.len(),
                    val@ == ValueModel::Pairs(ms),
                    p == fits_pred(),
                    q == tag_ok_pred(),
                    forall|j: int| 0 <= j < ms.len() ==> #[trigger] ms[j] == (ps@[j].0@, ps@[j].1@),
                    forall|j: int| 0 <= j < ms.len() ==> #[trigger] pair_ok(ms[j], p),
                    forall|j: int| 0 <= j < i ==> #[trigger] pair_ok(ms[j], q),
                    all_nodes_pairs(ms, q) <==> forall|j: int| 0 <= j < ms.len() ==> #[trigger] pair_ok(ms[j], q),
                    writer@ == old(writer)@ + map_header(ms.len()) + enc_pairs(ms.take(i as int)),
                decreases ps@.len() - i,
            {
                let pair = &ps[i];
                assert(ms[i as int] == (pair.0@, pair.1@));
                assert(pair_ok(ms[i as int], p));
                proof {
                    lemma_size_pairs(ms, i as int);
                }
                let r = write_value(writer, &pair.0);
                if r.is_err() {
                    assert(!pair_ok(ms[i as int], q));
                    return r;
                }
                let r = write_value(writer, &pair.1);
                if r.is_err() {
                    assert(!pair_ok(ms[i as int], q));
                    return r;
                }
                assert(pair_ok(ms[i as int], q));
                proof {
                    assert(ms.take(i + 1) =~= ms.take(i as int).push(ms[i as int]));
                    lemma_enc_pairs_push(ms.take(i as int), ms[i as int]);
                }
                i = i + 1;
            }
            assert(ms.take(i as int) =~= ms);
            Ok(())
        },
        Value::Extension(tag, v) => {
            pack_ext_header(writer, *tag, v.len())?;
            write_all(writer, v.as_slice());
            Ok(())
        },
        Value::Timestamp(sec, nsec) => pack_timestamp(writer, *sec, *nsec),
    }
}

/// Writes a whole value tree. Fails exactly when some extension in the tree
/// has a reserved (negative) type; otherwise writes the tree's encoding.
pub fn pack_value(writer: &mut Vec<u8>, val: Value) -> (r: Result<(), PackError>)
    requires
        fits(val@),
    ensures
        r is Ok == tags_ok(val@),
        r is Ok ==> final(writer)@ == old(writer)@ + enc_value(val@),
{
    write_value(writer, &val)
}

} // verus!
