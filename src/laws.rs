//! Laws of the estimate, stated over `value_size`, which `estimate` returns.
use vstd::prelude::*;

use vstd::utf8::encode_utf8;

use crate::primitive::{width_of, Primitive};
use crate::value::{
    entries_size, fields_size, primitive_of, value_size, values_size, Entry, Field, Value,
};

verus! {

/// What one map entry contributes: its key's estimate plus its value's.
pub open spec fn entry_size(e: Entry) -> nat {
    value_size(e.key) + value_size(e.value)
}

/// The entries' contributions, summed from the left.
pub open spec fn sum_entries(s: Seq<Entry>) -> nat {
    s.fold_left(0nat, |acc: nat, e: Entry| acc + entry_size(e))
}

proof fn lemma_values_size_prefix(s: Seq<Value>, p: Primitive, n: int)
    requires
        0 <= n <= s.len(),
        forall|i: int| 0 <= i < s.len() ==> primitive_of(#[trigger] s[i]) == Some(p),
    ensures
        values_size(s, n) == n * width_of(p),
    decreases n,
{
    if n > 0 {
        lemma_values_size_prefix(s, p, n - 1);
        assert(primitive_of(s[n - 1]) == Some(p));
        assert(value_size(s[n - 1]) == width_of(p));
        assert(n * width_of(p) == (n - 1) * width_of(p) + width_of(p)) by (nonlinear_arith);
    }
}

/// A sequence of `n` fixed-width leaves of width `w` is estimated at `n * w`.
pub proof fn lemma_sequence_of_primitives(vs: Vec<Value>, p: Primitive)
    requires
        forall|i: int| 0 <= i < vs@.len() ==> primitive_of(#[trigger] vs@[i]) == Some(p),
    ensures
        value_size(Value::Sequence(vs)) == vs@.len() * width_of(p),
{
    lemma_values_size_prefix(vs@, p, vs@.len() as int);
}

/// A string is estimated at the length of its UTF-8 encoding, a byte blob at
/// its length, also under a named wrapper.
pub proof fn lemma_text_and_bytes(s: String, b: Vec<u8>)
    ensures
        value_size(Value::Str(s)) == encode_utf8(s@).len(),
        value_size(Value::Bytes(b)) == b@.len(),
        value_size(Value::NewtypeStruct(Box::new(Value::Str(s)))) == encode_utf8(s@).len(),
        value_size(Value::NewtypeStruct(Box::new(Value::Bytes(b)))) == b@.len(),
{
    assert(value_size(Value::Str(s)) == encode_utf8(s@).len());
    assert(value_size(Value::Bytes(b)) == b@.len());
}

proof fn lemma_fields_as_values(fs: Seq<Field>, n: int)
    requires
        0 <= n <= fs.len(),
    ensures
        fields_size(fs, n) == values_size(fs.map_values(|f: Field| f.value), n),
    decreases n,
{
    if n > 0 {
        lemma_fields_as_values(fs, n - 1);
    }
}

/// A struct, or a struct variant, is estimated at the sum of its fields'
/// estimates: the values alone, in order, as a tuple of them would be.
pub proof fn lemma_struct_sums_fields(fs: Vec<Field>, variant_index: u32)
    ensures
        value_size(Value::Struct(fs)) == values_size(
            fs@.map_values(|f: Field| f.value),
            fs@.len() as int,
        ),
        value_size(Value::StructVariant(variant_index, fs)) == value_size(Value::Struct(fs)),
{
    lemma_fields_as_values(fs@, fs@.len() as int);
}

/// Field names never count: two structs whose fields hold the same values in
/// the same order are estimated alike, whatever the fields are called.
pub proof fn lemma_field_names_free(fs: Vec<Field>, gs: Vec<Field>)
    requires
        fs@.len() == gs@.len(),
        forall|i: int| 0 <= i < fs@.len() ==> (#[trigger] fs@[i]).value == gs@[i].value,
    ensures
        value_size(Value::Struct(fs)) == value_size(Value::Struct(gs)),
{
    lemma_fields_as_values(fs@, fs@.len() as int);
    lemma_fields_as_values(gs@, gs@.len() as int);
    assert(fs@.map_values(|f: Field| f.value) =~= gs@.map_values(|f: Field| f.value));
}

proof fn lemma_entries_size_prefix(s: Seq<Entry>, n: int)
    requires
        0 <= n <= s.len(),
    ensures
        entries_size(s, n) == sum_entries(s.subrange(0, n)),
    decreases n,
{
    if n > 0 {
        lemma_entries_size_prefix(s, n - 1);
        assert(s.subrange(0, n).drop_last() =~= s.subrange(0, n - 1));
    } else {
        assert(s.subrange(0, n).len() == 0);
    }
}

/// A map is estimated at the sum, over its entries, of key plus value.
pub proof fn lemma_map_sums_entries(es: Vec<Entry>)
    ensures
        value_size(Value::Mapping(es)) == sum_entries(es@),
{
    lemma_entries_size_prefix(es@, es@.len() as int);
    assert(es@.subrange(0, es@.len() as int) =~= es@);
}

/// The order in which a map's entries are visited does not change its
/// estimate: any rearrangement of the same entries is estimated alike.
pub proof fn lemma_map_order_free(es: Vec<Entry>, fs: Vec<Entry>)
    requires
        es@.to_multiset() == fs@.to_multiset(),
    ensures
        value_size(Value::Mapping(es)) == value_size(Value::Mapping(fs)),
{
    let f = |acc: nat, e: Entry| acc + entry_size(e);
    assert(vstd::seq_lib::commutative_foldl(f));
    vstd::seq_lib::lemma_fold_left_permutation(es@, fs@, f, 0nat);
    lemma_map_sums_entries(es);
    lemma_map_sums_entries(fs);
}

/// Wrapping a value as a present option, a newtype struct or variant, or a
/// tuple of one adds nothing to its estimate.
pub proof fn lemma_wrapping_free(v: Value, one: Vec<Value>, variant_index: u32)
    requires
        one@ == seq![v],
    ensures
        value_size(Value::Present(Box::new(v))) == value_size(v),
        value_size(Value::NewtypeStruct(Box::new(v))) == value_size(v),
        value_size(Value::NewtypeVariant(variant_index, Box::new(v))) == value_size(v),
        value_size(Value::Tuple(one)) == value_size(v),
{
    assert(one@[0] == v);
    assert(values_size(one@, 1) == values_size(one@, 0) + value_size(v));
}

/// An absent option counts nothing.
pub proof fn lemma_absent_free()
    ensures
        value_size(Value::Absent) == 0,
{
}

/// Two values with the same shape and the same contents: the same variant,
/// equal leaves (strings and blobs compared by what they hold), and children
/// alike in order.
pub open spec fn alike(a: Value, b: Value) -> bool
    decreases a, 0nat,
{
    match a {
        Value::Str(s) => b is Str && s@ == b->Str_0@,
        Value::Bytes(x) => b is Bytes && x@ == b->Bytes_0@,
        Value::Present(x) => b is Present && alike(*x, *b->Present_0),
        Value::NewtypeStruct(x) => b is NewtypeStruct && alike(*x, *b->NewtypeStruct_0),
        Value::NewtypeVariant(i, x) => b is NewtypeVariant && b->NewtypeVariant_0 == i
            && alike(*x, *b->NewtypeVariant_1),
        Value::Sequence(xs) => b is Sequence && values_alike(xs@, b->Sequence_0@, xs@.len() as int),
        Value::Tuple(xs) => b is Tuple && values_alike(xs@, b->Tuple_0@, xs@.len() as int),
        Value::TupleStruct(xs) => b is TupleStruct && values_alike(
            xs@,
            b->TupleStruct_0@,
            xs@.len() as int,
        ),
        Value::TupleVariant(i, xs) => b is TupleVariant && b->TupleVariant_0 == i && values_alike(
            xs@,
            b->TupleVariant_1@,
            xs@.len() as int,
        ),
        Value::Mapping(es) => b is Mapping && entries_alike(es@, b->Mapping_0@, es@.len() as int),
        Value::Struct(fs) => b is Struct && fields_alike(fs@, b->Struct_0@, fs@.len() as int),
        Value::StructVariant(i, fs) => b is StructVariant && b->StructVariant_0 == i
            && fields_alike(fs@, b->StructVariant_1@, fs@.len() as int),
        _ => a == b,
    }
}

/// Equal lengths, and the first `n` values alike pairwise.
pub open spec fn values_alike(s: Seq<Value>, t: Seq<Value>, n: int) -> bool
    decreases s, n,
{
    if n <= 0 || n > s.len() {
        s.len() == t.len()
    } else {
        values_alike(s, t, n - 1) && alike(s[n - 1], t[n - 1])
    }
}

/// Equal lengths, and the first `n` entries alike in key and in value.
pub open spec fn entries_alike(s: Seq<Entry>, t: Seq<Entry>, n: int) -> bool
    decreases s, n,
{
    if n <= 0 || n > s.len() {
        s.len() == t.len()
    } else {
        entries_alike(s, t, n - 1) && alike(s[n - 1].key, t[n - 1].key) && alike(
            s[n - 1].value,
            t[n - 1].value,
        )
    }
}

/// Equal lengths, and the first `n` fields with equal names and alike values.
pub open spec fn fields_alike(s: Seq<Field>, t: Seq<Field>, n: int) -> bool
    decreases s, n,
{
    if n <= 0 || n > s.len() {
        s.len() == t.len()
    } else {
        fields_alike(s, t, n - 1) && s[n - 1].name@ == t[n - 1].name@ && alike(
            s[n - 1].value,
            t[n - 1].value,
        )
    }
}

/// The estimate is a function of the value's structure alone: values alike
/// in shape and contents are estimated alike, on every call.
pub proof fn lemma_estimate_deterministic(a: Value, b: Value)
    requires
        alike(a, b),
    ensures
        value_size(a) == value_size(b),
    decreases a, 0nat,
{
    match a {
        Value::Present(x) => lemma_estimate_deterministic(*x, *b->Present_0),
        Value::NewtypeStruct(x) => lemma_estimate_deterministic(*x, *b->NewtypeStruct_0),
        Value::NewtypeVariant(_, x) => lemma_estimate_deterministic(*x, *b->NewtypeVariant_1),
        Value::Sequence(xs) => lemma_values_alike(xs@, b->Sequence_0@, xs@.len() as int),
        Value::Tuple(xs) => lemma_values_alike(xs@, b->Tuple_0@, xs@.len() as int),
        Value::TupleStruct(xs) => lemma_values_alike(xs@, b->TupleStruct_0@, xs@.len() as int),
        Value::TupleVariant(_, xs) => lemma_values_alike(xs@, b->TupleVariant_1@, xs@.len() as int),
        Value::Mapping(es) => lemma_entries_alike(es@, b->Mapping_0@, es@.len() as int),
        Value::Struct(fs) => lemma_fields_alike(fs@, b->Struct_0@, fs@.len() as int),
        Value::StructVariant(_, fs) => lemma_fields_alike(
            fs@,
            b->StructVariant_1@,
            fs@.len() as int,
        ),
        _ => {},
    }
}

proof fn lemma_values_alike(s: Seq<Value>, t: Seq<Value>, n: int)
    requires
        0 <= n <= s.len(),
        values_alike(s, t, n),
    ensures
        s.len() == t.len(),
        values_size(s, n) == values_size(t, n),
    decreases s, n,
{
    if n > 0 {
        lemma_values_alike(s, t, n - 1);
        lemma_estimate_deterministic(s[n - 1], t[n - 1]);
    }
}

proof fn lemma_entries_alike(s: Seq<Entry>, t: Seq<Entry>, n: int)
    requires
        0 <= n <= s.len(),
        entries_alike(s, t, n),
    ensures
        s.len() == t.len(),
        entries_size(s, n) == entries_size(t, n),
    decreases s, n,
{
    if n > 0 {
        lemma_entries_alike(s, t, n - 1);
        lemma_estimate_deterministic(s[n - 1].key, t[n - 1].key);
        lemma_estimate_deterministic(s[n - 1].value, t[n - 1].value);
    }
}

proof fn lemma_fields_alike(s: Seq<Field>, t: Seq<Field>, n: int)
    requires
        0 <= n <= s.len(),
        fields_alike(s, t, n),
    ensures
        s.len() == t.len(),
        fields_size(s, n) == fields_size(t, n),
    decreases s, n,
{
    if n > 0 {
        lemma_fields_alike(s, t, n - 1);
        lemma_estimate_deterministic(s[n - 1].value, t[n - 1].value);
    }
}

} // verus!
