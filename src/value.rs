use vstd::prelude::*;

use vstd::utf8::encode_utf8;

use crate::primitive::{width_of, Primitive};
use crate::serializer::Serializer;

verus! {

broadcast use {vstd::std_specs::vec::group_vec_axioms, vstd::seq::group_seq_axioms};

/// A closed description of a value's shape, as a visitor is shown it.
///
/// Floating-point numbers are carried by their bit patterns.
pub enum Value {
    Bool(bool),
    I8(i8),
    I16(i16),
    I32(i32),
    I64(i64),
    I128(i128),
    U8(u8),
    U16(u16),
    U32(u32),
    U64(u64),
    U128(u128),
    F32(u32),
    F64(u64),
    Char(char),
    Str(String),
    Bytes(Vec<u8>),
    Absent,
    Present(Box<Value>),
    Unit,
    UnitStruct,
    UnitVariant(u32),
    NewtypeStruct(Box<Value>),
    NewtypeVariant(u32, Box<Value>),
    Sequence(Vec<Value>),
    Tuple(Vec<Value>),
    TupleStruct(Vec<Value>),
    TupleVariant(u32, Vec<Value>),
    Mapping(Vec<Entry>),
    Struct(Vec<Field>),
    StructVariant(u32, Vec<Field>),
}

/// One key and its value in a map.
pub struct Entry {
    pub key: Value,
    pub value: Value,
}

/// One named field of a struct.
pub struct Field {
    pub name: String,
    pub value: Value,
}

/// The fixed-width leaf that a value is, if it is one.
pub open spec fn primitive_of(v: Value) -> Option<Primitive> {
    match v {
        Value::Bool(_) => Some(Primitive::Bool),
        Value::I8(_) => Some(Primitive::I8),
        Value::I16(_) => Some(Primitive::I16),
        Value::I32(_) => Some(Primitive::I32),
        Value::I64(_) => Some(Primitive::I64),
        Value::I128(_) => Some(Primitive::I128),
        Value::U8(_) => Some(Primitive::U8),
        Value::U16(_) => Some(Primitive::U16),
        Value::U32(_) => Some(Primitive::U32),
        Value::U64(_) => Some(Primitive::U64),
        Value::U128(_) => Some(Primitive::U128),
        Value::F32(_) => Some(Primitive::F32),
        Value::F64(_) => Some(Primitive::F64),
        Value::Char(_) => Some(Primitive::Char),
        _ => None,
    }
}

/// The estimate of a value: the sum of its leaves' contributions.
pub open spec fn value_size(v: Value) -> nat
    decreases v, 0nat,
{
    match v {
        Value::Str(s) => encode_utf8(s@).len(),
        Value::Bytes(b) => b@.len(),
        Value::Absent | Value::Unit | Value::UnitStruct | Value::UnitVariant(_) => 0,
        Value::Present(b) | Value::NewtypeStruct(b) | Value::NewtypeVariant(_, b) => value_size(*b),
        Value::Sequence(vs) | Value::Tuple(vs) | Value::TupleStruct(vs) | Value::TupleVariant(_, vs) =>
            values_size(vs@, vs@.len() as int),
        Value::Mapping(es) => entries_size(es@, es@.len() as int),
        Value::Struct(fs) | Value::StructVariant(_, fs) => fields_size(fs@, fs@.len() as int),
        _ => match primitive_of(v) {
            Some(p) => width_of(p),
            None => 0,
        },
    }
}

/// The estimates of the first `n` values, summed.
pub open spec fn values_size(s: Seq<Value>, n: int) -> nat
    decreases s, n,
{
    if n <= 0 || n > s.len() {
        0
    } else {
        values_size(s, n - 1) + value_size(s[n - 1])
    }
}

/// The estimates of the keys and values of the first `n` entries, summed.
pub open spec fn entries_size(s: Seq<Entry>, n: int) -> nat
    decreases s, n,
{
    if n <= 0 || n > s.len() {
        0
    } else {
        entries_size(s, n - 1) + value_size(s[n - 1].key) + value_size(s[n - 1].value)
    }
}

/// The estimates of the values of the first `n` fields, summed; names are free.
pub open spec fn fields_size(s: Seq<Field>, n: int) -> nat
    decreases s, n,
{
    if n <= 0 || n > s.len() {
        0
    } else {
        fields_size(s, n - 1) + value_size(s[n - 1].value)
    }
}

/// Summing more of the values never gives less.
proof fn lemma_values_size_monotone(s: Seq<Value>, m: int, n: int)
    requires
        0 <= m <= n <= s.len(),
    ensures
        values_size(s, m) <= values_size(s, n),
    decreases n - m,
{
    if m < n {
        lemma_values_size_monotone(s, m, n - 1);
    }
}

/// Summing more of the entries never gives less.
proof fn lemma_entries_size_monotone(s: Seq<Entry>, m: int, n: int)
    requires
        0 <= m <= n <= s.len(),
    ensures
        entries_size(s, m) <= entries_size(s, n),
    decreases n - m,
{
    if m < n {
        lemma_entries_size_monotone(s, m, n - 1);
    }
}

/// Summing more of the fields never gives less.
proof fn lemma_fields_size_monotone(s: Seq<Field>, m: int, n: int)
    requires
        0 <= m <= n <= s.len(),
    ensures
        fields_size(s, m) <= fields_size(s, n),
    decreases n - m,
{
    if m < n {
        lemma_fields_size_monotone(s, m, n - 1);
    }
}

impl Value {
    /// The fixed-width leaf that this value is, if it is one.
    pub fn primitive(&self) -> (r: Option<Primitive>)
        ensures
            r == primitive_of(*self),
    {
        match self {
            Value::Bool(_) => Some(Primitive::Bool),
            Value::I8(_) => Some(Primitive::I8),
            Value::I16(_) => Some(Primitive::I16),
            Value::I32(_) => Some(Primitive::I32),
            Value::I64(_) => Some(Primitive::I64),
            Value::I128(_) => Some(Primitive::I128),
            Value::U8(_) => Some(Primitive::U8),
            Value::U16(_) => Some(Primitive::U16),
            Value::U32(_) => Some(Primitive::U32),
            Value::U64(_) => Some(Primitive::U64),
            Value::U128(_) => Some(Primitive::U128),
            Value::F32(_) => Some(Primitive::F32),
            Value::F64(_) => Some(Primitive::F64),
            Value::Char(_) => Some(Primitive::Char),
            _ => None,
        }
    }
}

impl Serializer {
    /// Walks a value depth first, left to right, counting each leaf.
    ///
    /// Succeeds exactly when the new total fits in a `usize`, and then adds
    /// the value's estimate. On failure the total is left somewhere between
    /// the old one and that sum, and is meant to be discarded.
    pub fn serialize_value(&mut self, v: &Value) -> (ok: bool)
        ensures
            ok == old(self).room_for(value_size(*v)),
            ok ==> final(self).total() == old(self).total() + value_size(*v),
            old(self).total() <= final(self).total(),
        decreases v,
    {
        proof {
            self.lemma_total_fits();
        }
        match v {
            Value::Str(s) => {
                let t = s.as_str();
                if self.size() <= usize::MAX - t.as_bytes().len() {
                    self.serialize_str(t);
                    true
                } else {
                    false
                }
            },
            Value::Bytes(b) => {
                let t = b.as_slice();
                if self.size() <= usize::MAX - t.len() {
                    self.serialize_bytes(t);
                    true
                } else {
                    false
                }
            },
            Value::Absent => {
                self.serialize_none();
                true
            },
            Value::Unit => {
                self.serialize_unit();
                true
            },
            Value::UnitStruct | Value::UnitVariant(_) => true,
            Value::Present(b) | Value::NewtypeStruct(b) | Value::NewtypeVariant(_, b) => {
                self.serialize_value(b)
            },
            Value::Sequence(vs) => {
                self.serialize_seq(Some(vs.len()));
                self.serialize_values(vs)
            },
            Value::Tuple(vs) | Value::TupleStruct(vs) | Value::TupleVariant(_, vs) => {
                self.serialize_tuple(vs.len());
                self.serialize_values(vs)
            },
            Value::Mapping(es) => {
                self.serialize_map(Some(es.len()));
                self.serialize_entries(es)
            },
            Value::Struct(fs) | Value::StructVariant(_, fs) => self.serialize_fields(fs),
            _ => match v.primitive() {
                Some(p) => {
                    if self.size() <= usize::MAX - p.width() {
                        self.serialize_primitive(p);
                        true
                    } else {
                        false
                    }
                },
                None => true,
            },
        }
    }

    /// Walks the elements of a sequence or tuple in order.
    fn serialize_values(&mut self, vs: &Vec<Value>) -> (ok: bool)
        ensures
            ok == old(self).room_for(values_size(vs@, vs@.len() as int)),
            ok ==> final(self).total() == old(self).total() + values_size(vs@, vs@.len() as int),
            old(self).total() <= final(self).total(),
        decreases vs,
    {
        proof {
            self.lemma_total_fits();
        }
        let mut i: usize = 0;
        while i < vs.len()
            invariant
                i <= vs@.len(),
                self.total() == old(self).total() + values_size(vs@, i as int),
                old(self).room_for(values_size(vs@, i as int)),
            decreases vs@.len() - i,
        {
            if !self.serialize_value(&vs[i]) {
                proof {
                    lemma_values_size_monotone(vs@, i + 1, vs@.len() as int);
                }
                return false;
            }
            i = i + 1;
        }
        true
    }

    /// Walks the entries of a map in order, each key before its value.
    fn serialize_entries(&mut self, es: &Vec<Entry>) -> (ok: bool)
        ensures
            ok == old(self).room_for(entries_size(es@, es@.len() as int)),
            ok ==> final(self).total() == old(self).total() + entries_size(es@, es@.len() as int),
            old(self).total() <= final(self).total(),
        decreases es,
    {
        proof {
            self.lemma_total_fits();
        }
        let mut i: usize = 0;
        while i < es.len()
            invariant
                i <= es@.len(),
                self.total() == old(self).total() + entries_size(es@, i as int),
                old(self).room_for(entries_size(es@, i as int)),
            decreases es@.len() - i,
        {
            let e = &es[i];
            if !self.serialize_value(&e.key) || !self.serialize_value(&e.value) {
                proof {
                    lemma_entries_size_monotone(es@, i + 1, es@.len() as int);
                }
                return false;
            }
            i = i + 1;
        }
        true
    }

    /// Walks the fields of a struct in order; names are not counted.
    fn serialize_fields(&mut self, fs: &Vec<Field>) -> (ok: bool)
        ensures
            ok == old(self).room_for(fields_size(fs@, fs@.len() as int)),
            ok ==> final(self).total() == old(self).total() + fields_size(fs@, fs@.len() as int),
            old(self).total() <= final(self).total(),
        decreases fs,
    {
        proof {
            self.lemma_total_fits();
        }
        let mut i: usize = 0;
        while i < fs.len()
            invariant
                i <= fs@.len(),
                self.total() == old(self).total() + fields_size(fs@, i as int),
                old(self).room_for(fields_size(fs@, i as int)),
            decreases fs@.len() - i,
        {
            if !self.serialize_value(&fs[i].value) {
                proof {
                    lemma_fields_size_monotone(fs@, i + 1, fs@.len() as int);
                }
                return false;
            }
            i = i + 1;
        }
        true
    }
}

/// A lower bound on the bytes needed to encode `v`.
///
/// `None` exactly when that bound does not fit in a `usize`.
pub fn estimate(v: &Value) -> (r: Option<usize>)
    ensures
        r == (if value_size(*v) <= usize::MAX {
            Some(value_size(*v) as usize)
        } else {
            None::<usize>
        }),
{
    let mut s = Serializer::new();
    if s.serialize_value(v) {
        Some(s.size())
    } else {
        None
    }
}

} // verus!
