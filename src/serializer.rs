use vstd::prelude::*;

use vstd::string::StringSliceAdditionalSpecFns;

use crate::primitive::{width_of, Primitive};

verus! {

/// The running byte count of one traversal.
///
/// A traversal starts from `new`, presents each shape it meets to one of the
/// `serialize_*` methods, depth first, and reads the result with `size`.
/// Leaves add their payload; shapes that only frame other values add nothing.
/// Each leaf method asks that the new total still fit in a `usize`.
pub struct Serializer {
    output: usize,
}

impl Serializer {
    /// The bytes counted so far.
    pub closed spec fn total(&self) -> nat {
        self.output as nat
    }

    /// Whether `n` more bytes can still be counted.
    pub open spec fn room_for(&self, n: nat) -> bool {
        self.total() + n <= usize::MAX
    }

    /// The count always fits in a `usize`.
    pub proof fn lemma_total_fits(&self)
        ensures
            self.total() <= usize::MAX,
    {
    }

    /// A fresh accumulator, at zero.
    pub fn new() -> (r: Serializer)
        ensures
            r.total() == 0,
    {
        Serializer { output: 0 }
    }

    /// The bytes counted so far.
    pub fn size(&self) -> (r: usize)
        ensures
            r as nat == self.total(),
    {
        self.output
    }

    fn add(&mut self, n: usize)
        requires
            old(self).room_for(n as nat),
        ensures
            final(self).total() == old(self).total() + n,
    {
        self.output = self.output + n;
    }

    /// Counts a fixed-width leaf by its width.
    pub fn serialize_primitive(&mut self, p: Primitive)
        requires
            old(self).room_for(width_of(p)),
        ensures
            final(self).total() == old(self).total() + width_of(p),
    {
        self.add(p.width());
    }

    pub fn serialize_bool(&mut self, _v: bool)
        requires
            old(self).room_for(1),
        ensures
            final(self).total() == old(self).total() + 1,
    {
        self.serialize_primitive(Primitive::Bool);
    }

    pub fn serialize_i8(&mut self, _v: i8)
        requires
            old(self).room_for(1),
        ensures
            final(self).total() == old(self).total() + 1,
    {
        self.serialize_primitive(Primitive::I8);
    }

    pub fn serialize_i16(&mut self, _v: i16)
        requires
            old(self).room_for(2),
        ensures
            final(self).total() == old(self).total() + 2,
    {
        self.serialize_primitive(Primitive::I16);
    }

    pub fn serialize_i32(&mut self, _v: i32)
        requires
            old(self).room_for(4),
        ensures
            final(self).total() == old(self).total() + 4,
    {
        self.serialize_primitive(Primitive::I32);
    }

    pub fn serialize_i64(&mut self, _v: i64)
        requires
            old(self).room_for(8),
        ensures
            final(self).total() == old(self).total() + 8,
    {
        self.serialize_primitive(Primitive::I64);
    }

    pub fn serialize_i128(&mut self, _v: i128)
        requires
            old(self).room_for(16),
        ensures
            final(self).total() == old(self).total() + 16,
    {
        self.serialize_primitive(Primitive::I128);
    }

    pub fn serialize_u8(&mut self, _v: u8)
        requires
            old(self).room_for(1),
        ensures
            final(self).total() == old(self).total() + 1,
    {
        self.serialize_primitive(Primitive::U8);
    }

    pub fn serialize_u16(&mut self, _v: u16)
        requires
            old(self).room_for(2),
        ensures
            final(self).total() == old(self).total() + 2,
    {
        self.serialize_primitive(Primitive::U16);
    }

    pub fn serialize_u32(&mut self, _v: u32)
        requires
            old(self).room_for(4),
        ensures
            final(self).total() == old(self).total() + 4,
    {
        self.serialize_primitive(Primitive::U32);
    }

    pub fn serialize_u64(&mut self, _v: u64)
        requires
            old(self).room_for(8),
        ensures
            final(self).total() == old(self).total() + 8,
    {
        self.serialize_primitive(Primitive::U64);
    }

    pub fn serialize_u128(&mut self, _v: u128)
        requires
            old(self).room_for(16),
        ensures
            final(self).total() == old(self).total() + 16,
    {
        self.serialize_primitive(Primitive::U128);
    }

    /// Counts a single-precision number; its value does not matter.
    pub fn serialize_f32(&mut self)
        requires
            old(self).room_for(4),
        ensures
            final(self).total() == old(self).total() + 4,
    {
        self.serialize_primitive(Primitive::F32);
    }

    /// Counts a double-precision number; its value does not matter.
    pub fn serialize_f64(&mut self)
        requires
            old(self).room_for(8),
        ensures
            final(self).total() == old(self).total() + 8,
    {
        self.serialize_primitive(Primitive::F64);
    }

    pub fn serialize_char(&mut self, _v: char)
        requires
            old(self).room_for(4),
        ensures
            final(self).total() == old(self).total() + 4,
    {
        self.serialize_primitive(Primitive::Char);
    }

    /// Counts a string by the length of its UTF-8 encoding.
    pub fn serialize_str(&mut self, v: &str)
        requires
            old(self).room_for(v.spec_bytes().len()),
        ensures
            final(self).total() == old(self).total() + v.spec_bytes().len(),
    {
        self.add(v.as_bytes().len());
    }

    /// Counts a byte blob by its length.
    pub fn serialize_bytes(&mut self, v: &[u8])
        requires
            old(self).room_for(v@.len()),
        ensures
            final(self).total() == old(self).total() + v@.len(),
    {
        self.add(v.len());
    }

    /// An absent option: nothing to count.
    pub fn serialize_none(&mut self)
        ensures
            final(self).total() == old(self).total(),
    {
    }

    /// The unit value: nothing to count.
    pub fn serialize_unit(&mut self)
        ensures
            final(self).total() == old(self).total(),
    {
    }

    /// A unit struct: its name is not counted.
    pub fn serialize_unit_struct(&mut self, _name: &str)
        ensures
            final(self).total() == old(self).total(),
    {
        self.serialize_unit();
    }

    /// A unit variant: neither its name nor its index is counted.
    pub fn serialize_unit_variant(&mut self, _name: &str, _variant_index: u32, _variant: &str)
        ensures
            final(self).total() == old(self).total(),
    {
    }

    /// Opens a sequence: no length prefix is counted.
    pub fn serialize_seq(&mut self, _len: Option<usize>)
        ensures
            final(self).total() == old(self).total(),
    {
    }

    /// Opens a tuple: no length prefix is counted.
    pub fn serialize_tuple(&mut self, _len: usize)
        ensures
            final(self).total() == old(self).total(),
    {
    }

    /// Opens a tuple struct: neither its name nor its length is counted.
    pub fn serialize_tuple_struct(&mut self, _name: &str, _len: usize)
        ensures
            final(self).total() == old(self).total(),
    {
    }

    /// Opens a tuple variant: no tag is counted.
    pub fn serialize_tuple_variant(
        &mut self,
        _name: &str,
        _variant_index: u32,
        _variant: &str,
        _len: usize,
    )
        ensures
            final(self).total() == old(self).total(),
    {
    }

    /// Opens a map: no entry count is counted.
    pub fn serialize_map(&mut self, _len: Option<usize>)
        ensures
            final(self).total() == old(self).total(),
    {
    }

    /// Opens a struct: neither its name nor its field count is counted.
    pub fn serialize_struct(&mut self, _name: &str, _len: usize)
        ensures
            final(self).total() == old(self).total(),
    {
    }

    /// Opens a struct variant: no tag is counted.
    pub fn serialize_struct_variant(
        &mut self,
        _name: &str,
        _variant_index: u32,
        _variant: &str,
        _len: usize,
    )
        ensures
            final(self).total() == old(self).total(),
    {
    }
}

} // verus!
