use crate::sheet::Sheet;
use crate::wire::{
    bool_field, buf_field, encode_bool, encode_u16, encode_u32, encode_u64, str_field, u16_le,
    u32_le, u64_le, u8_field,
};
use smallvec::SmallVec;
use vstd::prelude::*;
use vstd::string::StringSliceAdditionalSpecFns;

verus! {

/// Growable byte storage that keeps up to three bytes without allocating.
/// What it holds is known to the verifier only as [`contents`].
#[verifier::external_body]
pub struct InlineBytes {
    bytes: SmallVec<[u8; 3]>,
}

/// The bytes that the storage holds, first to last.
pub uninterp spec fn contents(storage: InlineBytes) -> Seq<u8>;

/// `SmallVec::new`: storage that holds nothing.
#[verifier::external_body]
fn storage_new() -> (storage: InlineBytes)
    ensures
        contents(storage) == Seq::<u8>::empty(),
{
    InlineBytes { bytes: SmallVec::new() }
}

/// `SmallVec::len`: how many bytes the storage holds.
#[verifier::external_body]
fn storage_len(storage: &InlineBytes) -> (len: usize)
    ensures
        len == contents(*storage).len(),
{
    storage.bytes.len()
}

/// `SmallVec::push`: the byte goes behind those that are held. The call
/// panics when the next power of two above the new length does not fit in
/// `isize`, which the bound on the length rules out.
#[verifier::external_body]
fn storage_push(storage: &mut InlineBytes, byte: u8)
    requires
        contents(*old(storage)).len() + 1 <= SheetBuilder::MAX_LEN,
    ensures
        contents(*final(storage)) == contents(*old(storage)).push(byte),
{
    storage.bytes.push(byte)
}

/// `SmallVec::extend_from_slice`: the bytes of the slice go, in order, behind
/// those that are held. It panics as `SmallVec::push` does, under the same
/// bound.
#[verifier::external_body]
fn storage_extend(storage: &mut InlineBytes, bytes: &[u8])
    requires
        contents(*old(storage)).len() + bytes@.len() <= SheetBuilder::MAX_LEN,
    ensures
        contents(*final(storage)) == contents(*old(storage)) + bytes@,
{
    storage.bytes.extend_from_slice(bytes)
}

/// `SmallVec::into_boxed_slice`: the same bytes in the same order, on the heap.
#[verifier::external_body]
fn storage_into_boxed_slice(storage: InlineBytes) -> (bytes: Box<[u8]>)
    ensures
        bytes@ == contents(storage),
{
    storage.bytes.into_boxed_slice()
}

/// Accumulates the fields of one message. Each `write_` call takes the builder
/// and hands it back with the field's bytes behind those already written.
pub struct SheetBuilder {
    data: InlineBytes,
}

impl View for SheetBuilder {
    type V = Seq<u8>;

    /// The bytes written so far.
    closed spec fn view(&self) -> Seq<u8> {
        contents(self.data)
    }
}

impl SheetBuilder {
    /// The longest message that a builder holds. The storage doubles as it
    /// grows, and a doubling above this length would not fit the address space.
    pub const MAX_LEN: usize = usize::MAX / 4;

    pub fn new() -> (builder: Self)
        ensures
            builder@ == Seq::<u8>::empty(),
    {
        SheetBuilder { data: storage_new() }
    }

    /// How many bytes have been written.
    pub fn len(&self) -> (len: usize)
        ensures
            len == self@.len(),
    {
        storage_len(&self.data)
    }

    pub fn write_bool(self, value: bool) -> (builder: Self)
        requires
            self@.len() + 1 <= Self::MAX_LEN,
        ensures
            builder@ == self@ + bool_field(value),
    {
        let mut builder = self;
        storage_push(&mut builder.data, encode_bool(value));
        builder
    }

    pub fn write_u8(self, value: u8) -> (builder: Self)
        requires
            self@.len() + 1 <= Self::MAX_LEN,
        ensures
            builder@ == self@ + u8_field(value),
    {
        let mut builder = self;
        storage_push(&mut builder.data, value);
        builder
    }

    pub fn write_u16(self, value: u16) -> (builder: Self)
        requires
            self@.len() + 2 <= Self::MAX_LEN,
        ensures
            builder@ == self@ + u16_le(value),
    {
        let mut builder = self;
        let bytes = encode_u16(value);
        storage_extend(&mut builder.data, bytes.as_slice());
        builder
    }

    pub fn write_u32(self, value: u32) -> (builder: Self)
        requires
            self@.len() + 4 <= Self::MAX_LEN,
        ensures
            builder@ == self@ + u32_le(value),
    {
        let mut builder = self;
        let bytes = encode_u32(value);
        storage_extend(&mut builder.data, bytes.as_slice());
        builder
    }

    pub fn write_u64(self, value: u64) -> (builder: Self)
        requires
            self@.len() + 8 <= Self::MAX_LEN,
        ensures
            builder@ == self@ + u64_le(value),
    {
        let mut builder = self;
        let bytes = encode_u64(value);
        storage_extend(&mut builder.data, bytes.as_slice());
        builder
    }

    /// Writes the length of `value` as a `u32` and then its bytes. The length
    /// has to fit the prefix: a longer buffer has no encoding.
    pub fn write_buf(self, value: &[u8]) -> (builder: Self)
        requires
            value@.len() <= u32::MAX,
            self@.len() + 4 + value@.len() <= Self::MAX_LEN,
        ensures
            builder@ == self@ + buf_field(value@),
    {
        let mut builder = self.write_u32(value.len() as u32);
        storage_extend(&mut builder.data, value);
        builder
    }

    /// Writes the UTF-8 encoding of `value` as a buffer.
    pub fn write_str(self, value: &str) -> (builder: Self)
        requires
            value.spec_bytes().len() <= u32::MAX,
            self@.len() + 4 + value.spec_bytes().len() <= Self::MAX_LEN,
        ensures
            builder@ == self@ + str_field(value@),
    {
        self.write_buf(value.as_bytes())
    }

    /// Ends the message: the sheet holds exactly the bytes written.
    pub fn into_sheet(self) -> (sheet: Sheet)
        ensures
            sheet@ == self@,
    {
        Sheet::new(storage_into_boxed_slice(self.data))
    }
}

impl Default for SheetBuilder {
    fn default() -> (builder: Self)
        ensures
            builder@ == Seq::<u8>::empty(),
    {
        SheetBuilder::new()
    }
}

} // verus!
