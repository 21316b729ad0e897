use super::types::{Addr, Local};
use byteorder::{NativeEndian, ReadBytesExt, WriteBytesExt};
use vstd::endian::{endianness, Endian};
use vstd::prelude::*;

verus! {

/// The digit of `v` in base 256 at position `i`, counted from the least
/// significant one.
pub open spec fn byte_of(v: nat, i: nat) -> u8
    decreases i,
{
    if i == 0 {
        (v % 256) as u8
    } else {
        byte_of(v / 256, (i - 1) as nat)
    }
}

/// The `width` least significant base-256 digits of `v`, least significant
/// first.
pub open spec fn le_bytes(v: nat, width: nat) -> Seq<u8> {
    Seq::new(width, |i: int| byte_of(v, i as nat))
}

/// The number whose base-256 digits, least significant first, are `s`.
pub open spec fn le_value(s: Seq<u8>) -> nat
    decreases s.len(),
{
    if s.len() == 0 {
        0
    } else {
        s[0] as nat + 256 * le_value(s.drop_first())
    }
}

/// The `width` bytes that hold `v` in the given byte order.
pub open spec fn int_bytes(order: Endian, v: nat, width: nat) -> Seq<u8> {
    match order {
        Endian::Little => le_bytes(v, width),
        Endian::Big => le_bytes(v, width).reverse(),
    }
}

/// The number that the bytes `s` hold in the given byte order.
pub open spec fn int_value(order: Endian, s: Seq<u8>) -> nat {
    match order {
        Endian::Little => le_value(s),
        Endian::Big => le_value(s.reverse()),
    }
}

/// The bytes of `v` in the byte order of the host, which is the one that
/// `vstd::endian::endianness` stands for.
pub open spec fn host_bytes(v: nat, width: nat) -> Seq<u8> {
    int_bytes(endianness(), v, width)
}

/// The number that `s` holds in the byte order of the host.
pub open spec fn host_value(s: Seq<u8>) -> nat {
    int_value(endianness(), s)
}

/// Appends one byte to `bytes`, through `byteorder::WriteBytesExt::write_u8`
/// on a `Vec<u8>`, where the call cannot fail.
#[verifier::external_body]
fn append_u8(bytes: &mut Vec<u8>, v: u8)
    ensures
        final(bytes)@ == old(bytes)@.push(v),
{
    bytes.write_u8(v).unwrap()
}

/// Appends `v` to `bytes` as two bytes in the host's order, through
/// `byteorder::WriteBytesExt::write_u16::<NativeEndian>` on a `Vec<u8>`, where
/// the call cannot fail. `NativeEndian` is `LittleEndian` or `BigEndian`, as
/// the target is: the bytes are those of `v`, least significant first on a
/// little-endian host and most significant first on a big-endian one.
#[verifier::external_body]
fn append_u16(bytes: &mut Vec<u8>, v: u16)
    ensures
        final(bytes)@ == old(bytes)@ + host_bytes(v as nat, 2),
{
    bytes.write_u16::<NativeEndian>(v).unwrap()
}

/// Appends `v` to `bytes` as four bytes in the host's order, through
/// `byteorder::WriteBytesExt::write_u32::<NativeEndian>` on a `Vec<u8>`, where
/// the call cannot fail.
#[verifier::external_body]
fn append_u32(bytes: &mut Vec<u8>, v: u32)
    ensures
        final(bytes)@ == old(bytes)@ + host_bytes(v as nat, 4),
{
    bytes.write_u32::<NativeEndian>(v).unwrap()
}

/// Appends `v` to `bytes` as eight bytes in the host's order, through
/// `byteorder::WriteBytesExt::write_u64::<NativeEndian>` on a `Vec<u8>`, where
/// the call cannot fail.
#[verifier::external_body]
fn append_u64(bytes: &mut Vec<u8>, v: u64)
    ensures
        final(bytes)@ == old(bytes)@ + host_bytes(v as nat, 8),
{
    bytes.write_u64::<NativeEndian>(v).unwrap()
}

/// Overwrites the eight bytes of `bytes` from `at` on with `v` in the host's
/// order, through `byteorder::WriteBytesExt::write_u64::<NativeEndian>` on the
/// mutable slice that starts at `at`. Writing to a slice fails when it is
/// shorter than the eight bytes, which `requires` leaves out; the other bytes
/// stay as they were.
#[verifier::external_body]
fn overwrite_u64(bytes: &mut Vec<u8>, at: usize, v: u64)
    requires
        at + 8 <= old(bytes)@.len(),
    ensures
        final(bytes)@ == old(bytes)@.subrange(0, at as int) + host_bytes(v as nat, 8) + old(
            bytes,
        )@.subrange(at + 8, old(bytes)@.len() as int),
{
    let mut window: &mut [u8] = &mut bytes[at..];
    window.write_u64::<NativeEndian>(v).unwrap()
}

/// The byte of `bytes` at `at`, through `byteorder::ReadBytesExt::read_u8` on
/// the slice that starts there. Reading fails on an empty slice, which
/// `requires` leaves out.
#[verifier::external_body]
fn fetch_u8(bytes: &Vec<u8>, at: usize) -> (v: u8)
    requires
        at < bytes@.len(),
    ensures
        v == bytes@[at as int],
{
    let mut window: &[u8] = &bytes[at..];
    window.read_u8().unwrap()
}

/// The two bytes of `bytes` from `at` on, read in the host's order through
/// `byteorder::ReadBytesExt::read_u16::<NativeEndian>` on the slice that starts
/// there. Reading fails on a slice of fewer than two bytes, which `requires`
/// leaves out.
#[verifier::external_body]
fn fetch_u16(bytes: &Vec<u8>, at: usize) -> (v: u16)
    requires
        at + 2 <= bytes@.len(),
    ensures
        v as nat == host_value(bytes@.subrange(at as int, at + 2)),
{
    let mut window: &[u8] = &bytes[at..];
    window.read_u16::<NativeEndian>().unwrap()
}

/// The four bytes of `bytes` from `at` on, read in the host's order through
/// `byteorder::ReadBytesExt::read_u32::<NativeEndian>` on the slice that starts
/// there. Reading fails on a slice of fewer than four bytes, which `requires`
/// leaves out.
#[verifier::external_body]
fn fetch_u32(bytes: &Vec<u8>, at: usize) -> (v: u32)
    requires
        at + 4 <= bytes@.len(),
    ensures
        v as nat == host_value(bytes@.subrange(at as int, at + 4)),
{
    let mut window: &[u8] = &bytes[at..];
    window.read_u32::<NativeEndian>().unwrap()
}

/// The eight bytes of `bytes` from `at` on, read in the host's order through
/// `byteorder::ReadBytesExt::read_u64::<NativeEndian>` on the slice that starts
/// there. Reading fails on a slice of fewer than eight bytes, which `requires`
/// leaves out.
#[verifier::external_body]
fn fetch_u64(bytes: &Vec<u8>, at: usize) -> (v: u64)
    requires
        at + 8 <= bytes@.len(),
    ensures
        v as nat == host_value(bytes@.subrange(at as int, at + 8)),
{
    let mut window: &[u8] = &bytes[at..];
    window.read_u64::<NativeEndian>().unwrap()
}

/// A vector of bytes, borrowed.
pub type BBytes<'a> = &'a Vec<u8>;

/// A reading position in a vector of bytes.
pub struct Cursor<'a> {
    bytes: BBytes<'a>,
    position: u64,
}

impl<'a> Cursor<'a> {
    /// All the bytes, read and unread.
    pub closed spec fn bytes(&self) -> Seq<u8> {
        self.bytes@
    }

    /// The position of the next byte to be read.
    pub closed spec fn spec_position(&self) -> u64 {
        self.position
    }

    /// The bytes from the position on; none when the position is at or past
    /// the end.
    pub open spec fn unread(&self) -> Seq<u8> {
        if self.spec_position() <= self.bytes().len() {
            self.bytes().skip(self.spec_position() as int)
        } else {
            Seq::empty()
        }
    }

    /// A cursor at the start of `bytes`.
    pub fn new(bytes: BBytes<'a>) -> (cursor: Self)
        ensures
            cursor.bytes() == bytes@,
            cursor.spec_position() == 0,
    {
        Cursor { bytes, position: 0 }
    }

    /// The position of the next byte to be read.
    #[verifier::when_used_as_spec(spec_position)]
    pub fn position(&self) -> (position: u64)
        ensures
            position == self.spec_position(),
    {
        self.position
    }

    /// Moves the cursor; a position past the end leaves nothing to read.
    pub fn set_position(&mut self, position: u64)
        ensures
            final(self).bytes() == old(self).bytes(),
            final(self).spec_position() == position,
    {
        self.position = position;
    }

    /// How many bytes are left to read.
    pub fn remaining(&self) -> (n: usize)
        ensures
            n == self.unread().len(),
    {
        let len = self.bytes.len();
        if self.position <= len as u64 {
            len - self.position as usize
        } else {
            0
        }
    }
}

/// Host-native reads, ie. `read_hu64` ("read host unsigned 64"). Each takes
/// the bytes at the position and moves past them, and needs that many bytes
/// left.
pub trait NativeEndianReadExt: Sized {
    /// All the bytes of the source, read and unread.
    spec fn source(&self) -> Seq<u8>;

    /// How many bytes of the source lie before the position.
    spec fn offset(&self) -> int;

    fn read_hu8(&mut self) -> (v: u8)
        requires
            old(self).offset() + 1 <= old(self).source().len(),
        ensures
            v == old(self).source()[old(self).offset()],
            final(self).source() == old(self).source(),
            final(self).offset() == old(self).offset() + 1,
    ;

    fn read_hu16(&mut self) -> (v: u16)
        requires
            old(self).offset() + 2 <= old(self).source().len(),
        ensures
            v as nat == host_value(
                old(self).source().subrange(old(self).offset(), old(self).offset() + 2),
            ),
            final(self).source() == old(self).source(),
            final(self).offset() == old(self).offset() + 2,
    ;

    fn read_hu32(&mut self) -> (v: u32)
        requires
            old(self).offset() + 4 <= old(self).source().len(),
        ensures
            v as nat == host_value(
                old(self).source().subrange(old(self).offset(), old(self).offset() + 4),
            ),
            final(self).source() == old(self).source(),
            final(self).offset() == old(self).offset() + 4,
    ;

    fn read_hu64(&mut self) -> (v: u64)
        requires
            old(self).offset() + 8 <= old(self).source().len(),
        ensures
            v as nat == host_value(
                old(self).source().subrange(old(self).offset(), old(self).offset() + 8),
            ),
            final(self).source() == old(self).source(),
            final(self).offset() == old(self).offset() + 8,
    ;
}

impl<'a> NativeEndianReadExt for Cursor<'a> {
    open spec fn source(&self) -> Seq<u8> {
        self.bytes()
    }

    open spec fn offset(&self) -> int {
        self.spec_position() as int
    }

    fn read_hu8(&mut self) -> (v: u8) {
        let len: usize = self.bytes.len();
        let at = self.position as usize;
        let v = fetch_u8(self.bytes, at);
        self.position = self.position + 1;
        v
    }

    fn read_hu16(&mut self) -> (v: u16) {
        let len: usize = self.bytes.len();
        let at = self.position as usize;
        let v = fetch_u16(self.bytes, at);
        self.position = self.position + 2;
        v
    }

    fn read_hu32(&mut self) -> (v: u32) {
        let len: usize = self.bytes.len();
        let at = self.position as usize;
        let v = fetch_u32(self.bytes, at);
        self.position = self.position + 4;
        v
    }

    fn read_hu64(&mut self) -> (v: u64) {
        let len: usize = self.bytes.len();
        let at = self.position as usize;
        let v = fetch_u64(self.bytes, at);
        self.position = self.position + 8;
        v
    }
}

/// Host-native writes, ie. `write_hu64` ("write host unsigned 64"): each
/// appends the bytes of its argument.
pub trait NativeEndianWriteExt: Sized {
    /// The bytes written so far.
    spec fn written(&self) -> Seq<u8>;

    fn write_hu8(&mut self, u: u8)
        ensures
            final(self).written() == old(self).written().push(u),
    ;

    fn write_hu16(&mut self, u: u16)
        ensures
            final(self).written() == old(self).written() + host_bytes(u as nat, 2),
    ;

    fn write_hu32(&mut self, u: u32)
        ensures
            final(self).written() == old(self).written() + host_bytes(u as nat, 4),
    ;

    fn write_hu64(&mut self, u: u64)
        ensures
            final(self).written() == old(self).written() + host_bytes(u as nat, 8),
    ;
}

impl NativeEndianWriteExt for Vec<u8> {
    open spec fn written(&self) -> Seq<u8> {
        self@
    }

    fn write_hu8(&mut self, u: u8) {
        append_u8(self, u)
    }

    fn write_hu16(&mut self, u: u16) {
        append_u16(self, u)
    }

    fn write_hu32(&mut self, u: u32) {
        append_u32(self, u)
    }

    fn write_hu64(&mut self, u: u64) {
        append_u64(self, u)
    }
}

/// Reads of the bytecode's own types, each at its width.
pub trait ReadTypesExt: NativeEndianReadExt {
    fn read_addr(&mut self) -> (addr: Addr)
        requires
            old(self).offset() + 8 <= old(self).source().len(),
        ensures
            addr as nat == host_value(
                old(self).source().subrange(old(self).offset(), old(self).offset() + 8),
            ),
            final(self).source() == old(self).source(),
            final(self).offset() == old(self).offset() + 8,
    ;

    fn read_local(&mut self) -> (local: Local)
        requires
            old(self).offset() + 2 <= old(self).source().len(),
        ensures
            local as nat == host_value(
                old(self).source().subrange(old(self).offset(), old(self).offset() + 2),
            ),
            final(self).source() == old(self).source(),
            final(self).offset() == old(self).offset() + 2,
    ;
}

impl<'a> ReadTypesExt for Cursor<'a> {
    fn read_addr(&mut self) -> (addr: Addr) {
        self.read_hu64()
    }

    fn read_local(&mut self) -> (local: Local) {
        self.read_hu16()
    }
}

/// Writes of the bytecode's own types, each at its width.
pub trait WriteTypesExt: Sized {
    /// The bytes written so far.
    spec fn contents(&self) -> Seq<u8>;

    fn write_addr(&mut self, addr: Addr)
        ensures
            final(self).contents() == old(self).contents() + host_bytes(addr as nat, 8),
    ;

    fn write_local(&mut self, local: Local)
        ensures
            final(self).contents() == old(self).contents() + host_bytes(local as nat, 2),
    ;
}

/// Enable writing bytecode types to `Vec<u8>`.
impl WriteTypesExt for Vec<u8> {
    open spec fn contents(&self) -> Seq<u8> {
        self@
    }

    fn write_addr(&mut self, addr: Addr) {
        append_u64(self, addr)
    }

    fn write_local(&mut self, local: Local) {
        append_u16(self, local)
    }
}

/// Replaces the eight bytes of `bytes` from `at` on by `addr` in the host's
/// order.
pub fn patch_addr(bytes: &mut Vec<u8>, at: usize, addr: Addr)
    requires
        at + 8 <= old(bytes)@.len(),
    ensures
        final(bytes)@ == old(bytes)@.subrange(0, at as int) + host_bytes(addr as nat, 8) + old(
            bytes,
        )@.subrange(at + 8, old(bytes)@.len() as int),
        final(bytes)@.len() == old(bytes)@.len(),
{
    proof {
        lemma_radix_pow_values();
        lemma_int_value_of_bytes(endianness(), addr as nat, 8);
    }
    overwrite_u64(bytes, at, addr)
}

/// 256 to the power `width`.
pub open spec fn radix_pow(width: nat) -> nat
    decreases width,
{
    if width == 0 {
        1
    } else {
        256 * radix_pow((width - 1) as nat)
    }
}

proof fn lemma_le_bytes_tail(v: nat, width: nat)
    requires
        width > 0,
    ensures
        le_bytes(v, width).drop_first() == le_bytes(v / 256, (width - 1) as nat),
        le_bytes(v, width)[0] == (v % 256) as u8,
{
    assert(le_bytes(v, width).drop_first() =~= le_bytes(v / 256, (width - 1) as nat));
}

/// Reading back the digits of a number gives the number, when it fits in
/// `width` digits.
pub proof fn lemma_le_value_of_bytes(v: nat, width: nat)
    requires
        v < radix_pow(width),
    ensures
        le_value(le_bytes(v, width)) == v,
    decreases width,
{
    if width > 0 {
        lemma_le_bytes_tail(v, width);
        lemma_le_value_of_bytes(v / 256, (width - 1) as nat);
    }
}

/// The number that a sequence of digits holds fits in as many digits.
pub proof fn lemma_le_value_bound(s: Seq<u8>)
    ensures
        le_value(s) < radix_pow(s.len()),
    decreases s.len(),
{
    if s.len() > 0 {
        lemma_le_value_bound(s.drop_first());
    }
}

/// Writing out the number that a sequence of digits holds gives the digits.
pub proof fn lemma_le_bytes_of_value(s: Seq<u8>)
    ensures
        le_bytes(le_value(s), s.len()) == s,
    decreases s.len(),
{
    if s.len() > 0 {
        let v = le_value(s);
        lemma_le_bytes_of_value(s.drop_first());
        lemma_le_bytes_tail(v, s.len());
        assert(v / 256 == le_value(s.drop_first()));
        assert(v % 256 == s[0] as nat);
        assert(le_bytes(v, s.len()) =~= seq![s[0]] + le_bytes(v, s.len()).drop_first());
        assert(s =~= seq![s[0]] + s.drop_first());
    }
}

/// In either byte order, the bytes of a number read back as the number.
pub proof fn lemma_int_value_of_bytes(order: Endian, v: nat, width: nat)
    requires
        v < radix_pow(width),
    ensures
        int_bytes(order, v, width).len() == width,
        int_value(order, int_bytes(order, v, width)) == v,
{
    lemma_le_value_of_bytes(v, width);
    assert(le_bytes(v, width).reverse().reverse() =~= le_bytes(v, width));
}

/// In either byte order, the number that bytes hold is written out as those
/// bytes.
pub proof fn lemma_int_bytes_of_value(order: Endian, s: Seq<u8>)
    ensures
        int_value(order, s) < radix_pow(s.len()),
        int_bytes(order, int_value(order, s), s.len()) == s,
{
    lemma_le_bytes_of_value(s);
    lemma_le_bytes_of_value(s.reverse());
    lemma_le_value_bound(s);
    lemma_le_value_bound(s.reverse());
    assert(s.reverse().reverse() =~= s);
}

/// The bounds of the two-, four- and eight-byte integers.
pub proof fn lemma_radix_pow_values()
    ensures
        radix_pow(1) == 0x100,
        radix_pow(2) == 0x1_0000,
        radix_pow(4) == 0x1_0000_0000,
        radix_pow(8) == 0x1_0000_0000_0000_0000,
{
    reveal_with_fuel(radix_pow, 9);
}

} // verus!
