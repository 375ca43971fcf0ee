//! Byte buffers: little-endian fields, sub-slices and UTF-8.

use vstd::prelude::*;
use vstd::slice::*;
use vstd::utf8::*;

verus! {

/// The bytes of a 16-bit field, the least significant first.
pub open spec fn le16(x: u16) -> Seq<u8> {
    seq![x as u8, (x >> 8) as u8]
}

/// The bytes of a 32-bit field, the least significant first.
pub open spec fn le32(x: u32) -> Seq<u8> {
    seq![x as u8, (x >> 8) as u8, (x >> 16) as u8, (x >> 24) as u8]
}

/// The bytes of a 64-bit field, the least significant first.
pub open spec fn le64(x: u64) -> Seq<u8> {
    seq![
        x as u8,
        (x >> 8) as u8,
        (x >> 16) as u8,
        (x >> 24) as u8,
        (x >> 32) as u8,
        (x >> 40) as u8,
        (x >> 48) as u8,
        (x >> 56) as u8,
    ]
}

/// The 16-bit field of two bytes.
pub open spec fn u16_of(b: Seq<u8>) -> u16 {
    (b[0] as u16) | ((b[1] as u16) << 8)
}

/// The 32-bit field of four bytes.
pub open spec fn u32_of(b: Seq<u8>) -> u32 {
    (b[0] as u32)
        | ((b[1] as u32) << 8)
        | ((b[2] as u32) << 16)
        | ((b[3] as u32) << 24)
}

/// The 64-bit field of eight bytes.
pub open spec fn u64_of(b: Seq<u8>) -> u64 {
    (b[0] as u64)
        | ((b[1] as u64) << 8)
        | ((b[2] as u64) << 16)
        | ((b[3] as u64) << 24)
        | ((b[4] as u64) << 32)
        | ((b[5] as u64) << 40)
        | ((b[6] as u64) << 48)
        | ((b[7] as u64) << 56)
}

/// `n` zero bytes.
pub open spec fn zeros(n: nat) -> Seq<u8> {
    Seq::new(n, |i: int| 0u8)
}

/// The 32-bit field at `off`.
pub open spec fn u32_in(b: Seq<u8>, off: int) -> u32 {
    u32_of(b.subrange(off, off + 4))
}

/// The 64-bit field at `off`.
pub open spec fn u64_in(b: Seq<u8>, off: int) -> u64 {
    u64_of(b.subrange(off, off + 8))
}

/// A field reads back as what was written, and has its width.
pub broadcast proof fn lemma_le16(x: u16)
    ensures
        #[trigger] le16(x).len() == 2,
        u16_of(le16(x)) == x,
{
    assert((((x as u8) as u16)
        | ((((x >> 8) as u8) as u16) << 8)) == x) by (bit_vector);
}

/// A field reads back as what was written, and has its width.
pub broadcast proof fn lemma_le32(x: u32)
    ensures
        #[trigger] le32(x).len() == 4,
        u32_of(le32(x)) == x,
{
    assert((((x as u8) as u32)
        | ((((x >> 8) as u8) as u32) << 8)
        | ((((x >> 16) as u8) as u32) << 16)
        | ((((x >> 24) as u8) as u32) << 24)) == x) by (bit_vector);
}

/// A field reads back as what was written, and has its width.
pub broadcast proof fn lemma_le64(x: u64)
    ensures
        #[trigger] le64(x).len() == 8,
        u64_of(le64(x)) == x,
{
    assert((((x as u8) as u64)
        | ((((x >> 8) as u8) as u64) << 8)
        | ((((x >> 16) as u8) as u64) << 16)
        | ((((x >> 24) as u8) as u64) << 24)
        | ((((x >> 32) as u8) as u64) << 32)
        | ((((x >> 40) as u8) as u64) << 40)
        | ((((x >> 48) as u8) as u64) << 48)
        | ((((x >> 56) as u8) as u64) << 56)) == x) by (bit_vector);
}

/// Four bytes are the bytes of the field that they write.
pub proof fn lemma_u32_of(b: Seq<u8>)
    requires
        b.len() == 4,
    ensures
        le32(u32_of(b)) == b,
{
    let (b0, b1, b2, b3) = (b[0], b[1], b[2], b[3]);
    assert({
        let x = (b0 as u32) | ((b1 as u32) << 8) | ((b2 as u32) << 16) | ((b3 as u32) << 24);
        x as u8 == b0 && (x >> 8) as u8 == b1 && (x >> 16) as u8 == b2 && (x >> 24) as u8 == b3
    }) by (bit_vector);
    assert(le32(u32_of(b)) =~= b);
}

/// The bytes of a 16-bit field are its digits to the base 256, and a field is the number that
/// its bytes write.
pub proof fn law_le16_digits(x: u16, b: Seq<u8>)
    ensures
        le16(x)[0] == x % 256,
        le16(x)[1] == x / 0x100 % 256,
        b.len() == 2 ==> u16_of(b) == b[0] + 0x100 * b[1],
{
    assert((x as u8) as u16 == x % 256
        && ((x >> 8) as u8) as u16 == x / 0x100 % 256) by (bit_vector);
    let b0 = b[0];
    let b1 = b[1];
    assert((b0 as u16) | ((b1 as u16) << 8) == b0 + 0x100 * b1) by (bit_vector);
}

/// The bytes of a 32-bit field are its digits to the base 256, and a field is the number that
/// its bytes write.
pub proof fn law_le32_digits(x: u32, b: Seq<u8>)
    ensures
        le32(x)[0] == x % 256,
        le32(x)[1] == x / 0x100 % 256,
        le32(x)[2] == x / 0x10000 % 256,
        le32(x)[3] == x / 0x1000000 % 256,
        b.len() == 4 ==> u32_of(b) == b[0] + 0x100 * b[1] + 0x10000 * b[2] + 0x1000000 * b[3],
{
    assert((x as u8) as u32 == x % 256
        && ((x >> 8) as u8) as u32 == x / 0x100 % 256
        && ((x >> 16) as u8) as u32 == x / 0x10000 % 256
        && ((x >> 24) as u8) as u32 == x / 0x1000000 % 256) by (bit_vector);
    let b0 = b[0];
    let b1 = b[1];
    let b2 = b[2];
    let b3 = b[3];
    assert((b0 as u32) | ((b1 as u32) << 8) | ((b2 as u32) << 16) | ((b3 as u32) << 24)
        == b0 + 0x100 * b1 + 0x10000 * b2 + 0x1000000 * b3) by (bit_vector);
}

/// The bytes of a 64-bit field are its digits to the base 256, and a field is the number that
/// its bytes write.
pub proof fn law_le64_digits(x: u64, b: Seq<u8>)
    ensures
        le64(x)[0] == x % 256,
        le64(x)[1] == x / 0x100 % 256,
        le64(x)[2] == x / 0x10000 % 256,
        le64(x)[3] == x / 0x1000000 % 256,
        le64(x)[4] == x / 0x100000000 % 256,
        le64(x)[5] == x / 0x10000000000 % 256,
        le64(x)[6] == x / 0x1000000000000 % 256,
        le64(x)[7] == x / 0x100000000000000 % 256,
        b.len() == 8 ==> u64_of(b) == b[0] + 0x100 * b[1] + 0x10000 * b[2] + 0x1000000 * b[3]
            + 0x100000000 * b[4] + 0x10000000000 * b[5] + 0x1000000000000 * b[6] + 0x100000000000000
            * b[7],
{
    assert((x as u8) as u64 == x % 256
        && ((x >> 8) as u8) as u64 == x / 0x100 % 256
        && ((x >> 16) as u8) as u64 == x / 0x10000 % 256
        && ((x >> 24) as u8) as u64 == x / 0x1000000 % 256
        && ((x >> 32) as u8) as u64 == x / 0x100000000 % 256
        && ((x >> 40) as u8) as u64 == x / 0x10000000000 % 256
        && ((x >> 48) as u8) as u64 == x / 0x1000000000000 % 256
        && ((x >> 56) as u8) as u64 == x / 0x100000000000000 % 256) by (bit_vector);
    let b0 = b[0];
    let b1 = b[1];
    let b2 = b[2];
    let b3 = b[3];
    let b4 = b[4];
    let b5 = b[5];
    let b6 = b[6];
    let b7 = b[7];
    assert((b0 as u64) | ((b1 as u64) << 8) | ((b2 as u64) << 16) | ((b3 as u64) << 24)
        | ((b4 as u64) << 32) | ((b5 as u64) << 40) | ((b6 as u64) << 48) | ((b7 as u64) << 56)
        == b0 + 0x100 * b1 + 0x10000 * b2 + 0x1000000 * b3 + 0x100000000 * b4
        + 0x10000000000 * b5 + 0x1000000000000 * b6 + 0x100000000000000 * b7) by (bit_vector);
}

/// The 32-bit field at `off`.
pub fn u32_at(b: &[u8], off: usize) -> (x: u32)
    requires
        off + 4 <= b@.len(),
    ensures
        x == u32_in(b@, off as int),
{
    let n: usize = b.len();
    assert(off + 4 <= n);
    (b[off] as u32)
        | ((b[off + 1] as u32) << 8)
        | ((b[off + 2] as u32) << 16)
        | ((b[off + 3] as u32) << 24)
}

/// The 64-bit field at `off`.
pub fn u64_at(b: &[u8], off: usize) -> (x: u64)
    requires
        off + 8 <= b@.len(),
    ensures
        x == u64_in(b@, off as int),
{
    let n: usize = b.len();
    assert(off + 8 <= n);
    (b[off] as u64)
        | ((b[off + 1] as u64) << 8)
        | ((b[off + 2] as u64) << 16)
        | ((b[off + 3] as u64) << 24)
        | ((b[off + 4] as u64) << 32)
        | ((b[off + 5] as u64) << 40)
        | ((b[off + 6] as u64) << 48)
        | ((b[off + 7] as u64) << 56)
}

/// Appends `more` to `out`.
pub fn push_bytes(out: &mut Vec<u8>, more: &[u8])
    ensures
        final(out)@ == old(out)@ + more@,
{
    let mut tail = slice_to_vec(more);
    out.append(&mut tail);
}

/// Appends a 16-bit field.
pub fn push_u16(out: &mut Vec<u8>, x: u16)
    ensures
        final(out)@ == old(out)@ + le16(x),
{
    let ghost before = out@;
    out.push(x as u8);
    out.push((x >> 8) as u8);
    assert(out@ =~= before + le16(x));
}

/// Appends a 32-bit field.
pub fn push_u32(out: &mut Vec<u8>, x: u32)
    ensures
        final(out)@ == old(out)@ + le32(x),
{
    let ghost before = out@;
    out.push(x as u8);
    out.push((x >> 8) as u8);
    out.push((x >> 16) as u8);
    out.push((x >> 24) as u8);
    assert(out@ =~= before + le32(x));
}

/// Appends a 64-bit field.
pub fn push_u64(out: &mut Vec<u8>, x: u64)
    ensures
        final(out)@ == old(out)@ + le64(x),
{
    let ghost before = out@;
    out.push(x as u8);
    out.push((x >> 8) as u8);
    out.push((x >> 16) as u8);
    out.push((x >> 24) as u8);
    out.push((x >> 32) as u8);
    out.push((x >> 40) as u8);
    out.push((x >> 48) as u8);
    out.push((x >> 56) as u8);
    assert(out@ =~= before + le64(x));
}

/// Appends `n` zero bytes.
pub fn push_zeros(out: &mut Vec<u8>, n: usize)
    ensures
        final(out)@ == old(out)@ + zeros(n as nat),
{
    let ghost start = out@;
    let mut i: usize = 0;
    assert(out@ =~= start + zeros(0));
    while i < n
        invariant
            i <= n,
            out@ == start + zeros(i as nat),
        decreases n - i,
    {
        out.push(0u8);
        assert(out@ =~= start + zeros((i + 1) as nat));
        i = i + 1;
    }
}

/// `String::from_utf8`: the text that `bytes` encode, or `None` where they are no UTF-8.
#[verifier::external_body]
fn utf8_to_string(bytes: Vec<u8>) -> (r: Option<String>)
    ensures
        match r {
            Some(s) => valid_utf8(bytes@) && s@ == decode_utf8(bytes@),
            None => !valid_utf8(bytes@),
        },
{
    String::from_utf8(bytes).ok()
}

/// The text that `bytes` encode, or `None` where they are no UTF-8.
pub fn text_from_utf8(bytes: &[u8]) -> (r: Option<String>)
    ensures
        match r {
            Some(s) => valid_utf8(bytes@) && s@ == decode_utf8(bytes@),
            None => !valid_utf8(bytes@),
        },
{
    utf8_to_string(slice_to_vec(bytes))
}

/// The 16-bit field at `off`.
pub open spec fn u16_in(b: Seq<u8>, off: int) -> u16 {
    u16_of(b.subrange(off, off + 2))
}

/// The 16-bit field at `off`.
pub fn u16_at(b: &[u8], off: usize) -> (x: u16)
    requires
        off + 2 <= b@.len(),
    ensures
        x == u16_in(b@, off as int),
{
    let n: usize = b.len();
    assert(off + 2 <= n);
    (b[off] as u16) | ((b[off + 1] as u16) << 8)
}

/// `n` 16-bit fields from `off` on.
pub open spec fn units_in(b: Seq<u8>, off: int, n: nat) -> Seq<u16> {
    Seq::new(n, |i: int| u16_in(b, off + 2 * i))
}

/// [`units_in`].
pub fn units_at(b: &[u8], off: usize, n: usize) -> (out: Vec<u16>)
    requires
        off + 2 * n <= b@.len(),
    ensures
        out@ == units_in(b@, off as int, n as nat),
{
    let len: usize = b.len();
    assert(off + 2 * n <= len);
    let mut out: Vec<u16> = Vec::new();
    let mut i: usize = 0;
    while i < n
        invariant
            i <= n,
            off + 2 * n <= len == b@.len(),
            out@ =~= units_in(b@, off as int, i as nat),
        decreases n - i,
    {
        out.push(u16_at(b, off + 2 * i));
        i = i + 1;
    }
    out
}

/// The bytes of 16-bit fields.
pub open spec fn units_bytes(units: Seq<u16>) -> Seq<u8>
    decreases units.len(),
{
    if units.len() == 0 {
        seq![]
    } else {
        units_bytes(units.drop_last()) + le16(units.last())
    }
}

/// Appends 16-bit fields.
pub fn push_units(out: &mut Vec<u8>, units: &[u16])
    ensures
        final(out)@ == old(out)@ + units_bytes(units@),
{
    let ghost start = out@;
    let mut i: usize = 0;
    assert(out@ =~= start + units_bytes(units@.take(0)));
    while i < units.len()
        invariant
            i <= units@.len(),
            out@ == start + units_bytes(units@.take(i as int)),
        decreases units@.len() - i,
    {
        push_u16(out, units[i]);
        assert(units@.take(i + 1).drop_last() =~= units@.take(i as int));
        assert(out@ =~= start + units_bytes(units@.take(i + 1)));
        i = i + 1;
    }
    assert(units@.take(i as int) =~= units@);
}

/// 16-bit fields have their width.
pub proof fn lemma_units_bytes_len(units: Seq<u16>)
    ensures
        units_bytes(units).len() == 2 * units.len(),
    decreases units.len(),
{
    broadcast use lemma_le16;

    if units.len() > 0 {
        lemma_units_bytes_len(units.drop_last());
    }
}

/// 16-bit fields read back as what was written.
pub proof fn lemma_units_read_back(head: Seq<u8>, units: Seq<u16>, tail: Seq<u8>)
    ensures
        units_in(head + units_bytes(units) + tail, head.len() as int, units.len()) == units,
    decreases units.len(),
{
    broadcast use lemma_le16;

    lemma_units_bytes_len(units);
    let all = head + units_bytes(units) + tail;
    if units.len() > 0 {
        let init = units.drop_last();
        lemma_units_bytes_len(init);
        let rest = le16(units.last()) + tail;
        assert(all =~= head + units_bytes(init) + rest);
        lemma_units_read_back(head, init, rest);
        let k = units.len() - 1;
        assert(all.subrange(head.len() + 2 * k, head.len() + 2 * k + 2) =~= le16(units.last()));
        assert forall|i: int| 0 <= i < units.len() implies units_in(
            all,
            head.len() as int,
            units.len(),
        )[i] == units[i] by {
            if i < k {
                assert(units_in(all, head.len() as int, init.len())[i] == init[i]);
            }
        }
    }
    assert(units_in(all, head.len() as int, units.len()) =~= units);
}

/// Zeros are as many as asked for, and nothing but zero.
pub proof fn law_zeros_are_zero(n: nat, i: int)
    requires
        0 <= i < n,
    ensures
        zeros(n).len() == n,
        zeros(n)[i] == 0,
{
}

/// Units stand one behind the other, two bytes each, the low one first; so they are read again
/// where they were written.
pub proof fn law_units_read_back(units: Seq<u16>, i: int)
    requires
        0 <= i < units.len(),
    ensures
        units_bytes(units).len() == 2 * units.len(),
        units_in(units_bytes(units), 0, units.len())[i] == units[i],
    decreases units.len(),
{
    let b = units_bytes(units);
    let init = units.drop_last();
    let c = units_bytes(init);
    if i < units.len() - 1 {
        law_units_read_back(init, i);
        assert(b.subrange(2 * i, 2 * i + 2) =~= c.subrange(2 * i, 2 * i + 2));
        assert(units_in(c, 0, init.len())[i] == u16_in(c, 2 * i));
        assert(init[i] == units[i]);
    } else {
        if init.len() > 0 {
            law_units_read_back(init, 0);
        }
        assert(b.subrange(2 * i, 2 * i + 2) =~= le16(units.last()));
        lemma_le16(units.last());
    }
    assert(units_in(b, 0, units.len())[i] == u16_in(b, 2 * i));
}

} // verus!
