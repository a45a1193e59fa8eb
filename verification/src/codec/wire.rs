//! Primitive MQTT wire fields: big-endian integers, Variable Byte Integers,
//! length-prefixed UTF-8 strings and binary data.

use vstd::prelude::*;
use vstd::utf8::{decode_utf8, encode_utf8, valid_utf8};
use vstd::arithmetic::div_mod::lemma_fundamental_div_mod_converse as conv;

verus! {

broadcast use {vstd::utf8::encode_utf8_decode_utf8, vstd::utf8::encode_utf8_valid_utf8,
    vstd::utf8::decode_utf8_encode_utf8};

/// The largest value a Variable Byte Integer can hold.
pub const VBI_MAX: u32 = 268_435_455;

/// Two-byte big-endian encoding.
pub open spec fn be16(x: u16) -> Seq<u8> {
    seq![(x / 256) as u8, (x % 256) as u8]
}

/// Four-byte big-endian encoding.
pub open spec fn be32(x: u32) -> Seq<u8> {
    seq![(x / 0x100_0000) as u8, ((x / 0x1_0000) % 256) as u8, ((x / 256) % 256) as u8,
        (x % 256) as u8]
}

/// The minimal Variable Byte Integer encoding of `x` (seven bits per byte,
/// least significant group first, high bit set on every byte but the last).
pub open spec fn vbi(x: u32) -> Seq<u8> {
    if x < 128 {
        seq![x as u8]
    } else if x < 16384 {
        seq![(x % 128 + 128) as u8, (x / 128) as u8]
    } else if x < 2097152 {
        seq![(x % 128 + 128) as u8, ((x / 128) % 128 + 128) as u8, (x / 16384) as u8]
    } else {
        seq![(x % 128 + 128) as u8, ((x / 128) % 128 + 128) as u8, ((x / 16384) % 128 + 128) as u8,
            (x / 2097152) as u8]
    }
}

/// The UTF-8 bytes of a string.
pub open spec fn utf8(s: Seq<char>) -> Seq<u8> {
    encode_utf8(s)
}

/// Whether a string fits a two-byte length prefix.
pub open spec fn str_ok(s: Seq<char>) -> bool {
    utf8(s).len() <= 65535
}

/// A UTF-8 string field: two-byte length, then the bytes.
pub open spec fn str_field(s: Seq<char>) -> Seq<u8> {
    be16(utf8(s).len() as u16) + utf8(s)
}

/// Whether binary data fits a two-byte length prefix.
pub open spec fn bin_ok(b: Seq<u8>) -> bool {
    b.len() <= 65535
}

/// A binary data field: two-byte length, then the bytes.
pub open spec fn bin_field(b: Seq<u8>) -> Seq<u8> {
    be16(b.len() as u16) + b
}

/// Whether `pat` occurs in `buf` at `pos` and ends no later than `end`.
pub open spec fn at(buf: Seq<u8>, pos: int, end: int, pat: Seq<u8>) -> bool {
    &&& 0 <= pos
    &&& pos + pat.len() <= end
    &&& end <= buf.len()
    &&& buf.subrange(pos, pos + pat.len()) == pat
}

/// A match of `a + b` is a match of `a` followed by a match of `b`.
pub proof fn lemma_at_split(buf: Seq<u8>, pos: int, end: int, a: Seq<u8>, b: Seq<u8>)
    requires
        at(buf, pos, end, a + b),
    ensures
        at(buf, pos, end, a),
        at(buf, pos + a.len(), end, b),
{
    let w = buf.subrange(pos, pos + a.len() + b.len());
    assert(w == a + b);
    assert(buf.subrange(pos, pos + a.len()) == w.subrange(0, a.len() as int));
    assert((a + b).subrange(0, a.len() as int) == a);
    assert(buf.subrange(pos + a.len(), pos + a.len() + b.len()) == w.subrange(a.len() as int, (a.len() + b.len()) as int));
    assert((a + b).subrange(a.len() as int, (a.len() + b.len()) as int) == b);
}

/// A match stays a match under any bound that still covers it.
pub proof fn lemma_at_bound(buf: Seq<u8>, pos: int, end: int, pat: Seq<u8>, end2: int)
    requires
        at(buf, pos, end, pat),
        pos + pat.len() <= end2 <= buf.len(),
    ensures
        at(buf, pos, end2, pat),
{
}

pub proof fn lemma_vbi_len(x: u32)
    requires
        x <= VBI_MAX,
    ensures
        1 <= vbi(x).len() <= 4,
        vbi(x).len() == 1 <==> x < 128,
{
}

/// Every byte of a Variable Byte Integer but the last has its high bit set.
pub proof fn lemma_vbi_high_bits(x: u32, i: int)
    requires
        x <= VBI_MAX,
        0 <= i < vbi(x).len() - 1,
    ensures
        vbi(x)[i] >= 128,
{
}

/// Calls `String::from_utf8`. Claims what its documentation says: it
/// succeeds exactly when the bytes are valid UTF-8, and the string then
/// holds the characters those bytes encode.
#[verifier::external_body]
fn string_from_utf8(bytes: Vec<u8>) -> (r: Option<String>)
    ensures
        r is Some <==> valid_utf8(bytes@),
        r matches Some(s) ==> s@ == decode_utf8(bytes@),
{
    String::from_utf8(bytes).ok()
}

/// Appends the bytes of `src` to `out`.
pub fn put_bytes(out: &mut Vec<u8>, src: &[u8])
    ensures
        final(out)@ == old(out)@ + src@,
{
    let mut i: usize = 0;
    while i < src.len()
        invariant
            i <= src@.len(),
            out@ == old(out)@ + src@.take(i as int),
        decreases src@.len() - i,
    {
        out.push(src[i]);
        assert(src@.take(i + 1) == src@.take(i as int).push(src@[i as int]));
        i += 1;
    }
    assert(src@.take(src@.len() as int) == src@);
}

/// Appends a two-byte big-endian integer.
pub fn put_u16(out: &mut Vec<u8>, x: u16)
    ensures
        final(out)@ == old(out)@ + be16(x),
{
    out.push((x / 256) as u8);
    out.push((x % 256) as u8);
    assert(out@ == old(out)@ + be16(x));
}

/// Appends a four-byte big-endian integer.
pub fn put_u32(out: &mut Vec<u8>, x: u32)
    ensures
        final(out)@ == old(out)@ + be32(x),
{
    out.push((x / 0x100_0000) as u8);
    out.push(((x / 0x1_0000) % 256) as u8);
    out.push(((x / 256) % 256) as u8);
    out.push((x % 256) as u8);
    assert(out@ == old(out)@ + be32(x));
}

/// Appends the Variable Byte Integer encoding of `x`.
pub fn put_vbi(out: &mut Vec<u8>, x: u32)
    requires
        x <= VBI_MAX,
    ensures
        final(out)@ == old(out)@ + vbi(x),
{
    if x < 128 {
        out.push(x as u8);
    } else if x < 16384 {
        out.push((x % 128 + 128) as u8);
        out.push((x / 128) as u8);
    } else if x < 2097152 {
        out.push((x % 128 + 128) as u8);
        out.push(((x / 128) % 128 + 128) as u8);
        out.push((x / 16384) as u8);
    } else {
        out.push((x % 128 + 128) as u8);
        out.push(((x / 128) % 128 + 128) as u8);
        out.push(((x / 16384) % 128 + 128) as u8);
        out.push((x / 2097152) as u8);
    }
    assert(out@ == old(out)@ + vbi(x));
}

/// Appends a length-prefixed UTF-8 string, or returns false (leaving `out`
/// unchanged) when the string is longer than 65535 bytes.
pub fn put_str(out: &mut Vec<u8>, s: &String) -> (ok: bool)
    ensures
        ok == str_ok(s@),
        ok ==> final(out)@ == old(out)@ + str_field(s@),
        !ok ==> final(out)@ == old(out)@,
{
    let bytes = s.as_str().as_bytes();
    if bytes.len() > 65535 {
        return false;
    }
    put_u16(out, bytes.len() as u16);
    put_bytes(out, bytes);
    true
}

/// Appends length-prefixed binary data, or returns false (leaving `out`
/// unchanged) when it is longer than 65535 bytes.
pub fn put_bin(out: &mut Vec<u8>, b: &[u8]) -> (ok: bool)
    ensures
        ok == bin_ok(b@),
        ok ==> final(out)@ == old(out)@ + bin_field(b@),
        !ok ==> final(out)@ == old(out)@,
{
    if b.len() > 65535 {
        return false;
    }
    put_u16(out, b.len() as u16);
    put_bytes(out, b);
    true
}

/// Reads one byte at `pos`, if it lies before `end`.
pub fn get_u8(buf: &[u8], pos: usize, end: usize) -> (r: Option<(u8, usize)>)
    requires
        pos <= end <= buf@.len(),
    ensures
        r is Some <==> pos + 1 <= end,
        r matches Some((x, e)) ==> e == pos + 1 && buf@[pos as int] == x && at(buf@, pos as int,
            end as int, seq![x]),
{
    if pos < end {
        assert(buf@.subrange(pos as int, pos + 1) == seq![buf@[pos as int]]);
        Some((buf[pos], pos + 1))
    } else {
        None
    }
}

/// Reads a two-byte big-endian integer.
pub fn get_u16(buf: &[u8], pos: usize, end: usize) -> (r: Option<(u16, usize)>)
    requires
        pos <= end <= buf@.len(),
    ensures
        r is Some <==> pos + 2 <= end,
        r matches Some((x, e)) ==> e == pos + 2 && at(buf@, pos as int, end as int, be16(x)),
        forall|y: u16| #[trigger] at(buf@, pos as int, end as int, be16(y)) ==> r == Some((y, (pos + 2) as usize)),
{
    if end - pos < 2 {
        return None;
    }
    let b0 = buf[pos];
    let b1 = buf[pos + 1];
    let x: u16 = (b0 as u16) * 256 + (b1 as u16);
    proof {
        vstd::arithmetic::div_mod::lemma_fundamental_div_mod_converse(x as int, 256, b0 as int, b1 as int);
        assert(buf@.subrange(pos as int, pos + 2) == be16(x));
        assert forall|y: u16| #[trigger] at(buf@, pos as int, end as int, be16(y)) implies x == y by {
            assert(buf@.subrange(pos as int, pos + 2)[0] == be16(y)[0]);
            assert(buf@.subrange(pos as int, pos + 2)[1] == be16(y)[1]);
            vstd::arithmetic::div_mod::lemma_fundamental_div_mod(y as int, 256);
        }
    }
    Some((x, pos + 2))
}

/// Reads a four-byte big-endian integer.
pub fn get_u32(buf: &[u8], pos: usize, end: usize) -> (r: Option<(u32, usize)>)
    requires
        pos <= end <= buf@.len(),
    ensures
        r is Some <==> pos + 4 <= end,
        r matches Some((x, e)) ==> e == pos + 4 && at(buf@, pos as int, end as int, be32(x)),
        forall|y: u32| #[trigger] at(buf@, pos as int, end as int, be32(y)) ==> r == Some((y, (pos + 4) as usize)),
{
    if end - pos < 4 {
        return None;
    }
    let b0 = buf[pos] as u32;
    let b1 = buf[pos + 1] as u32;
    let b2 = buf[pos + 2] as u32;
    let b3 = buf[pos + 3] as u32;
    let x: u32 = b0 * 0x100_0000 + b1 * 0x1_0000 + b2 * 256 + b3;
    proof {
        lemma_be32_parts(x, b0, b1, b2, b3);
        assert(buf@.subrange(pos as int, pos + 4) == be32(x));
        assert forall|y: u32| #[trigger] at(buf@, pos as int, end as int, be32(y)) implies x == y by {
            let s = buf@.subrange(pos as int, pos + 4);
            assert(s[0] == be32(y)[0] && s[1] == be32(y)[1] && s[2] == be32(y)[2] && s[3] == be32(y)[3]);
            lemma_be32_recompose(y);
        }
    }
    Some((x, pos + 4))
}

proof fn lemma_be32_parts(x: u32, b0: u32, b1: u32, b2: u32, b3: u32)
    requires
        b0 < 256, b1 < 256, b2 < 256, b3 < 256,
        x == b0 * 0x100_0000 + b1 * 0x1_0000 + b2 * 256 + b3,
    ensures
        x / 0x100_0000 == b0,
        (x / 0x1_0000) % 256 == b1,
        (x / 256) % 256 == b2,
        x % 256 == b3,
{
    conv(x as int, 256, (b0 * 0x1_0000 + b1 * 256 + b2) as int, b3 as int);
    conv((x / 256) as int, 256, (b0 * 256 + b1) as int, b2 as int);
    conv(x as int, 0x1_0000, (b0 * 256 + b1) as int, (b2 * 256 + b3) as int);
    conv((x / 0x1_0000) as int, 256, b0 as int, b1 as int);
    conv(x as int, 0x100_0000, b0 as int, (b1 * 0x1_0000 + b2 * 256 + b3) as int);
}

proof fn lemma_be32_recompose(y: u32)
    ensures
        y == (y / 0x100_0000) * 0x100_0000 + ((y / 0x1_0000) % 256) * 0x1_0000 + ((y / 256) % 256) * 256
            + y % 256,
{
    assert(y == (y / 0x100_0000) * 0x100_0000 + ((y / 0x1_0000) % 256) * 0x1_0000 + ((y / 256) % 256)
        * 256 + y % 256) by (bit_vector);
}

/// The outcome of reading a Variable Byte Integer.
pub enum VbiRead {
    /// The value and the position after its last byte.
    Value(u32, usize),
    /// The buffer ends before the last byte.
    Incomplete,
    /// Five or more bytes, or a longer encoding than the value needs.
    Malformed,
}

/// Reads a minimally encoded Variable Byte Integer at `pos`.
#[verifier::rlimit(60)]
pub fn get_vbi(buf: &[u8], pos: usize, end: usize) -> (r: VbiRead)
    requires
        pos <= end <= buf@.len(),
    ensures
        r matches VbiRead::Value(x, e) ==> x <= VBI_MAX && e == pos + vbi(x).len() && at(buf@,
            pos as int, end as int, vbi(x)),
        forall|y: u32| y <= VBI_MAX && #[trigger] at(buf@, pos as int, end as int, vbi(y)) ==> r
            == VbiRead::Value(y, (pos + vbi(y).len()) as usize),
        r is Incomplete ==> forall|k: int| pos <= k < end ==> #[trigger] buf@[k] >= 128,
        r is Incomplete ==> end - pos < 4,
        end - pos < 4 && (forall|k: int| pos <= k < end ==> #[trigger] buf@[k] >= 128) ==> r is Incomplete,
{
    if pos >= end {
        return VbiRead::Incomplete;
    }
    let b0 = buf[pos] as u32;
    if b0 < 128 {
        proof {
            assert(buf@.subrange(pos as int, pos + 1) == vbi(b0));
            assert forall|y: u32| y <= VBI_MAX && #[trigger] at(buf@, pos as int, end as int, vbi(y))
                implies y == b0 by {
                assert(buf@.subrange(pos as int, pos + vbi(y).len())[0] == vbi(y)[0]);
            }
        }
        return VbiRead::Value(b0, pos + 1);
    }
    if pos + 1 >= end {
        proof {
            assert forall|y: u32| y <= VBI_MAX && #[trigger] at(buf@, pos as int, end as int, vbi(y))
                implies false by {
                assert(buf@.subrange(pos as int, pos + vbi(y).len())[0] == vbi(y)[0]);
            }
        }
        return VbiRead::Incomplete;
    }
    let b1 = buf[pos + 1] as u32;
    if b1 < 128 {
        if b1 == 0 {
            proof {
                assert forall|y: u32| y <= VBI_MAX && #[trigger] at(buf@, pos as int, end as int,
                    vbi(y)) implies false by {
                    let s = buf@.subrange(pos as int, pos + vbi(y).len());
                    assert(s[0] == vbi(y)[0]);
                    assert(s[1] == vbi(y)[1]);
                }
            }
            return VbiRead::Malformed;
        }
        let x = (b0 - 128) + b1 * 128;
        proof {
            conv(x as int, 128, b1 as int, (b0 - 128) as int);
            assert(buf@.subrange(pos as int, pos + 2) == vbi(x));
            assert forall|y: u32| y <= VBI_MAX && #[trigger] at(buf@, pos as int, end as int, vbi(y))
                implies y == x by {
                let s = buf@.subrange(pos as int, pos + vbi(y).len());
                assert(s[0] == vbi(y)[0]);
                assert(s[1] == vbi(y)[1]);
                vstd::arithmetic::div_mod::lemma_fundamental_div_mod(y as int, 128);
            }
        }
        return VbiRead::Value(x, pos + 2);
    }
    if pos + 2 >= end {
        proof {
            assert forall|y: u32| y <= VBI_MAX && #[trigger] at(buf@, pos as int, end as int, vbi(y))
                implies false by {
                let s = buf@.subrange(pos as int, pos + vbi(y).len());
                assert(s[0] == vbi(y)[0]);
                if vbi(y).len() == 2 {
                    assert(s[1] == vbi(y)[1]);
                }
            }
        }
        return VbiRead::Incomplete;
    }
    let b2 = buf[pos + 2] as u32;
    if b2 < 128 {
        if b2 == 0 {
            proof {
                assert forall|y: u32| y <= VBI_MAX && #[trigger] at(buf@, pos as int, end as int,
                    vbi(y)) implies false by {
                    let s = buf@.subrange(pos as int, pos + vbi(y).len());
                    assert(s[0] == vbi(y)[0]);
                    assert(s[1] == vbi(y)[1]);
                    assert(s[2] == vbi(y)[2]);
                }
            }
            return VbiRead::Malformed;
        }
        let x = (b0 - 128) + (b1 - 128) * 128 + b2 * 16384;
        proof {
            conv(x as int, 128, ((b1 - 128) + b2 * 128) as int, (b0 - 128) as int);
            conv((x / 128) as int, 128, b2 as int, (b1 - 128) as int);
            conv(x as int, 16384, b2 as int, ((b0 - 128) + (b1 - 128) * 128) as int);
            assert(buf@.subrange(pos as int, pos + 3) == vbi(x));
            assert forall|y: u32| y <= VBI_MAX && #[trigger] at(buf@, pos as int, end as int, vbi(y))
                implies y == x by {
                let s = buf@.subrange(pos as int, pos + vbi(y).len());
                assert(s[0] == vbi(y)[0]);
                assert(s[1] == vbi(y)[1]);
                assert(s[2] == vbi(y)[2]);
                lemma_vbi3_recompose(y);
            }
        }
        return VbiRead::Value(x, pos + 3);
    }
    if pos + 3 >= end {
        proof {
            assert forall|y: u32| y <= VBI_MAX && #[trigger] at(buf@, pos as int, end as int, vbi(y))
                implies false by {
                let s = buf@.subrange(pos as int, pos + vbi(y).len());
                assert(s[0] == vbi(y)[0]);
                if vbi(y).len() >= 2 {
                    assert(s[1] == vbi(y)[1]);
                }
                if vbi(y).len() >= 3 {
                    assert(s[2] == vbi(y)[2]);
                }
            }
        }
        return VbiRead::Incomplete;
    }
    let b3 = buf[pos + 3] as u32;
    if b3 >= 128 || b3 == 0 {
        proof {
            assert forall|y: u32| y <= VBI_MAX && #[trigger] at(buf@, pos as int, end as int, vbi(y))
                implies false by {
                let s = buf@.subrange(pos as int, pos + vbi(y).len());
                assert(s[0] == vbi(y)[0]);
                assert(s[1] == vbi(y)[1]);
                assert(s[2] == vbi(y)[2]);
                assert(s[3] == vbi(y)[3]);
                lemma_vbi4_top(y);
            }
        }
        return VbiRead::Malformed;
    }
    let x = (b0 - 128) + (b1 - 128) * 128 + (b2 - 128) * 16384 + b3 * 2097152;
    proof {
        conv(x as int, 128, ((b1 - 128) + (b2 - 128) * 128 + b3 * 16384) as int, (b0 - 128) as int);
        conv((x / 128) as int, 128, ((b2 - 128) + b3 * 128) as int, (b1 - 128) as int);
        conv(x as int, 16384, ((b2 - 128) + b3 * 128) as int, ((b0 - 128) + (b1 - 128) * 128) as int);
        conv((x / 16384) as int, 128, b3 as int, (b2 - 128) as int);
        conv(x as int, 2097152, b3 as int, ((b0 - 128) + (b1 - 128) * 128 + (b2 - 128) * 16384) as int);
        assert(buf@.subrange(pos as int, pos + 4) == vbi(x));
        assert forall|y: u32| y <= VBI_MAX && #[trigger] at(buf@, pos as int, end as int, vbi(y))
            implies y == x by {
            let s = buf@.subrange(pos as int, pos + vbi(y).len());
            assert(s[0] == vbi(y)[0]);
            assert(s[1] == vbi(y)[1]);
            assert(s[2] == vbi(y)[2]);
            assert(s[3] == vbi(y)[3]);
            lemma_vbi4_recompose(y);
        }
    }
    VbiRead::Value(x, pos + 4)
}

proof fn lemma_vbi3_recompose(y: u32)
    requires
        16384 <= y < 2097152,
    ensures
        y == y % 128 + ((y / 128) % 128) * 128 + (y / 16384) * 16384,
        y / 16384 < 128,
{
    assert(y < 2097152 ==> y == y % 128 + ((y / 128) % 128) * 128 + (y / 16384) * 16384 && y / 16384 < 128)
        by (bit_vector);
}

proof fn lemma_vbi4_recompose(y: u32)
    requires
        2097152 <= y <= VBI_MAX,
    ensures
        y == y % 128 + ((y / 128) % 128) * 128 + ((y / 16384) % 128) * 16384 + (y / 2097152) * 2097152,
{
    assert(y == y % 128 + ((y / 128) % 128) * 128 + ((y / 16384) % 128) * 16384 + (y / 2097152)
        * 2097152) by (bit_vector);
}

proof fn lemma_vbi4_top(y: u32)
    requires
        2097152 <= y <= VBI_MAX,
    ensures
        1 <= y / 2097152 < 128,
{
    assert(2097152 <= y <= 268_435_455u32 ==> 1 <= y / 2097152 < 128) by (bit_vector);
}

/// Reads `len` raw bytes at `pos`.
pub fn get_bytes(buf: &[u8], pos: usize, end: usize, len: usize) -> (r: Option<(Vec<u8>, usize)>)
    requires
        pos <= end <= buf@.len(),
    ensures
        r is Some <==> pos + len <= end,
        r matches Some((b, e)) ==> e == pos + len && b@ == buf@.subrange(pos as int, e as int),
{
    if end - pos < len {
        return None;
    }
    let b = vstd::slice::slice_to_vec(vstd::slice::slice_subrange(buf, pos, pos + len));
    Some((b, pos + len))
}

/// Reads length-prefixed binary data.
pub fn get_bin(buf: &[u8], pos: usize, end: usize) -> (r: Option<(Vec<u8>, usize)>)
    requires
        pos <= end <= buf@.len(),
    ensures
        r matches Some((b, e)) ==> bin_ok(b@) && e == pos + bin_field(b@).len() && at(buf@,
            pos as int, end as int, bin_field(b@)),
        forall|y: Seq<u8>| bin_ok(y) && #[trigger] at(buf@, pos as int, end as int, bin_field(y))
            ==> (r matches Some((b, e)) && b@ == y && e == pos + bin_field(y).len()),
{
    let (len, p) = match get_u16(buf, pos, end) {
        Some(v) => v,
        None => {
            proof {
                assert forall|y: Seq<u8>| bin_ok(y) && #[trigger] at(buf@, pos as int, end as int,
                    bin_field(y)) implies false by {
                    assert(bin_field(y).len() >= 2);
                }
            }
            return None;
        },
    };
    proof {
        assert forall|y: Seq<u8>| bin_ok(y) && #[trigger] at(buf@, pos as int, end as int,
            bin_field(y)) implies len == y.len() && at(buf@, pos as int, end as int, be16(y.len() as u16)) by {
            assert(buf@.subrange(pos as int, pos + 2) == bin_field(y).subrange(0, 2));
            assert(bin_field(y).subrange(0, 2) == be16(y.len() as u16));
        }
    }
    match get_bytes(buf, p, end, len as usize) {
        Some((b, e)) => {
            proof {
                assert(buf@.subrange(pos as int, e as int) == buf@.subrange(pos as int, p as int)
                    + buf@.subrange(p as int, e as int));
                assert forall|y: Seq<u8>| bin_ok(y) && #[trigger] at(buf@, pos as int, end as int,
                    bin_field(y)) implies b@ == y by {
                    assert(bin_field(y).subrange(2, bin_field(y).len() as int) == y);
                    assert(buf@.subrange(p as int, e as int) == buf@.subrange(pos as int, pos + bin_field(y).len()).subrange(2, bin_field(y).len() as int));
                }
            }
            Some((b, e))
        },
        None => {
            proof {
                assert forall|y: Seq<u8>| bin_ok(y) && #[trigger] at(buf@, pos as int, end as int,
                    bin_field(y)) implies false by {
                }
            }
            None
        },
    }
}

/// Reads a length-prefixed UTF-8 string; `None` also when the bytes are
/// not valid UTF-8.
pub fn get_str(buf: &[u8], pos: usize, end: usize) -> (r: Option<(String, usize)>)
    requires
        pos <= end <= buf@.len(),
    ensures
        r matches Some((s, e)) ==> str_ok(s@) && e == pos + str_field(s@).len() && at(buf@,
            pos as int, end as int, str_field(s@)),
        forall|y: Seq<char>| str_ok(y) && #[trigger] at(buf@, pos as int, end as int, str_field(y))
            ==> (r matches Some((s, e)) && s@ == y && e == pos + str_field(y).len()),
{
    match get_bin(buf, pos, end) {
        Some((b, e)) => {
            let ghost bytes = b@;
            proof {
                assert forall|y: Seq<char>| str_ok(y) && #[trigger] at(buf@, pos as int, end as int,
                    str_field(y)) implies bytes == utf8(y) by {
                    assert(str_field(y) == bin_field(utf8(y)));
                }
            }
            match string_from_utf8(b) {
                Some(s) => {
                    proof {
                        assert(utf8(s@) == bytes);
                        assert(str_field(s@) == bin_field(bytes));
                    }
                    Some((s, e))
                },
                None => None,
            }
        },
        None => {
            proof {
                assert forall|y: Seq<char>| str_ok(y) && #[trigger] at(buf@, pos as int, end as int,
                    str_field(y)) implies false by {
                    assert(str_field(y) == bin_field(utf8(y)));
                }
            }
            None
        },
    }
}

/// A copy of a byte vector.
pub fn copy_bytes(v: &Vec<u8>) -> (r: Vec<u8>)
    ensures
        r@ == v@,
{
    vstd::slice::slice_to_vec(v.as_slice())
}

} // verus!
