//! Byte-level primitives of the wire format.
//!
//! Integers travel as fixed-width little-endian bytes; a string travels as a
//! 32-bit character count followed by each character's Unicode scalar value
//! as four little-endian bytes; a byte payload travels as a 32-bit length
//! followed by the raw bytes. Every reader is deterministic: its result is a
//! function of the buffer and the start offset alone, which is what the
//! round-trip contracts of the message codecs are built from.

use vstd::prelude::*;
use vstd::bytes::{
    lemma_auto_spec_u32_to_from_le_bytes, lemma_auto_spec_u64_to_from_le_bytes,
    spec_u32_from_le_bytes, spec_u32_to_le_bytes, spec_u64_from_le_bytes, spec_u64_to_le_bytes,
    u32_from_le_bytes, u32_to_le_bytes, u64_from_le_bytes, u64_to_le_bytes,
};
use vstd::slice::{slice_subrange, slice_to_vec};

verus! {

/// Largest string or byte-payload length the wire format can carry.
pub const MAX_FIELD_LEN: u64 = 0xFFFF_FFFF;

// ---------------------------------------------------------------------------
// Unsigned integers, little endian
// ---------------------------------------------------------------------------

pub open spec fn can_rd_u8(b: Seq<u8>, i: int) -> bool {
    0 <= i && i + 1 <= b.len()
}

pub open spec fn rd_u8(b: Seq<u8>, i: int) -> u8 {
    b[i]
}

pub open spec fn can_rd_u32(b: Seq<u8>, i: int) -> bool {
    0 <= i && i + 4 <= b.len()
}

pub open spec fn rd_u32(b: Seq<u8>, i: int) -> u32 {
    spec_u32_from_le_bytes(b.subrange(i, i + 4))
}

pub open spec fn can_rd_u64(b: Seq<u8>, i: int) -> bool {
    0 <= i && i + 8 <= b.len()
}

pub open spec fn rd_u64(b: Seq<u8>, i: int) -> u64 {
    spec_u64_from_le_bytes(b.subrange(i, i + 8))
}

pub fn push_u8(out: &mut Vec<u8>, v: u8)
    ensures
        final(out)@ == old(out)@.push(v),
{
    out.push(v);
}

pub fn push_u32(out: &mut Vec<u8>, v: u32)
    ensures
        final(out)@ == old(out)@ + spec_u32_to_le_bytes(v),
{
    let mut bytes = u32_to_le_bytes(v);
    out.append(&mut bytes);
}

pub fn push_u64(out: &mut Vec<u8>, v: u64)
    ensures
        final(out)@ == old(out)@ + spec_u64_to_le_bytes(v),
{
    let mut bytes = u64_to_le_bytes(v);
    out.append(&mut bytes);
}

pub fn read_u8(b: &Vec<u8>, i: &mut usize) -> (r: Option<u8>)
    ensures
        can_rd_u8(b@, *old(i) as int) ==> r == Some(rd_u8(b@, *old(i) as int)) && *final(i)
            == *old(i) + 1,
        !can_rd_u8(b@, *old(i) as int) ==> r is None && *final(i) == *old(i),
{
    if *i < b.len() {
        let v = b[*i];
        *i = *i + 1;
        Some(v)
    } else {
        None
    }
}

pub fn read_u32(b: &Vec<u8>, i: &mut usize) -> (r: Option<u32>)
    ensures
        can_rd_u32(b@, *old(i) as int) ==> r == Some(rd_u32(b@, *old(i) as int)) && *final(i)
            == *old(i) + 4,
        !can_rd_u32(b@, *old(i) as int) ==> r is None && *final(i) == *old(i),
{
    if *i <= b.len() && b.len() - *i >= 4 {
        let s = slice_subrange(b.as_slice(), *i, *i + 4);
        let v = u32_from_le_bytes(s);
        *i = *i + 4;
        Some(v)
    } else {
        None
    }
}

pub fn read_u64(b: &Vec<u8>, i: &mut usize) -> (r: Option<u64>)
    ensures
        can_rd_u64(b@, *old(i) as int) ==> r == Some(rd_u64(b@, *old(i) as int)) && *final(i)
            == *old(i) + 8,
        !can_rd_u64(b@, *old(i) as int) ==> r is None && *final(i) == *old(i),
{
    if *i <= b.len() && b.len() - *i >= 8 {
        let s = slice_subrange(b.as_slice(), *i, *i + 8);
        let v = u64_from_le_bytes(s);
        *i = *i + 8;
        Some(v)
    } else {
        None
    }
}

// ---------------------------------------------------------------------------
// Characters
// ---------------------------------------------------------------------------

/// Whether a 32-bit value is a Unicode scalar value, i.e. the value of some
/// `char`: not a surrogate and at most the last code point.
pub open spec fn scalar_ok(v: u32) -> bool {
    v < 0xD800 || (0xE000 <= v && v <= 0x10FFFF)
}

/// Relies on char::from_u32: it returns Some exactly when the argument is a
/// Unicode scalar value (not in 0xD800..=0xDFFF and at most 0x10FFFF), and
/// the returned char has the argument as its value.
#[verifier::external_body]
pub(crate) fn char_from_u32(v: u32) -> (r: Option<char>)
    ensures
        r is Some <==> scalar_ok(v),
        r matches Some(c) ==> c as u32 == v,
{
    char::from_u32(v)
}

/// Relies on String::push: it appends the one character to the string.
#[verifier::external_body]
pub(crate) fn string_push(s: &mut String, c: char)
    ensures
        final(s)@ == old(s)@.push(c),
{
    s.push(c);
}

// ---------------------------------------------------------------------------
// Strings: a 32-bit character count, then one 32-bit scalar per character
// ---------------------------------------------------------------------------

pub open spec fn spec_enc_chars(s: Seq<char>) -> Seq<u8>
    decreases s.len(),
{
    if s.len() == 0 {
        Seq::empty()
    } else {
        spec_u32_to_le_bytes(s[0] as u32) + spec_enc_chars(s.drop_first())
    }
}

pub open spec fn spec_enc_str(s: Seq<char>) -> Seq<u8>
    recommends
        s.len() <= MAX_FIELD_LEN,
{
    spec_u32_to_le_bytes(s.len() as u32) + spec_enc_chars(s)
}

pub open spec fn chars_ok(b: Seq<u8>, i: int, n: int) -> bool {
    forall|k: int| 0 <= k < n ==> scalar_ok(#[trigger] rd_u32(b, i + 4 * k))
}

pub open spec fn rd_chars(b: Seq<u8>, i: int, n: int) -> Seq<char>
    recommends
        n >= 0,
{
    Seq::new(n as nat, |k: int| rd_u32(b, i + 4 * k) as char)
}

pub open spec fn can_rd_str(b: Seq<u8>, i: int) -> bool {
    &&& can_rd_u32(b, i)
    &&& i + 4 + 4 * (rd_u32(b, i) as int) <= b.len()
    &&& chars_ok(b, i + 4, rd_u32(b, i) as int)
}

pub open spec fn rd_str(b: Seq<u8>, i: int) -> Seq<char> {
    rd_chars(b, i + 4, rd_u32(b, i) as int)
}

pub open spec fn rd_str_end(b: Seq<u8>, i: int) -> int {
    i + 4 + 4 * (rd_u32(b, i) as int)
}

proof fn lemma_enc_chars_len(s: Seq<char>)
    ensures
        spec_enc_chars(s).len() == 4 * s.len(),
    decreases s.len(),
{
    lemma_auto_spec_u32_to_from_le_bytes();
    if s.len() > 0 {
        lemma_enc_chars_len(s.drop_first());
    }
}

/// Each character's four bytes sit at offset `4 * k` of the encoding.
proof fn lemma_enc_chars_index(s: Seq<char>, k: int)
    requires
        0 <= k < s.len(),
    ensures
        spec_enc_chars(s).subrange(4 * k, 4 * k + 4) == spec_u32_to_le_bytes(s[k] as u32),
    decreases k,
{
    lemma_auto_spec_u32_to_from_le_bytes();
    lemma_enc_chars_len(s);
    lemma_enc_chars_len(s.drop_first());
    if k == 0 {
        assert(spec_enc_chars(s).subrange(0, 4) =~= spec_u32_to_le_bytes(s[0] as u32));
    } else {
        lemma_enc_chars_index(s.drop_first(), k - 1);
        assert(spec_enc_chars(s).subrange(4 * k, 4 * k + 4) =~= spec_enc_chars(
            s.drop_first(),
        ).subrange(4 * (k - 1), 4 * (k - 1) + 4));
        assert(s.drop_first()[k - 1] == s[k]);
    }
}

pub fn push_str(out: &mut Vec<u8>, s: &str)
    requires
        s@.len() <= MAX_FIELD_LEN,
    ensures
        final(out)@ == old(out)@ + spec_enc_str(s@),
{
    let n = s.unicode_len();
    push_u32(out, n as u32);
    let ghost base = out@;
    let mut j: usize = 0;
    while j < n
        invariant
            j <= n,
            n == s@.len(),
            n <= MAX_FIELD_LEN,
            out@ == base + spec_enc_chars(s@.take(j as int)),
        decreases n - j,
    {
        let c = s.get_char(j);
        push_u32(out, c as u32);
        proof {
            lemma_enc_chars_snoc(s@.take(j as int), s@[j as int]);
            assert(s@.take(j as int).push(s@[j as int]) =~= s@.take(j + 1 as int));
        }
        j = j + 1;
    }
    proof {
        assert(s@.take(n as int) =~= s@);
    }
}

/// Appending one character extends the encoding by that character's bytes.
proof fn lemma_enc_chars_snoc(s: Seq<char>, c: char)
    ensures
        spec_enc_chars(s.push(c)) == spec_enc_chars(s) + spec_u32_to_le_bytes(c as u32),
    decreases s.len(),
{
    let t = s.push(c);
    assert(t.len() == s.len() + 1);
    if s.len() == 0 {
        assert(t[0] == c);
        assert(t.drop_first() =~= Seq::<char>::empty());
        assert(spec_enc_chars(t) == spec_u32_to_le_bytes(c as u32) + spec_enc_chars(
            Seq::<char>::empty(),
        ));
        assert(spec_enc_chars(t) =~= spec_enc_chars(s) + spec_u32_to_le_bytes(c as u32));
    } else {
        lemma_enc_chars_snoc(s.drop_first(), c);
        assert(t[0] == s[0]);
        assert(t.drop_first() =~= s.drop_first().push(c));
        assert(spec_enc_chars(t) == spec_u32_to_le_bytes(s[0] as u32) + spec_enc_chars(
            s.drop_first().push(c),
        ));
        assert(spec_enc_chars(t) =~= spec_enc_chars(s) + spec_u32_to_le_bytes(c as u32));
    }
}

pub fn read_str(b: &Vec<u8>, i: &mut usize) -> (r: Option<String>)
    requires
        *old(i) <= b@.len(),
    ensures
        can_rd_str(b@, *old(i) as int) ==> (r matches Some(s) && s@ == rd_str(b@, *old(i) as int)
            && *final(i) == rd_str_end(b@, *old(i) as int)),
        !can_rd_str(b@, *old(i) as int) ==> r is None,
{
    let ghost start = *i as int;
    let n = match read_u32(b, i) {
        Some(n) => n,
        None => {
            return None;
        },
    };
    let mut s = String::new();
    let mut k: u32 = 0;
    loop
        invariant
            start == *old(i) as int,
            k <= n,
            can_rd_u32(b@, start),
            n == rd_u32(b@, start),
            *i == start + 4 + 4 * (k as int),
            *i <= b@.len(),
            s@ == rd_chars(b@, start + 4, k as int),
            chars_ok(b@, start + 4, k as int),
        ensures
            start == *old(i) as int,
            can_rd_str(b@, start),
            k == n,
            s@ == rd_str(b@, start),
            *i == rd_str_end(b@, start),
        decreases n - k,
    {
        if k == n {
            break ;
        }
        let v = match read_u32(b, i) {
            Some(v) => v,
            None => {
                proof {
                    assert(start + 4 + 4 * (k as int) + 4 > b@.len());
                    assert(4 * (k as int) + 4 <= 4 * (n as int));
                    assert(!can_rd_str(b@, start));
                }
                return None;
            },
        };
        let c = match char_from_u32(v) {
            Some(c) => c,
            None => {
                proof {
                    assert(!scalar_ok(rd_u32(b@, start + 4 + 4 * (k as int))));
                    assert(!can_rd_str(b@, start));
                }
                return None;
            },
        };
        string_push(&mut s, c);
        proof {
            vstd::utf8::char_u32_cast(c, v);
            assert(s@ =~= rd_chars(b@, start + 4, k + 1 as int));
        }
        k = k + 1;
    }
    Some(s)
}

/// A buffer that carries `spec_enc_str(s)` at offset `i` reads back as `s`.
pub proof fn lemma_str_readback(b: Seq<u8>, i: int, s: Seq<char>)
    requires
        0 <= i,
        s.len() <= MAX_FIELD_LEN,
        i + spec_enc_str(s).len() <= b.len(),
        b.subrange(i, i + spec_enc_str(s).len()) == spec_enc_str(s),
    ensures
        can_rd_str(b, i),
        rd_str(b, i) == s,
        rd_str_end(b, i) == i + spec_enc_str(s).len(),
        spec_enc_str(s).len() == 4 + 4 * s.len(),
{
    lemma_auto_spec_u32_to_from_le_bytes();
    lemma_enc_chars_len(s);
    assert(spec_u32_to_le_bytes(s.len() as u32).len() == 4);
    let e = spec_enc_str(s);
    assert(e.len() == 4 + 4 * s.len());
    assert(b.subrange(i, i + 4) =~= e.subrange(0, 4));
    assert(e.subrange(0, 4) =~= spec_u32_to_le_bytes(s.len() as u32));
    assert(rd_u32(b, i) == s.len() as u32);
    assert forall|k: int| 0 <= k < s.len() implies scalar_ok(
        #[trigger] rd_u32(b, i + 4 + 4 * k),
    ) && rd_u32(b, i + 4 + 4 * k) == s[k] as u32 by {
        lemma_enc_chars_index(s, k);
        let lo = i + 4 + 4 * k;
        assert forall|o: int| 0 <= o < 4 implies #[trigger] b.subrange(lo, lo + 4)[o]
            == spec_enc_chars(s).subrange(4 * k, 4 * k + 4)[o] by {
            assert(b.subrange(lo, lo + 4)[o] == b[lo + o]);
            assert(spec_enc_chars(s).subrange(4 * k, 4 * k + 4)[o] == spec_enc_chars(s)[4 * k + o]);
            assert(b.subrange(i, i + e.len())[4 + 4 * k + o] == e[4 + 4 * k + o]);
            assert(e[4 + 4 * k + o] == spec_enc_chars(s)[4 * k + o]);
            assert(b[lo + o] == b.subrange(i, i + e.len())[4 + 4 * k + o]);
        }
        assert(b.subrange(lo, lo + 4) =~= spec_enc_chars(s).subrange(4 * k, 4 * k + 4));
        assert(rd_u32(b, i + 4 + 4 * k) == s[k] as u32);
        vstd::utf8::char_is_scalar(s[k]);
        assert(scalar_ok(s[k] as u32)) by {
            reveal_scalar_shapes(s[k] as u32);
        }
    }
    assert forall|k: int| 0 <= k < s.len() implies #[trigger] rd_chars(b, i + 4, s.len() as int)[k]
        == s[k] by {
        vstd::utf8::char_u32_cast(s[k], s[k] as u32);
    }
    assert(rd_str(b, i) =~= s);
}

/// Bridges vstd's per-width scalar shapes to the flat numeric statement.
proof fn reveal_scalar_shapes(v: u32)
    requires
        vstd::utf8::is_scalar(v),
    ensures
        scalar_ok(v),
{
}

/// Casting a Unicode scalar value to `char` and back yields the value.
proof fn lemma_scalar_cast_round_trip(v: u32)
    requires
        scalar_ok(v),
    ensures
        (v as char) as u32 == v,
{
}

/// What a string reader accepted is exactly an encoding of what it returned.
pub proof fn lemma_str_readforward(b: Seq<u8>, i: int)
    requires
        can_rd_str(b, i),
    ensures
        rd_str(b, i).len() <= MAX_FIELD_LEN,
        rd_str_end(b, i) == i + spec_enc_str(rd_str(b, i)).len(),
        b.subrange(i, rd_str_end(b, i)) == spec_enc_str(rd_str(b, i)),
{
    lemma_auto_spec_u32_to_from_le_bytes();
    let s = rd_str(b, i);
    let n = rd_u32(b, i) as int;
    lemma_enc_chars_len(s);
    assert(spec_u32_to_le_bytes(s.len() as u32).len() == 4);
    assert forall|k: int| 0 <= k < n implies #[trigger] spec_enc_chars(s).subrange(
        4 * k,
        4 * k + 4,
    ) == b.subrange(i + 4 + 4 * k, i + 4 + 4 * k + 4) by {
        lemma_enc_chars_index(s, k);
        let v = rd_u32(b, i + 4 + 4 * k);
        assert(scalar_ok(v));
        lemma_scalar_cast_round_trip(v);
        assert(s[k] as u32 == v);
        assert(b.subrange(i + 4 + 4 * k, i + 4 + 4 * k + 4) =~= spec_u32_to_le_bytes(v));
    }
    assert(b.subrange(i, rd_str_end(b, i)) =~= spec_enc_str(s)) by {
        let lhs = b.subrange(i, rd_str_end(b, i));
        let rhs = spec_enc_str(s);
        assert(lhs.len() == rhs.len());
        assert forall|j: int| 0 <= j < lhs.len() implies lhs[j] == rhs[j] by {
            if j < 4 {
                assert(b.subrange(i, i + 4) =~= spec_u32_to_le_bytes(rd_u32(b, i)));
                assert(rhs[j] == spec_u32_to_le_bytes(s.len() as u32)[j]);
            } else {
                let k = (j - 4) / 4;
                let o = (j - 4) % 4;
                assert(j == 4 + 4 * k + o && 0 <= o < 4 && 0 <= k < n) by (nonlinear_arith)
                    requires
                        j >= 4,
                        k == (j - 4) / 4,
                        o == (j - 4) % 4,
                        j < 4 + 4 * n,
                ;
                assert(spec_enc_chars(s).subrange(4 * k, 4 * k + 4)[o] == spec_enc_chars(s)[4 * k
                    + o]);
                assert(b.subrange(i + 4 + 4 * k, i + 4 + 4 * k + 4)[o] == b[i + 4 + 4 * k + o]);
                assert(lhs[j] == b[i + j]);
                assert(rhs[j] == spec_enc_chars(s)[j - 4]);
            }
        }
    }
}

// ---------------------------------------------------------------------------
// Byte payloads: a 32-bit length, then the raw bytes
// ---------------------------------------------------------------------------

pub open spec fn spec_enc_bytes(d: Seq<u8>) -> Seq<u8>
    recommends
        d.len() <= MAX_FIELD_LEN,
{
    spec_u32_to_le_bytes(d.len() as u32) + d
}

pub open spec fn can_rd_bytes(b: Seq<u8>, i: int) -> bool {
    &&& can_rd_u32(b, i)
    &&& i + 4 + (rd_u32(b, i) as int) <= b.len()
}

pub open spec fn rd_bytes(b: Seq<u8>, i: int) -> Seq<u8> {
    b.subrange(i + 4, i + 4 + rd_u32(b, i) as int)
}

pub open spec fn rd_bytes_end(b: Seq<u8>, i: int) -> int {
    i + 4 + rd_u32(b, i) as int
}

pub fn push_bytes(out: &mut Vec<u8>, d: &Vec<u8>)
    requires
        d@.len() <= MAX_FIELD_LEN,
    ensures
        final(out)@ == old(out)@ + spec_enc_bytes(d@),
{
    push_u32(out, d.len() as u32);
    let mut copy = slice_to_vec(d.as_slice());
    out.append(&mut copy);
}

pub fn read_bytes(b: &Vec<u8>, i: &mut usize) -> (r: Option<Vec<u8>>)
    requires
        *old(i) <= b@.len(),
    ensures
        can_rd_bytes(b@, *old(i) as int) ==> (r matches Some(d) && d@ == rd_bytes(
            b@,
            *old(i) as int,
        ) && *final(i) == rd_bytes_end(b@, *old(i) as int)),
        !can_rd_bytes(b@, *old(i) as int) ==> r is None,
{
    let ghost start = *i as int;
    let n = match read_u32(b, i) {
        Some(n) => n,
        None => {
            return None;
        },
    };
    if n as usize <= b.len() - *i {
        let s = slice_subrange(b.as_slice(), *i, *i + n as usize);
        let d = slice_to_vec(s);
        *i = *i + n as usize;
        Some(d)
    } else {
        None
    }
}

/// A buffer that carries `spec_enc_bytes(d)` at offset `i` reads back as `d`.
pub proof fn lemma_bytes_readback(b: Seq<u8>, i: int, d: Seq<u8>)
    requires
        0 <= i,
        d.len() <= MAX_FIELD_LEN,
        i + spec_enc_bytes(d).len() <= b.len(),
        b.subrange(i, i + spec_enc_bytes(d).len()) == spec_enc_bytes(d),
    ensures
        can_rd_bytes(b, i),
        rd_bytes(b, i) == d,
        rd_bytes_end(b, i) == i + spec_enc_bytes(d).len(),
        spec_enc_bytes(d).len() == 4 + d.len(),
{
    lemma_auto_spec_u32_to_from_le_bytes();
    assert(spec_u32_to_le_bytes(d.len() as u32).len() == 4);
    let e = spec_enc_bytes(d);
    assert(e.len() == 4 + d.len());
    assert(b.subrange(i, i + 4) =~= e.subrange(0, 4));
    assert(e.subrange(0, 4) =~= spec_u32_to_le_bytes(d.len() as u32));
    assert(rd_u32(b, i) == d.len() as u32);
    assert forall|j: int| 0 <= j < d.len() implies #[trigger] rd_bytes(b, i)[j] == d[j] by {
        assert(b.subrange(i, i + e.len())[4 + j] == e[4 + j]);
        assert(e[4 + j] == d[j]);
    }
    assert(rd_bytes(b, i) =~= d);
}

/// What a bytes reader accepted is exactly an encoding of what it returned.
pub proof fn lemma_bytes_readforward(b: Seq<u8>, i: int)
    requires
        can_rd_bytes(b, i),
    ensures
        rd_bytes(b, i).len() <= MAX_FIELD_LEN,
        rd_bytes_end(b, i) == i + spec_enc_bytes(rd_bytes(b, i)).len(),
        b.subrange(i, rd_bytes_end(b, i)) == spec_enc_bytes(rd_bytes(b, i)),
{
    lemma_auto_spec_u32_to_from_le_bytes();
    let d = rd_bytes(b, i);
    assert(b.subrange(i, i + 4) =~= spec_u32_to_le_bytes(rd_u32(b, i)));
    assert(b.subrange(i, rd_bytes_end(b, i)) =~= spec_enc_bytes(d));
}

/// The four-byte little-endian cell at offset `i` determines `rd_u32` there,
/// and writing a value reads back as that value.
pub proof fn lemma_u32_readback(b: Seq<u8>, i: int, v: u32)
    requires
        0 <= i,
        i + 4 <= b.len(),
        b.subrange(i, i + 4) == spec_u32_to_le_bytes(v),
    ensures
        can_rd_u32(b, i),
        rd_u32(b, i) == v,
{
    lemma_auto_spec_u32_to_from_le_bytes();
    assert(spec_u32_to_le_bytes(v).len() == 4);
    assert(rd_u32(b, i) == spec_u32_from_le_bytes(spec_u32_to_le_bytes(v)));
}

pub proof fn lemma_u64_readback(b: Seq<u8>, i: int, v: u64)
    requires
        0 <= i,
        i + 8 <= b.len(),
        b.subrange(i, i + 8) == spec_u64_to_le_bytes(v),
    ensures
        can_rd_u64(b, i),
        rd_u64(b, i) == v,
{
    lemma_auto_spec_u64_to_from_le_bytes();
    assert(spec_u64_to_le_bytes(v).len() == 8);
    assert(rd_u64(b, i) == spec_u64_from_le_bytes(spec_u64_to_le_bytes(v)));
}

/// The inverse direction: the bytes a u32/u64 reader accepted are the
/// encoding of the value it returned.
pub proof fn lemma_u32_readforward(b: Seq<u8>, i: int)
    requires
        can_rd_u32(b, i),
    ensures
        b.subrange(i, i + 4) == spec_u32_to_le_bytes(rd_u32(b, i)),
{
    lemma_auto_spec_u32_to_from_le_bytes();
    assert(b.subrange(i, i + 4).len() == 4);
}

pub proof fn lemma_u64_readforward(b: Seq<u8>, i: int)
    requires
        can_rd_u64(b, i),
    ensures
        b.subrange(i, i + 8) == spec_u64_to_le_bytes(rd_u64(b, i)),
{
    lemma_auto_spec_u64_to_from_le_bytes();
    assert(b.subrange(i, i + 8).len() == 8);
}

} // verus!
