//! The self-describing field layer of the wire format.
//!
//! A message is a sequence of typed fields; each field travels as a one-byte
//! type marker followed by its payload. A whole message is decoded by
//! reading fields until the buffer is exhausted; trailing garbage or a
//! malformed field fails the decode. The message codecs translate each
//! command or event variant to and from such a field sequence, so all byte
//! and offset reasoning is done once, here.

use vstd::prelude::*;
use crate::wire::{
    can_rd_bytes, can_rd_str, can_rd_u32, can_rd_u64, can_rd_u8, push_bytes, push_str, push_u32,
    push_u64, push_u8, rd_bytes, rd_bytes_end, rd_str, rd_str_end, rd_u32, rd_u64, rd_u8,
    read_bytes, read_str, read_u32, read_u64, read_u8, spec_enc_bytes, spec_enc_str,
    lemma_bytes_readback, lemma_bytes_readforward, lemma_str_readback, lemma_str_readforward,
    lemma_u32_readback, lemma_u32_readforward, lemma_u64_readback, lemma_u64_readforward,
    MAX_FIELD_LEN,
};

verus! {

/// One typed field of a message.
pub enum Field {
    /// A variant tag of the enclosing message schema.
    Tag(u8),
    U32(u32),
    U64(u64),
    Str(String),
    Bytes(Vec<u8>),
}

/// The mathematical model of a field: strings and payloads as sequences.
pub enum FieldV {
    Tag(u8),
    U32(u32),
    U64(u64),
    Str(Seq<char>),
    Bytes(Seq<u8>),
}

impl View for Field {
    type V = FieldV;

    open spec fn view(&self) -> FieldV {
        match self {
            Field::Tag(t) => FieldV::Tag(*t),
            Field::U32(v) => FieldV::U32(*v),
            Field::U64(v) => FieldV::U64(*v),
            Field::Str(s) => FieldV::Str(s@),
            Field::Bytes(d) => FieldV::Bytes(d@),
        }
    }
}

/// The model of a field sequence.
pub open spec fn fields_view(fs: Seq<Field>) -> Seq<FieldV> {
    fs.map_values(|f: Field| f@)
}

/// Whether a field fits the wire format's 32-bit length prefixes.
pub open spec fn wf_field(f: FieldV) -> bool {
    match f {
        FieldV::Str(s) => s.len() <= MAX_FIELD_LEN,
        FieldV::Bytes(d) => d.len() <= MAX_FIELD_LEN,
        _ => true,
    }
}

pub open spec fn wf_fields(fs: Seq<FieldV>) -> bool {
    forall|j: int| 0 <= j < fs.len() ==> wf_field(#[trigger] fs[j])
}

pub const MARK_TAG: u8 = 0;

pub const MARK_U32: u8 = 1;

pub const MARK_U64: u8 = 2;

pub const MARK_STR: u8 = 3;

pub const MARK_BYTES: u8 = 4;

/// The bytes of one field.
pub open spec fn spec_enc_field(f: FieldV) -> Seq<u8>
    recommends
        wf_field(f),
{
    match f {
        FieldV::Tag(t) => seq![MARK_TAG, t],
        FieldV::U32(v) => seq![MARK_U32] + vstd::bytes::spec_u32_to_le_bytes(v),
        FieldV::U64(v) => seq![MARK_U64] + vstd::bytes::spec_u64_to_le_bytes(v),
        FieldV::Str(s) => seq![MARK_STR] + spec_enc_str(s),
        FieldV::Bytes(d) => seq![MARK_BYTES] + spec_enc_bytes(d),
    }
}

/// The bytes of a field sequence.
pub open spec fn spec_enc_fields(fs: Seq<FieldV>) -> Seq<u8>
    decreases fs.len(),
{
    if fs.len() == 0 {
        Seq::empty()
    } else {
        spec_enc_field(fs[0]) + spec_enc_fields(fs.drop_first())
    }
}

// ---------------------------------------------------------------------------
// Deterministic reader, at the spec level
// ---------------------------------------------------------------------------

/// Whether one well-formed field starts at offset `i`.
pub open spec fn can_rd_field(b: Seq<u8>, i: int) -> bool {
    &&& can_rd_u8(b, i)
    &&& {
        let m = rd_u8(b, i);
        if m == MARK_TAG {
            can_rd_u8(b, i + 1)
        } else if m == MARK_U32 {
            can_rd_u32(b, i + 1)
        } else if m == MARK_U64 {
            can_rd_u64(b, i + 1)
        } else if m == MARK_STR {
            can_rd_str(b, i + 1)
        } else if m == MARK_BYTES {
            can_rd_bytes(b, i + 1)
        } else {
            false
        }
    }
}

/// The field starting at offset `i`.
pub open spec fn rd_field(b: Seq<u8>, i: int) -> FieldV
    recommends
        can_rd_field(b, i),
{
    let m = rd_u8(b, i);
    if m == MARK_TAG {
        FieldV::Tag(rd_u8(b, i + 1))
    } else if m == MARK_U32 {
        FieldV::U32(rd_u32(b, i + 1))
    } else if m == MARK_U64 {
        FieldV::U64(rd_u64(b, i + 1))
    } else if m == MARK_STR {
        FieldV::Str(rd_str(b, i + 1))
    } else {
        FieldV::Bytes(rd_bytes(b, i + 1))
    }
}

/// The offset just past the field starting at offset `i`.
pub open spec fn rd_field_end(b: Seq<u8>, i: int) -> int
    recommends
        can_rd_field(b, i),
{
    let m = rd_u8(b, i);
    if m == MARK_TAG {
        i + 2
    } else if m == MARK_U32 {
        i + 5
    } else if m == MARK_U64 {
        i + 9
    } else if m == MARK_STR {
        rd_str_end(b, i + 1)
    } else {
        rd_bytes_end(b, i + 1)
    }
}

pub proof fn lemma_rd_field_end_bounds(b: Seq<u8>, i: int)
    requires
        can_rd_field(b, i),
    ensures
        i + 2 <= rd_field_end(b, i) <= b.len(),
{
}

/// The fields from offset `i` to the end of the buffer, or None if the tail
/// is not a well-formed field sequence.
pub open spec fn spec_dec_fields(b: Seq<u8>, i: int) -> Option<Seq<FieldV>>
    decreases b.len() - i when 0 <= i <= b.len()
{
    if i == b.len() {
        Some(Seq::empty())
    } else if can_rd_field(b, i) && i + 2 <= rd_field_end(b, i) <= b.len() {
        match spec_dec_fields(b, rd_field_end(b, i)) {
            Some(rest) => Some(seq![rd_field(b, i)] + rest),
            None => None,
        }
    } else {
        None
    }
}

// ---------------------------------------------------------------------------
// Round-trip lemmas
// ---------------------------------------------------------------------------

/// A buffer that carries `spec_enc_field(f)` at offset `i` reads back as `f`.
pub proof fn lemma_field_readback(b: Seq<u8>, i: int, f: FieldV)
    requires
        0 <= i,
        wf_field(f),
        i + spec_enc_field(f).len() <= b.len(),
        b.subrange(i, i + spec_enc_field(f).len()) == spec_enc_field(f),
    ensures
        can_rd_field(b, i),
        rd_field(b, i) == f,
        rd_field_end(b, i) == i + spec_enc_field(f).len(),
        spec_enc_field(f).len() >= 2,
{
    let e = spec_enc_field(f);
    assert(b[i] == b.subrange(i, i + e.len())[0]);
    match f {
        FieldV::Tag(t) => {
            assert(b[i + 1] == b.subrange(i, i + e.len())[1]);
        },
        FieldV::U32(v) => {
            vstd::bytes::lemma_auto_spec_u32_to_from_le_bytes();
            assert(vstd::bytes::spec_u32_to_le_bytes(v).len() == 4);
            assert(b.subrange(i + 1, i + 5) =~= vstd::bytes::spec_u32_to_le_bytes(v)) by {
                assert forall|o: int| 0 <= o < 4 implies #[trigger] b.subrange(i + 1, i + 5)[o]
                    == vstd::bytes::spec_u32_to_le_bytes(v)[o] by {
                    assert(b.subrange(i, i + e.len())[1 + o] == e[1 + o]);
                }
            }
            lemma_u32_readback(b, i + 1, v);
        },
        FieldV::U64(v) => {
            vstd::bytes::lemma_auto_spec_u64_to_from_le_bytes();
            assert(vstd::bytes::spec_u64_to_le_bytes(v).len() == 8);
            assert(b.subrange(i + 1, i + 9) =~= vstd::bytes::spec_u64_to_le_bytes(v)) by {
                assert forall|o: int| 0 <= o < 8 implies #[trigger] b.subrange(i + 1, i + 9)[o]
                    == vstd::bytes::spec_u64_to_le_bytes(v)[o] by {
                    assert(b.subrange(i, i + e.len())[1 + o] == e[1 + o]);
                }
            }
            lemma_u64_readback(b, i + 1, v);
        },
        FieldV::Str(s) => {
            let n = spec_enc_str(s).len();
            assert(b.subrange(i + 1, i + 1 + n) =~= spec_enc_str(s)) by {
                assert forall|o: int| 0 <= o < n implies #[trigger] b.subrange(i + 1, i + 1 + n)[o]
                    == spec_enc_str(s)[o] by {
                    assert(b.subrange(i, i + e.len())[1 + o] == e[1 + o]);
                }
            }
            lemma_str_readback(b, i + 1, s);
        },
        FieldV::Bytes(d) => {
            let n = spec_enc_bytes(d).len();
            assert(b.subrange(i + 1, i + 1 + n) =~= spec_enc_bytes(d)) by {
                assert forall|o: int| 0 <= o < n implies #[trigger] b.subrange(i + 1, i + 1 + n)[o]
                    == spec_enc_bytes(d)[o] by {
                    assert(b.subrange(i, i + e.len())[1 + o] == e[1 + o]);
                }
            }
            lemma_bytes_readback(b, i + 1, d);
        },
    }
}

/// What a field reader accepted is exactly an encoding of what it returned.
pub proof fn lemma_field_readforward(b: Seq<u8>, i: int)
    requires
        can_rd_field(b, i),
    ensures
        wf_field(rd_field(b, i)),
        rd_field_end(b, i) == i + spec_enc_field(rd_field(b, i)).len(),
        b.subrange(i, rd_field_end(b, i)) == spec_enc_field(rd_field(b, i)),
{
    let m = rd_u8(b, i);
    if m == MARK_TAG {
        assert(b.subrange(i, i + 2) =~= spec_enc_field(rd_field(b, i)));
    } else if m == MARK_U32 {
        lemma_u32_readforward(b, i + 1);
        assert(b.subrange(i + 1, i + 5) == vstd::bytes::spec_u32_to_le_bytes(rd_u32(b, i + 1)));
        assert(b.subrange(i, i + 5) =~= spec_enc_field(rd_field(b, i))) by {
            assert forall|o: int| 0 <= o < 4 implies #[trigger] b.subrange(i + 1, i + 5)[o] == b[i
                + 1 + o] by {}
        }
    } else if m == MARK_U64 {
        lemma_u64_readforward(b, i + 1);
        assert(b.subrange(i + 1, i + 9) == vstd::bytes::spec_u64_to_le_bytes(rd_u64(b, i + 1)));
        assert(b.subrange(i, i + 9) =~= spec_enc_field(rd_field(b, i))) by {
            assert forall|o: int| 0 <= o < 8 implies #[trigger] b.subrange(i + 1, i + 9)[o] == b[i
                + 1 + o] by {}
        }
    } else if m == MARK_STR {
        lemma_str_readforward(b, i + 1);
        assert(b.subrange(i + 1, rd_str_end(b, i + 1)) == spec_enc_str(rd_str(b, i + 1)));
        assert(b.subrange(i, rd_field_end(b, i)) =~= spec_enc_field(rd_field(b, i))) by {
            assert forall|o: int|
                0 <= o < rd_str_end(b, i + 1) - i - 1 implies #[trigger] b.subrange(
                i + 1,
                rd_str_end(b, i + 1),
            )[o] == b[i + 1 + o] by {}
        }
    } else {
        lemma_bytes_readforward(b, i + 1);
        assert(b.subrange(i + 1, rd_bytes_end(b, i + 1)) == spec_enc_bytes(rd_bytes(b, i + 1)));
        assert(b.subrange(i, rd_field_end(b, i)) =~= spec_enc_field(rd_field(b, i))) by {
            assert forall|o: int|
                0 <= o < rd_bytes_end(b, i + 1) - i - 1 implies #[trigger] b.subrange(
                i + 1,
                rd_bytes_end(b, i + 1),
            )[o] == b[i + 1 + o] by {}
        }
    }
}

/// A buffer whose tail from `i` is `spec_enc_fields(fs)` decodes to `fs`.
pub proof fn lemma_fields_readback(b: Seq<u8>, i: int, fs: Seq<FieldV>)
    requires
        0 <= i <= b.len(),
        wf_fields(fs),
        b.subrange(i, b.len() as int) == spec_enc_fields(fs),
    ensures
        spec_dec_fields(b, i) == Some(fs),
    decreases fs.len(),
{
    if fs.len() == 0 {
        assert(b.subrange(i, b.len() as int).len() == 0);
        assert(i == b.len());
        assert(spec_dec_fields(b, i) == Some(Seq::<FieldV>::empty()));
        assert(fs =~= Seq::<FieldV>::empty());
    } else {
        let f = fs[0];
        assert(wf_field(f));
        let e = spec_enc_field(f);
        let rest = spec_enc_fields(fs.drop_first());
        assert(spec_enc_fields(fs) == e + rest);
        assert(b.len() - i == e.len() + rest.len());
        assert(b.subrange(i, i + e.len()) =~= e) by {
            assert forall|o: int| 0 <= o < e.len() implies #[trigger] b.subrange(i, i + e.len())[o]
                == e[o] by {
                assert(b.subrange(i, b.len() as int)[o] == b[i + o]);
                assert((e + rest)[o] == e[o]);
            }
        }
        lemma_field_readback(b, i, f);
        let mid = i + e.len();
        assert(b.subrange(mid, b.len() as int) =~= rest) by {
            assert forall|o: int| 0 <= o < rest.len() implies #[trigger] b.subrange(
                mid,
                b.len() as int,
            )[o] == rest[o] by {
                assert(b.subrange(i, b.len() as int)[e.len() + o] == b[mid + o]);
                assert((e + rest)[e.len() + o] == rest[o]);
            }
        }
        assert(wf_fields(fs.drop_first())) by {
            assert forall|j: int| 0 <= j < fs.drop_first().len() implies wf_field(
                #[trigger] fs.drop_first()[j],
            ) by {
                assert(fs.drop_first()[j] == fs[j + 1]);
            }
        }
        lemma_fields_readback(b, mid, fs.drop_first());
        assert(spec_dec_fields(b, i) == Some(seq![f] + fs.drop_first()));
        assert(seq![f] + fs.drop_first() =~= fs);
    }
}

/// A buffer that decodes to some fields is exactly their encoding.
pub proof fn lemma_fields_readforward(b: Seq<u8>, i: int, fs: Seq<FieldV>)
    requires
        0 <= i <= b.len(),
        spec_dec_fields(b, i) == Some(fs),
    ensures
        wf_fields(fs),
        b.subrange(i, b.len() as int) == spec_enc_fields(fs),
    decreases b.len() - i,
{
    if i == b.len() {
        assert(fs =~= Seq::<FieldV>::empty());
        assert(b.subrange(i, b.len() as int) =~= spec_enc_fields(fs));
    } else {
        let f = rd_field(b, i);
        let mid = rd_field_end(b, i);
        lemma_field_readforward(b, i);
        let rest = spec_dec_fields(b, mid).unwrap();
        lemma_fields_readforward(b, mid, rest);
        assert(fs == seq![f] + rest);
        assert(fs[0] == f);
        assert(fs.drop_first() =~= rest);
        assert(wf_fields(fs)) by {
            assert forall|j: int| 0 <= j < fs.len() implies wf_field(#[trigger] fs[j]) by {
                if j > 0 {
                    assert(fs[j] == rest[j - 1]);
                }
            }
        }
        let e = spec_enc_field(f);
        assert(b.subrange(i, b.len() as int) =~= spec_enc_fields(fs)) by {
            assert(spec_enc_fields(fs) == e + spec_enc_fields(rest));
            assert(b.subrange(i, mid) == e);
            assert(b.subrange(mid, b.len() as int) == spec_enc_fields(rest));
            assert forall|o: int| 0 <= o < b.len() - i implies #[trigger] b.subrange(
                i,
                b.len() as int,
            )[o] == (e + spec_enc_fields(rest))[o] by {
                if o < e.len() {
                    assert(b.subrange(i, mid)[o] == b[i + o]);
                } else {
                    assert(b.subrange(mid, b.len() as int)[o - e.len()] == b[i + o]);
                }
            }
        }
    }
}

/// The round-trip law of the wire format: decoding the encoding of any
/// well-formed field sequence gives the sequence back. Every message codec
/// inherits it, since a message is encoded as its field sequence and
/// decoded by reading the fields back.
pub proof fn lemma_fields_round_trip(fs: Seq<FieldV>)
    requires
        wf_fields(fs),
    ensures
        spec_dec_fields(spec_enc_fields(fs), 0) == Some(fs),
{
    let b = spec_enc_fields(fs);
    assert(b.subrange(0, b.len() as int) =~= b);
    lemma_fields_readback(b, 0, fs);
}

// ---------------------------------------------------------------------------
// Executable encoder and reader
// ---------------------------------------------------------------------------

pub fn push_field_tag(out: &mut Vec<u8>, t: u8)
    ensures
        final(out)@ == old(out)@ + spec_enc_field(FieldV::Tag(t)),
{
    push_u8(out, MARK_TAG);
    push_u8(out, t);
    proof {
        assert(final(out)@ =~= old(out)@ + spec_enc_field(FieldV::Tag(t)));
    }
}

pub fn push_field_u32(out: &mut Vec<u8>, v: u32)
    ensures
        final(out)@ == old(out)@ + spec_enc_field(FieldV::U32(v)),
{
    push_u8(out, MARK_U32);
    push_u32(out, v);
    proof {
        assert(final(out)@ =~= old(out)@ + spec_enc_field(FieldV::U32(v)));
    }
}

pub fn push_field_u64(out: &mut Vec<u8>, v: u64)
    ensures
        final(out)@ == old(out)@ + spec_enc_field(FieldV::U64(v)),
{
    push_u8(out, MARK_U64);
    push_u64(out, v);
    proof {
        assert(final(out)@ =~= old(out)@ + spec_enc_field(FieldV::U64(v)));
    }
}

pub fn push_field_str(out: &mut Vec<u8>, s: &str)
    requires
        s@.len() <= MAX_FIELD_LEN,
    ensures
        final(out)@ == old(out)@ + spec_enc_field(FieldV::Str(s@)),
{
    push_u8(out, MARK_STR);
    push_str(out, s);
    proof {
        assert(final(out)@ =~= old(out)@ + spec_enc_field(FieldV::Str(s@)));
    }
}

pub fn push_field_bytes(out: &mut Vec<u8>, d: &Vec<u8>)
    requires
        d@.len() <= MAX_FIELD_LEN,
    ensures
        final(out)@ == old(out)@ + spec_enc_field(FieldV::Bytes(d@)),
{
    push_u8(out, MARK_BYTES);
    push_bytes(out, d);
    proof {
        assert(final(out)@ =~= old(out)@ + spec_enc_field(FieldV::Bytes(d@)));
    }
}

/// Appending one field extends the encoding by that field's bytes.
proof fn lemma_enc_fields_snoc(fs: Seq<FieldV>, f: FieldV)
    ensures
        spec_enc_fields(fs.push(f)) == spec_enc_fields(fs) + spec_enc_field(f),
    decreases fs.len(),
{
    let t = fs.push(f);
    assert(t.len() == fs.len() + 1);
    if fs.len() == 0 {
        assert(t[0] == f);
        assert(t.drop_first() =~= Seq::<FieldV>::empty());
        assert(spec_enc_fields(t) == spec_enc_field(f) + spec_enc_fields(
            Seq::<FieldV>::empty(),
        ));
        assert(spec_enc_fields(t) =~= spec_enc_fields(fs) + spec_enc_field(f));
    } else {
        lemma_enc_fields_snoc(fs.drop_first(), f);
        assert(t[0] == fs[0]);
        assert(t.drop_first() =~= fs.drop_first().push(f));
        assert(spec_enc_fields(t) == spec_enc_field(fs[0]) + spec_enc_fields(
            fs.drop_first().push(f),
        ));
        assert(spec_enc_fields(t) =~= spec_enc_fields(fs) + spec_enc_field(f));
    }
}

/// Encodes a field sequence as bytes.
pub fn encode_fields(fields: &Vec<Field>) -> (out: Vec<u8>)
    requires
        wf_fields(fields_view(fields@)),
    ensures
        out@ == spec_enc_fields(fields_view(fields@)),
{
    let mut out: Vec<u8> = Vec::new();
    let mut j: usize = 0;
    while j < fields.len()
        invariant
            j <= fields@.len(),
            wf_fields(fields_view(fields@)),
            out@ == spec_enc_fields(fields_view(fields@).take(j as int)),
        decreases fields@.len() - j,
    {
        proof {
            assert(fields_view(fields@)[j as int] == fields@[j as int]@);
            assert(wf_field(fields_view(fields@)[j as int]));
        }
        match &fields[j] {
            Field::Tag(t) => push_field_tag(&mut out, *t),
            Field::U32(v) => push_field_u32(&mut out, *v),
            Field::U64(v) => push_field_u64(&mut out, *v),
            Field::Str(s) => push_field_str(&mut out, s.as_str()),
            Field::Bytes(d) => push_field_bytes(&mut out, d),
        }
        proof {
            lemma_enc_fields_snoc(fields_view(fields@).take(j as int), fields@[j as int]@);
            assert(fields_view(fields@).take(j as int).push(fields@[j as int]@) =~= fields_view(
                fields@,
            ).take(j + 1 as int));
        }
        j = j + 1;
    }
    proof {
        assert(fields_view(fields@).take(fields@.len() as int) =~= fields_view(fields@));
    }
    out
}

// ---------------------------------------------------------------------------
// Typed accessors, used by the message codecs when rebuilding a variant
// ---------------------------------------------------------------------------

pub open spec fn fv_tag_at(fs: Seq<FieldV>, j: int) -> Option<u8> {
    if 0 <= j < fs.len() {
        match fs[j] {
            FieldV::Tag(t) => Some(t),
            _ => None,
        }
    } else {
        None
    }
}

pub open spec fn fv_u32_at(fs: Seq<FieldV>, j: int) -> Option<u32> {
    if 0 <= j < fs.len() {
        match fs[j] {
            FieldV::U32(v) => Some(v),
            _ => None,
        }
    } else {
        None
    }
}

pub open spec fn fv_u64_at(fs: Seq<FieldV>, j: int) -> Option<u64> {
    if 0 <= j < fs.len() {
        match fs[j] {
            FieldV::U64(v) => Some(v),
            _ => None,
        }
    } else {
        None
    }
}

pub open spec fn fv_str_at(fs: Seq<FieldV>, j: int) -> Option<Seq<char>> {
    if 0 <= j < fs.len() {
        match fs[j] {
            FieldV::Str(s) => Some(s),
            _ => None,
        }
    } else {
        None
    }
}

pub open spec fn fv_bytes_at(fs: Seq<FieldV>, j: int) -> Option<Seq<u8>> {
    if 0 <= j < fs.len() {
        match fs[j] {
            FieldV::Bytes(d) => Some(d),
            _ => None,
        }
    } else {
        None
    }
}

pub fn field_tag_at(fs: &Vec<Field>, j: usize) -> (r: Option<u8>)
    ensures
        r == fv_tag_at(fields_view(fs@), j as int),
{
    if j < fs.len() {
        match &fs[j] {
            Field::Tag(t) => Some(*t),
            _ => None,
        }
    } else {
        None
    }
}

pub fn field_u32_at(fs: &Vec<Field>, j: usize) -> (r: Option<u32>)
    ensures
        r == fv_u32_at(fields_view(fs@), j as int),
{
    if j < fs.len() {
        match &fs[j] {
            Field::U32(v) => Some(*v),
            _ => None,
        }
    } else {
        None
    }
}

pub fn field_u64_at(fs: &Vec<Field>, j: usize) -> (r: Option<u64>)
    ensures
        r == fv_u64_at(fields_view(fs@), j as int),
{
    if j < fs.len() {
        match &fs[j] {
            Field::U64(v) => Some(*v),
            _ => None,
        }
    } else {
        None
    }
}

pub fn field_str_at(fs: &Vec<Field>, j: usize) -> (r: Option<String>)
    ensures
        r matches Some(s) ==> fv_str_at(fields_view(fs@), j as int) == Some(s@),
        r is None ==> fv_str_at(fields_view(fs@), j as int) is None,
{
    if j < fs.len() {
        match &fs[j] {
            Field::Str(s) => Some(s.clone()),
            _ => None,
        }
    } else {
        None
    }
}

pub fn field_bytes_at(fs: &Vec<Field>, j: usize) -> (r: Option<Vec<u8>>)
    ensures
        r matches Some(d) ==> fv_bytes_at(fields_view(fs@), j as int) == Some(d@),
        r is None ==> fv_bytes_at(fields_view(fs@), j as int) is None,
{
    if j < fs.len() {
        match &fs[j] {
            Field::Bytes(d) => Some(vstd::slice::slice_to_vec(d.as_slice())),
            _ => None,
        }
    } else {
        None
    }
}

/// Reads the one field starting at `*i`, or fails exactly when no
/// well-formed field starts there.
pub fn read_field(b: &Vec<u8>, i: &mut usize) -> (r: Option<Field>)
    requires
        *old(i) <= b@.len(),
    ensures
        can_rd_field(b@, *old(i) as int) ==> (r matches Some(f) && f@ == rd_field(
            b@,
            *old(i) as int,
        ) && *final(i) == rd_field_end(b@, *old(i) as int) && *final(i) <= b@.len()),
        !can_rd_field(b@, *old(i) as int) ==> r is None,
{
    let m = match read_u8(b, i) {
        Some(m) => m,
        None => {
            return None;
        },
    };
    if m == MARK_TAG {
        match read_u8(b, i) {
            Some(t) => Some(Field::Tag(t)),
            None => None,
        }
    } else if m == MARK_U32 {
        match read_u32(b, i) {
            Some(v) => Some(Field::U32(v)),
            None => None,
        }
    } else if m == MARK_U64 {
        match read_u64(b, i) {
            Some(v) => Some(Field::U64(v)),
            None => None,
        }
    } else if m == MARK_STR {
        match read_str(b, i) {
            Some(s) => Some(Field::Str(s)),
            None => None,
        }
    } else if m == MARK_BYTES {
        match read_bytes(b, i) {
            Some(d) => Some(Field::Bytes(d)),
            None => None,
        }
    } else {
        None
    }
}

/// Decodes a whole buffer as a field sequence. The result is exactly
/// `spec_dec_fields` of the buffer: every well-formed encoding is accepted
/// and anything else is rejected.
pub fn decode_fields(b: &Vec<u8>) -> (r: Option<Vec<Field>>)
    ensures
        r matches Some(fs) ==> spec_dec_fields(b@, 0) == Some(fields_view(fs@)),
        r is None ==> spec_dec_fields(b@, 0) is None,
{
    let mut fields: Vec<Field> = Vec::new();
    let mut i: usize = 0;
    loop
        invariant
            i <= b@.len(),
            spec_dec_fields(b@, 0) == (match spec_dec_fields(b@, i as int) {
                Some(rest) => Some(fields_view(fields@) + rest),
                None => None::<Seq<FieldV>>,
            }),
        ensures
            i == b@.len(),
            spec_dec_fields(b@, 0) == Some(fields_view(fields@)),
        decreases b@.len() - i,
    {
        if i == b.len() {
            proof {
                assert(spec_dec_fields(b@, i as int) == Some(Seq::<FieldV>::empty()));
                assert(fields_view(fields@) + Seq::<FieldV>::empty() =~= fields_view(fields@));
            }
            break ;
        }
        let ghost i0 = i as int;
        let f = match read_field(b, &mut i) {
            Some(f) => f,
            None => {
                proof {
                    assert(spec_dec_fields(b@, i0) is None);
                }
                return None;
            },
        };
        proof {
            lemma_rd_field_end_bounds(b@, i0);
        }
        fields.push(f);
        proof {
            assert(fields_view(fields@) =~= fields_view(fields@.drop_last()) + seq![f@]);
            assert(spec_dec_fields(b@, i0) == (match spec_dec_fields(b@, i as int) {
                Some(rest) => Some(seq![f@] + rest),
                None => None::<Seq<FieldV>>,
            }));
            assert forall|rest: Seq<FieldV>| true implies fields_view(fields@.drop_last()) + (
            seq![f@] + rest) =~= fields_view(fields@) + rest by {}
        }
    }
    Some(fields)
}

} // verus!
