//! The framing shared by probe and reply records.
//!
//! A stream is a concatenation of records. A record is its body's length as a
//! 4-byte little-endian integer, then the body. A body is a sequence of
//! fields; a field is a tag byte, its value's length as a 2-byte
//! little-endian integer, then the value. Readers skip fields whose tag they
//! do not know, and take the first field of each tag they know.

use vstd::bytes::*;
use vstd::prelude::*;

verus! {

/// The largest value a field can carry.
pub const MAX_FIELD_LEN: usize = 0xffff;

/// The bytes of one field.
pub open spec fn field_bytes(tag: u8, value: Seq<u8>) -> Seq<u8> {
    seq![tag] + spec_u16_to_le_bytes(value.len() as u16) + value
}

/// The bytes of a sequence of fields, one after another.
pub open spec fn fields_bytes(fs: Seq<(u8, Seq<u8>)>) -> Seq<u8>
    decreases fs.len(),
{
    if fs.len() == 0 {
        Seq::empty()
    } else {
        field_bytes(fs[0].0, fs[0].1) + fields_bytes(fs.drop_first())
    }
}

/// Whether every value fits a field.
pub open spec fn fields_fit(fs: Seq<(u8, Seq<u8>)>) -> bool {
    forall|i: int| 0 <= i < fs.len() ==> #[trigger] fs[i].1.len() <= MAX_FIELD_LEN
}

/// The fields that a body holds, or `None` where the last one is cut short.
pub open spec fn parse_fields(b: Seq<u8>) -> Option<Seq<(u8, Seq<u8>)>>
    decreases b.len(),
{
    if b.len() == 0 {
        Some(Seq::empty())
    } else if b.len() < 3 {
        None
    } else {
        let n = spec_u16_from_le_bytes(b.subrange(1, 3)) as int;
        if 3 + n > b.len() {
            None
        } else {
            match parse_fields(b.subrange(3 + n, b.len() as int)) {
                Some(rest) => Some(seq![(b[0], b.subrange(3, 3 + n))] + rest),
                None => None,
            }
        }
    }
}

/// Whether `k` is the position of the first field tagged `tag`.
pub open spec fn first_with_tag(fs: Seq<(u8, Seq<u8>)>, tag: u8, k: int) -> bool {
    &&& 0 <= k < fs.len()
    &&& fs[k].0 == tag
    &&& forall|j: int| 0 <= j < k ==> #[trigger] fs[j].0 != tag
}

/// The value of the first field tagged `tag`.
pub open spec fn lookup_field(fs: Seq<(u8, Seq<u8>)>, tag: u8) -> Option<Seq<u8>> {
    if exists|k: int| first_with_tag(fs, tag, k) {
        Some(fs[choose|k: int| first_with_tag(fs, tag, k)].1)
    } else {
        None
    }
}

/// The bytes of a record whose body is `body`.
pub open spec fn frame(body: Seq<u8>) -> Seq<u8> {
    spec_u32_to_le_bytes(body.len() as u32) + body
}

pub proof fn lemma_first_with_tag_unique(fs: Seq<(u8, Seq<u8>)>, tag: u8, k: int)
    requires
        first_with_tag(fs, tag, k),
    ensures
        lookup_field(fs, tag) == Some(fs[k].1),
{
    let c = choose|c: int| first_with_tag(fs, tag, c);
    if c < k {
        assert(fs[c].0 != tag);
    } else if k < c {
        assert(fs[k].0 != tag);
    }
}

pub proof fn lemma_no_tag(fs: Seq<(u8, Seq<u8>)>, tag: u8)
    requires
        forall|j: int| 0 <= j < fs.len() ==> #[trigger] fs[j].0 != tag,
    ensures
        lookup_field(fs, tag) is None,
{
}

/// Reading the fields back out of their bytes gives the fields.
pub proof fn lemma_parse_fields_bytes(fs: Seq<(u8, Seq<u8>)>)
    requires
        fields_fit(fs),
    ensures
        parse_fields(fields_bytes(fs)) == Some(fs),
    decreases fs.len(),
{
    lemma_auto_spec_u16_to_from_le_bytes();
    let b = fields_bytes(fs);
    if fs.len() == 0 {
        assert(b =~= Seq::empty());
    } else {
        let rest = fs.drop_first();
        assert(fields_fit(rest)) by {
            assert forall|i: int| 0 <= i < rest.len() implies #[trigger] rest[i].1.len() <= MAX_FIELD_LEN by {
                assert(rest[i] == fs[i + 1]);
            }
        }
        lemma_parse_fields_bytes(rest);
        let v = fs[0].1;
        assert(v.len() <= MAX_FIELD_LEN);
        let n = v.len();
        let enc = spec_u16_to_le_bytes(n as u16);
        assert(b =~= seq![fs[0].0] + enc + v + fields_bytes(rest));
        assert(b.subrange(1, 3) =~= enc);
        assert(spec_u16_from_le_bytes(enc) == n as u16);
        assert(b.subrange(3, 3 + n as int) =~= v);
        assert(b.subrange(3 + n as int, b.len() as int) =~= fields_bytes(rest));
        assert(seq![(fs[0].0, v)] + rest =~= fs);
    }
}

/// The span of one field inside a body.
#[derive(Clone, Copy, Debug)]
pub struct FieldSpan {
    pub tag: u8,
    pub start: usize,
    pub end: usize,
}

pub open spec fn spans_view(b: Seq<u8>, spans: Seq<FieldSpan>) -> Seq<(u8, Seq<u8>)> {
    spans.map_values(|s: FieldSpan| (s.tag, b.subrange(s.start as int, s.end as int)))
}

pub open spec fn spans_within(b: Seq<u8>, spans: Seq<FieldSpan>) -> bool {
    forall|i: int| 0 <= i < spans.len() ==> #[trigger] spans[i].start <= spans[i].end && spans[i].end <= b.len()
}

/// Appends `b` to `out`.
pub fn append_bytes(out: &mut Vec<u8>, b: &[u8])
    ensures
        final(out)@ == old(out)@ + b@,
{
    let mut i: usize = 0;
    while i < b.len()
        invariant
            i <= b@.len(),
            out@ == old(out)@ + b@.subrange(0, i as int),
        decreases b@.len() - i,
    {
        out.push(b[i]);
        i = i + 1;
        assert(out@ =~= old(out)@ + b@.subrange(0, i as int));
    }
    assert(b@.subrange(0, i as int) =~= b@);
}

/// Appends one field to `out`.
pub fn push_field(out: &mut Vec<u8>, tag: u8, value: &[u8])
    requires
        value@.len() <= MAX_FIELD_LEN,
    ensures
        final(out)@ == old(out)@ + field_bytes(tag, value@),
{
    out.push(tag);
    let len = u16_to_le_bytes(value.len() as u16);
    append_bytes(out, len.as_slice());
    append_bytes(out, value);
    assert(final(out)@ =~= old(out)@ + field_bytes(tag, value@));
}

/// The fields of a body, as spans into it.
pub fn read_fields(b: &[u8]) -> (r: Option<Vec<FieldSpan>>)
    ensures
        r is None <==> parse_fields(b@) is None,
        r is Some ==> spans_within(b@, r->0@) && parse_fields(b@) == Some(spans_view(b@, r->0@)),
{
    let mut spans: Vec<FieldSpan> = Vec::new();
    let mut pos: usize = 0;
    proof {
        assert(b@.subrange(0, b@.len() as int) =~= b@);
        if let Some(rest) = parse_fields(b@) {
            assert(spans_view(b@, spans@) + rest =~= rest);
        }
    }
    while pos < b.len()
        invariant
            pos <= b@.len(),
            spans_within(b@, spans@),
            parse_fields(b@) == match parse_fields(b@.subrange(pos as int, b@.len() as int)) {
                Some(rest) => Some(spans_view(b@, spans@) + rest),
                None => None::<Seq<(u8, Seq<u8>)>>,
            },
        decreases b@.len() - pos,
    {
        let ghost s = b@.subrange(pos as int, b@.len() as int);
        if b.len() - pos < 3 {
            assert(parse_fields(s) is None);
            return None;
        }
        let n = u16_from_le_bytes(&b[pos + 1..pos + 3]) as usize;
        assert(b@.subrange(pos + 1, pos + 3) =~= s.subrange(1, 3));
        if b.len() - pos - 3 < n {
            assert(parse_fields(s) is None);
            return None;
        }
        let span = FieldSpan { tag: b[pos], start: pos + 3, end: pos + 3 + n };
        let ghost old_spans = spans@;
        spans.push(span);
        assert(s.subrange(3 + n, s.len() as int) =~= b@.subrange(pos + 3 + n, b@.len() as int));
        assert(s.subrange(3, 3 + n) =~= b@.subrange(pos + 3, pos + 3 + n));
        assert(spans_view(b@, spans@) =~= spans_view(b@, old_spans) + seq![(b@[pos as int], s.subrange(3, 3 + n))]);
        pos = pos + 3 + n;
        proof {
            let t = b@.subrange(pos as int, b@.len() as int);
            match parse_fields(t) {
                Some(rest) => {
                    assert(spans_view(b@, old_spans) + (seq![(b@[pos - 3 - n], s.subrange(3, 3 + n as int))] + rest)
                        =~= spans_view(b@, spans@) + rest);
                },
                None => {},
            }
        }
    }
    assert(b@.subrange(pos as int, b@.len() as int) =~= Seq::<u8>::empty());
    assert(spans_view(b@, spans@) + Seq::<(u8, Seq<u8>)>::empty() =~= spans_view(b@, spans@));
    Some(spans)
}

/// The span of the first field tagged `tag`.
pub fn find_field(b: &[u8], spans: &Vec<FieldSpan>, tag: u8) -> (r: Option<FieldSpan>)
    requires
        spans_within(b@, spans@),
    ensures
        r is None ==> lookup_field(spans_view(b@, spans@), tag) is None,
        r is Some ==> r->0.start <= r->0.end <= b@.len() && lookup_field(spans_view(b@, spans@), tag)
            == Some(b@.subrange(r->0.start as int, r->0.end as int)),
{
    let ghost fs = spans_view(b@, spans@);
    let mut i: usize = 0;
    while i < spans.len()
        invariant
            i <= spans@.len(),
            fs == spans_view(b@, spans@),
            fs.len() == spans@.len(),
            spans_within(b@, spans@),
            forall|j: int| 0 <= j < i ==> #[trigger] fs[j].0 != tag,
        decreases spans@.len() - i,
    {
        assert(fs[i as int].0 == spans@[i as int].tag);
        if spans[i].tag == tag {
            proof {
                let sp = spans@[i as int];
                assert(fs[i as int] == (sp.tag, b@.subrange(sp.start as int, sp.end as int)));
                assert(sp.start <= sp.end && sp.end <= b@.len());
                assert(first_with_tag(fs, tag, i as int));
                lemma_first_with_tag_unique(fs, tag, i as int);
            }
            return Some(spans[i]);
        }
        i = i + 1;
    }
    proof {
        lemma_no_tag(fs, tag);
    }
    None
}

/// Why a record could not be read.
#[derive(Clone, Copy, Debug, PartialEq, Eq, Structural)]
pub enum DecodeErrorKind {
    /// The stream ends inside a record.
    TruncatedRecord,
    /// The record's body ends inside a field.
    MalformedFields,
    /// A required field is absent.
    MissingField(u8),
    /// A field has a value of the wrong size.
    BadFieldLength(u8),
    /// A protocol tag that no protocol has.
    UnknownProtocol(u8),
    /// The reserved TCP protocol tag.
    UnsupportedProtocol,
}

/// The first malformed record of a stream: where it starts and what is wrong.
#[derive(Clone, Copy, Debug, PartialEq, Eq, Structural)]
pub struct DecodeError {
    pub offset: usize,
    pub kind: DecodeErrorKind,
}

/// The value of the first field tagged `tag`, which must be `n` bytes long.
pub open spec fn sized_field(fs: Seq<(u8, Seq<u8>)>, tag: u8, n: nat) -> Result<Seq<u8>, DecodeErrorKind> {
    match lookup_field(fs, tag) {
        None => Err(DecodeErrorKind::MissingField(tag)),
        Some(v) => if v.len() == n {
            Ok(v)
        } else {
            Err(DecodeErrorKind::BadFieldLength(tag))
        },
    }
}

pub open spec fn u8_field(fs: Seq<(u8, Seq<u8>)>, tag: u8) -> Result<u8, DecodeErrorKind> {
    match sized_field(fs, tag, 1) {
        Ok(v) => Ok(v[0]),
        Err(e) => Err(e),
    }
}

pub open spec fn u16_field(fs: Seq<(u8, Seq<u8>)>, tag: u8) -> Result<u16, DecodeErrorKind> {
    match sized_field(fs, tag, 2) {
        Ok(v) => Ok(spec_u16_from_le_bytes(v)),
        Err(e) => Err(e),
    }
}

pub open spec fn u32_field(fs: Seq<(u8, Seq<u8>)>, tag: u8) -> Result<u32, DecodeErrorKind> {
    match sized_field(fs, tag, 4) {
        Ok(v) => Ok(spec_u32_from_le_bytes(v)),
        Err(e) => Err(e),
    }
}

pub open spec fn u64_field(fs: Seq<(u8, Seq<u8>)>, tag: u8) -> Result<u64, DecodeErrorKind> {
    match sized_field(fs, tag, 8) {
        Ok(v) => Ok(spec_u64_from_le_bytes(v)),
        Err(e) => Err(e),
    }
}

/// The value of the first field tagged `tag`, checked to be `n` bytes long.
pub fn read_sized_field<'a>(b: &'a [u8], spans: &Vec<FieldSpan>, tag: u8, n: usize) -> (r: Result<&'a [u8], DecodeErrorKind>)
    requires
        spans_within(b@, spans@),
    ensures
        match r {
            Ok(v) => sized_field(spans_view(b@, spans@), tag, n as nat) == Ok::<Seq<u8>, DecodeErrorKind>(v@),
            Err(e) => sized_field(spans_view(b@, spans@), tag, n as nat) == Err::<Seq<u8>, DecodeErrorKind>(e),
        },
{
    match find_field(b, spans, tag) {
        None => Err(DecodeErrorKind::MissingField(tag)),
        Some(sp) => if sp.end - sp.start == n {
            Ok(&b[sp.start..sp.end])
        } else {
            Err(DecodeErrorKind::BadFieldLength(tag))
        },
    }
}

pub fn read_u8_field(b: &[u8], spans: &Vec<FieldSpan>, tag: u8) -> (r: Result<u8, DecodeErrorKind>)
    requires
        spans_within(b@, spans@),
    ensures
        r == u8_field(spans_view(b@, spans@), tag),
{
    match read_sized_field(b, spans, tag, 1) {
        Ok(v) => Ok(v[0]),
        Err(e) => Err(e),
    }
}

pub fn read_u16_field(b: &[u8], spans: &Vec<FieldSpan>, tag: u8) -> (r: Result<u16, DecodeErrorKind>)
    requires
        spans_within(b@, spans@),
    ensures
        r == u16_field(spans_view(b@, spans@), tag),
{
    match read_sized_field(b, spans, tag, 2) {
        Ok(v) => Ok(u16_from_le_bytes(v)),
        Err(e) => Err(e),
    }
}

pub fn read_u32_field(b: &[u8], spans: &Vec<FieldSpan>, tag: u8) -> (r: Result<u32, DecodeErrorKind>)
    requires
        spans_within(b@, spans@),
    ensures
        r == u32_field(spans_view(b@, spans@), tag),
{
    match read_sized_field(b, spans, tag, 4) {
        Ok(v) => Ok(u32_from_le_bytes(v)),
        Err(e) => Err(e),
    }
}

pub fn read_u64_field(b: &[u8], spans: &Vec<FieldSpan>, tag: u8) -> (r: Result<u64, DecodeErrorKind>)
    requires
        spans_within(b@, spans@),
    ensures
        r == u64_field(spans_view(b@, spans@), tag),
{
    match read_sized_field(b, spans, tag, 8) {
        Ok(v) => Ok(u64_from_le_bytes(v)),
        Err(e) => Err(e),
    }
}

/// The body of the record that starts at `pos`, and the position after it,
/// if the record is whole.
pub open spec fn record_at(b: Seq<u8>, pos: int) -> Option<(Seq<u8>, int)> {
    if b.len() - pos < 4 {
        None
    } else {
        let n = spec_u32_from_le_bytes(b.subrange(pos, pos + 4)) as int;
        if pos + 4 + n > b.len() {
            None
        } else {
            Some((b.subrange(pos + 4, pos + 4 + n), pos + 4 + n))
        }
    }
}

/// Locates the record that starts at `pos`: its body's bounds.
pub fn read_record(b: &[u8], pos: usize) -> (r: Option<(usize, usize)>)
    requires
        pos <= b@.len(),
    ensures
        match r {
            None => record_at(b@, pos as int) is None,
            Some((start, end)) => pos + 4 <= start && start <= end && end <= b@.len()
                && record_at(b@, pos as int) == Some((b@.subrange(start as int, end as int), end as int)),
        },
{
    if b.len() - pos < 4 {
        return None;
    }
    let n = u32_from_le_bytes(&b[pos..pos + 4]) as usize;
    if b.len() - pos - 4 < n {
        return None;
    }
    Some((pos + 4, pos + 4 + n))
}

/// Appends a record whose body is `body`.
pub fn push_record(out: &mut Vec<u8>, body: &[u8])
    requires
        body@.len() <= u32::MAX,
    ensures
        final(out)@ == old(out)@ + frame(body@),
{
    let len = u32_to_le_bytes(body.len() as u32);
    append_bytes(out, len.as_slice());
    append_bytes(out, body);
    assert(final(out)@ =~= old(out)@ + frame(body@));
}

/// Reading the record at the start of `frame(body) + rest` gives `body`.
pub proof fn lemma_record_at_frame(body: Seq<u8>, rest: Seq<u8>)
    requires
        body.len() <= u32::MAX,
    ensures
        record_at(frame(body) + rest, 0) == Some((body, 4 + body.len() as int)),
        (frame(body) + rest).subrange(4 + body.len() as int, (frame(body) + rest).len() as int) == rest,
{
    lemma_auto_spec_u32_to_from_le_bytes();
    let b = frame(body) + rest;
    let enc = spec_u32_to_le_bytes(body.len() as u32);
    assert(b.subrange(0, 4) =~= enc);
    assert(b.subrange(4, 4 + body.len() as int) =~= body);
    assert(b.subrange(4 + body.len() as int, b.len() as int) =~= rest);
}

/// Writing one more field appends its bytes.
pub proof fn lemma_fields_bytes_push(s: Seq<(u8, Seq<u8>)>, f: (u8, Seq<u8>))
    ensures
        fields_bytes(s.push(f)) == fields_bytes(s) + field_bytes(f.0, f.1),
    decreases s.len(),
{
    if s.len() == 0 {
        assert(s.push(f).drop_first() =~= Seq::<(u8, Seq<u8>)>::empty());
        assert(fields_bytes(s.push(f).drop_first()) == Seq::<u8>::empty());
        assert(fields_bytes(s) == Seq::<u8>::empty());
        assert(s.push(f)[0] == f);
        assert(fields_bytes(s.push(f)) =~= fields_bytes(s) + field_bytes(f.0, f.1));
    } else {
        lemma_fields_bytes_push(s.drop_first(), f);
        assert(s.push(f).drop_first() =~= s.drop_first().push(f));
        assert(fields_bytes(s.push(f)) =~= fields_bytes(s) + field_bytes(f.0, f.1));
    }
}

/// The bytes of the first `k + 1` fields are those of the first `k`, then
/// field `k`.
pub proof fn lemma_fields_bytes_step(fs: Seq<(u8, Seq<u8>)>, k: int)
    requires
        0 <= k < fs.len(),
    ensures
        fields_bytes(fs.subrange(0, k + 1)) == fields_bytes(fs.subrange(0, k)) + field_bytes(fs[k].0, fs[k].1),
        fields_bytes(fs.subrange(0, 0)) == Seq::<u8>::empty(),
{
    assert(fs.subrange(0, k + 1) =~= fs.subrange(0, k).push(fs[k]));
    lemma_fields_bytes_push(fs.subrange(0, k), fs[k]);
}

/// Fields that fit take at most `3 + MAX_FIELD_LEN` bytes each.
pub proof fn lemma_fields_bytes_len(fs: Seq<(u8, Seq<u8>)>)
    requires
        fields_fit(fs),
    ensures
        fields_bytes(fs).len() <= fs.len() * (3 + MAX_FIELD_LEN),
    decreases fs.len(),
{
    lemma_auto_spec_u16_to_from_le_bytes();
    if fs.len() > 0 {
        let rest = fs.drop_first();
        assert(fields_fit(rest)) by {
            assert forall|i: int| 0 <= i < rest.len() implies #[trigger] rest[i].1.len() <= MAX_FIELD_LEN by {
                assert(rest[i] == fs[i + 1]);
            }
        }
        lemma_fields_bytes_len(rest);
        assert(fs[0].1.len() <= MAX_FIELD_LEN);
        assert(fields_bytes(fs).len() == 3 + fs[0].1.len() + fields_bytes(rest).len());
        assert(fs.len() * (3 + MAX_FIELD_LEN) == (3 + MAX_FIELD_LEN) + rest.len() * (3 + MAX_FIELD_LEN)) by (nonlinear_arith)
            requires fs.len() == rest.len() + 1;
    }
}

} // verus!
