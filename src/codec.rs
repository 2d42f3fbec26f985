//! One wire message per frame: a length prefix, then that many fixed-size
//! point records. Each coordinate is an IEEE-754 binary32 value, carried as
//! its bit pattern and written as four little-endian bytes.
use vstd::prelude::*;
use crate::bytes::{
    DecodeError, le_bytes, le_value, lemma_le_bytes_len, lemma_le_round_trip, lemma_pow256_values,
    lemma_varint_round_trip, pow256, push_le, push_varint, read_le, read_varint, varint_bytes,
    varint_decode, lemma_le_value_bound,
};

verus! {

/// One point as it travels: bit patterns of `x`, `y`, `z` and, in the
/// layout that has it, the confidence.
#[derive(Debug, Clone, Copy, PartialEq, Eq, Structural)]
pub struct WirePoint {
    pub x: u32,
    pub y: u32,
    pub z: u32,
    pub confidence: Option<u32>,
}

/// The record layout that both ends agree on beforehand.
#[derive(Debug, Clone, Copy, PartialEq, Eq, Structural)]
pub enum Layout {
    /// `x, y, z`: twelve bytes a record.
    Position,
    /// `x, y, z, confidence`: sixteen bytes a record.
    PositionConfidence,
}

pub open spec fn record_len(layout: Layout) -> nat {
    match layout {
        Layout::Position => 12,
        Layout::PositionConfidence => 16,
    }
}

/// A point has a confidence exactly when the layout carries one.
pub open spec fn fits(p: WirePoint, layout: Layout) -> bool {
    p.confidence is Some <==> layout == Layout::PositionConfidence
}

pub open spec fn all_fit(s: Seq<WirePoint>, layout: Layout) -> bool {
    forall|i: int| 0 <= i < s.len() ==> fits(#[trigger] s[i], layout)
}

pub open spec fn word_bytes(w: u32) -> Seq<u8> {
    le_bytes(w as nat, 4)
}

pub open spec fn record_bytes(p: WirePoint, layout: Layout) -> Seq<u8> {
    let head = word_bytes(p.x) + word_bytes(p.y) + word_bytes(p.z);
    match layout {
        Layout::Position => head,
        Layout::PositionConfidence => head + word_bytes(p.confidence.unwrap_or(0)),
    }
}

/// The records of `s`, one after another.
pub open spec fn records_bytes(s: Seq<WirePoint>, layout: Layout) -> Seq<u8>
    decreases s.len(),
{
    if s.len() == 0 {
        Seq::empty()
    } else {
        records_bytes(s.drop_last(), layout) + record_bytes(s.last(), layout)
    }
}

/// The message that carries the batch `s`.
pub open spec fn message_bytes(s: Seq<WirePoint>, layout: Layout) -> Seq<u8> {
    varint_bytes(s.len()) + records_bytes(s, layout)
}

pub open spec fn word_at(b: Seq<u8>, off: int) -> u32 {
    le_value(b.subrange(off, off + 4)) as u32
}

/// The record that starts at `off`.
pub open spec fn point_at(b: Seq<u8>, layout: Layout, off: int) -> WirePoint {
    WirePoint {
        x: word_at(b, off),
        y: word_at(b, off + 4),
        z: word_at(b, off + 8),
        confidence: match layout {
            Layout::Position => None,
            Layout::PositionConfidence => Some(word_at(b, off + 12)),
        },
    }
}

/// The message at the start of `b`: its points and the bytes it takes.
/// What follows it is left alone.
pub open spec fn decode_spec(b: Seq<u8>, layout: Layout) -> Result<(Seq<WirePoint>, nat), DecodeError> {
    match varint_decode(b) {
        Err(e) => Err(e),
        Ok((n, head)) => if head + n * record_len(layout) > b.len() {
            Err(DecodeError::Truncated)
        } else {
            Ok((
                Seq::new(n, |i: int| point_at(b, layout, head + i * record_len(layout))),
                head + n * record_len(layout),
            ))
        },
    }
}

proof fn lemma_record_len(p: WirePoint, layout: Layout)
    ensures
        record_bytes(p, layout).len() == record_len(layout),
{
    lemma_le_bytes_len(p.x as nat, 4);
    lemma_le_bytes_len(p.y as nat, 4);
    lemma_le_bytes_len(p.z as nat, 4);
    lemma_le_bytes_len(p.confidence.unwrap_or(0) as nat, 4);
}

proof fn lemma_records_len(s: Seq<WirePoint>, layout: Layout)
    ensures
        records_bytes(s, layout).len() == s.len() * record_len(layout),
    decreases s.len(),
{
    if s.len() > 0 {
        lemma_records_len(s.drop_last(), layout);
        lemma_record_len(s.last(), layout);
        assert(s.len() * record_len(layout) == (s.len() - 1) * record_len(layout) + record_len(layout))
            by (nonlinear_arith);
    }
}

/// Record `i` of a batch stands at `i * record_len` in its records.
proof fn lemma_records_index(s: Seq<WirePoint>, layout: Layout, i: int)
    requires
        0 <= i < s.len(),
    ensures
        records_bytes(s, layout).subrange(i * record_len(layout), (i + 1) * record_len(layout))
            == record_bytes(s[i], layout),
    decreases s.len(),
{
    let r = record_len(layout);
    let front = records_bytes(s.drop_last(), layout);
    lemma_records_len(s.drop_last(), layout);
    lemma_record_len(s.last(), layout);
    assert((i + 1) * r == i * r + r) by (nonlinear_arith);
    if i == s.len() - 1 {
        assert(front.len() == i * r);
        assert(records_bytes(s, layout).subrange(i * r, (i + 1) * r) =~= record_bytes(s[i], layout));
    } else {
        lemma_records_index(s.drop_last(), layout, i);
        assert((i + 1) * r <= (s.len() - 1) * r) by (nonlinear_arith)
            requires
                i + 1 <= s.len() - 1,
                r >= 0,
        ;
        assert(records_bytes(s, layout).subrange(i * r, (i + 1) * r) =~= front.subrange(i * r, (i + 1) * r));
    }
}

proof fn lemma_word_read(b: Seq<u8>, off: int, w: u32)
    requires
        0 <= off,
        off + 4 <= b.len(),
        b.subrange(off, off + 4) == word_bytes(w),
    ensures
        word_at(b, off) == w,
{
    lemma_pow256_values();
    lemma_le_round_trip(w as nat, 4);
}

/// A record read back where it was written gives the point that was written.
proof fn lemma_record_read(b: Seq<u8>, layout: Layout, off: int, p: WirePoint)
    requires
        0 <= off,
        off + record_len(layout) <= b.len(),
        b.subrange(off, off + record_len(layout)) == record_bytes(p, layout),
        fits(p, layout),
    ensures
        point_at(b, layout, off) == p,
{
    let rec = b.subrange(off, off + record_len(layout));
    lemma_le_bytes_len(p.x as nat, 4);
    lemma_le_bytes_len(p.y as nat, 4);
    lemma_le_bytes_len(p.z as nat, 4);
    lemma_le_bytes_len(p.confidence.unwrap_or(0) as nat, 4);
    assert(b.subrange(off, off + 4) =~= rec.subrange(0, 4));
    assert(b.subrange(off + 4, off + 8) =~= rec.subrange(4, 8));
    assert(b.subrange(off + 8, off + 12) =~= rec.subrange(8, 12));
    assert(rec.subrange(0, 4) =~= word_bytes(p.x));
    assert(rec.subrange(4, 8) =~= word_bytes(p.y));
    assert(rec.subrange(8, 12) =~= word_bytes(p.z));
    lemma_word_read(b, off, p.x);
    lemma_word_read(b, off + 4, p.y);
    lemma_word_read(b, off + 8, p.z);
    if layout == Layout::PositionConfidence {
        assert(b.subrange(off + 12, off + 16) =~= rec.subrange(12, 16));
        assert(rec.subrange(12, 16) =~= word_bytes(p.confidence.unwrap_or(0)));
        lemma_word_read(b, off + 12, p.confidence.unwrap_or(0));
    }
}

/// Decoding an encoded batch gives the batch back and consumes exactly the
/// bytes of its message, whatever follows in the stream.
pub proof fn lemma_round_trip(s: Seq<WirePoint>, layout: Layout, rest: Seq<u8>)
    requires
        all_fit(s, layout),
        s.len() < pow256(8),
    ensures
        decode_spec(message_bytes(s, layout) + rest, layout)
            == Ok::<(Seq<WirePoint>, nat), DecodeError>((s, message_bytes(s, layout).len())),
{
    let r = record_len(layout);
    let head = varint_bytes(s.len());
    let body = records_bytes(s, layout);
    let b = message_bytes(s, layout) + rest;
    assert(b =~= head + (body + rest));
    lemma_varint_round_trip(s.len(), body + rest);
    lemma_records_len(s, layout);
    let h = head.len() as int;
    let got = Seq::new(s.len(), |i: int| point_at(b, layout, h + i * r));
    assert forall|i: int| 0 <= i < s.len() implies got[i] == s[i] by {
        lemma_records_index(s, layout, i);
        assert((i + 1) * r == i * r + r) by (nonlinear_arith);
        assert(i * r + r <= s.len() * r) by (nonlinear_arith)
            requires
                i + 1 <= s.len(),
                r >= 0,
        ;
        assert(0 <= i * r) by (nonlinear_arith)
            requires
                i >= 0,
                r >= 0,
        ;
        assert(b.subrange(h + i * r, h + i * r + r) =~= body.subrange(i * r, (i + 1) * r));
        lemma_record_read(b, layout, h + i * r, s[i]);
    }
    assert(got =~= s);
}

fn push_record(out: &mut Vec<u8>, p: WirePoint, layout: Layout)
    ensures
        final(out)@ == old(out)@ + record_bytes(p, layout),
{
    let ghost before = out@;
    push_le(out, p.x as u64, 4);
    push_le(out, p.y as u64, 4);
    push_le(out, p.z as u64, 4);
    match layout {
        Layout::Position => {
            assert(out@ =~= before + record_bytes(p, layout));
        },
        Layout::PositionConfidence => {
            let c: u32 = match p.confidence {
                Some(c) => c,
                None => 0,
            };
            push_le(out, c as u64, 4);
            assert(out@ =~= before + record_bytes(p, layout));
        },
    }
}

/// Appends the message that carries `points` to `out`.
pub fn encode_batch_into(out: &mut Vec<u8>, points: &[WirePoint], layout: Layout)
    requires
        all_fit(points@, layout),
    ensures
        final(out)@ == old(out)@ + message_bytes(points@, layout),
{
    let ghost before = out@;
    let n: usize = points.len();
    push_varint(out, n as u64);
    let ghost head = out@;
    let mut i: usize = 0;
    assert(points@.subrange(0, 0) =~= Seq::<WirePoint>::empty());
    while i < n
        invariant
            i <= n == points@.len(),
            head == before + varint_bytes(n as nat),
            out@ == head + records_bytes(points@.subrange(0, i as int), layout),
        decreases n - i,
    {
        let ghost done = out@;
        push_record(out, points[i], layout);
        let ghost next = points@.subrange(0, i + 1);
        assert(next.drop_last() =~= points@.subrange(0, i as int));
        assert(out@ =~= head + records_bytes(next, layout));
        i = i + 1;
    }
    assert(points@.subrange(0, n as int) =~= points@);
    assert(out@ =~= before + message_bytes(points@, layout));
}

/// The message that carries `points`.
pub fn encode_batch(points: &[WirePoint], layout: Layout) -> (r: Vec<u8>)
    requires
        all_fit(points@, layout),
    ensures
        r@ == message_bytes(points@, layout),
{
    let mut out: Vec<u8> = Vec::new();
    encode_batch_into(&mut out, points, layout);
    assert(out@ =~= Seq::<u8>::empty() + message_bytes(points@, layout));
    out
}

fn read_word(b: &[u8], off: usize) -> (r: u32)
    requires
        off + 4 <= b@.len(),
    ensures
        r == word_at(b@, off as int),
{
    let v: u64 = read_le(b, off, 4);
    proof {
        lemma_le_value_bound(b@.subrange(off as int, off + 4));
        lemma_pow256_values();
    }
    v as u32
}

fn read_record(b: &[u8], off: usize, layout: Layout) -> (r: WirePoint)
    requires
        off + record_len(layout) <= b@.len(),
    ensures
        r == point_at(b@, layout, off as int),
{
    let len: usize = b.len();
    assert(off + record_len(layout) <= len);
    let x: u32 = read_word(b, off);
    let y: u32 = read_word(b, off + 4);
    let z: u32 = read_word(b, off + 8);
    let confidence: Option<u32> = match layout {
        Layout::Position => None,
        Layout::PositionConfidence => Some(read_word(b, off + 12)),
    };
    WirePoint { x, y, z, confidence }
}

fn record_size(layout: Layout) -> (r: usize)
    ensures
        r as nat == record_len(layout),
{
    match layout {
        Layout::Position => 12,
        Layout::PositionConfidence => 16,
    }
}

/// Reads the message at the start of `b`: its points and the number of
/// bytes it took. Bytes after the message are left for the next call.
pub fn decode_batch(b: &[u8], layout: Layout) -> (r: Result<(Vec<WirePoint>, usize), DecodeError>)
    ensures
        match (r, decode_spec(b@, layout)) {
            (Ok((v, used)), Ok((sv, sused))) => v@ == sv && used as nat == sused,
            (Err(e), Err(se)) => e == se,
            _ => false,
        },
{
    let len: usize = b.len();
    let (n, head) = match read_varint(b) {
        Ok(v) => v,
        Err(e) => {
            return Err(e);
        },
    };
    let rec: usize = record_size(layout);
    let room: usize = len - head;
    proof {
        let m = room as int;
        let q = m / rec as int;
        assert(q * rec + m % (rec as int) == m && 0 <= m % (rec as int) < rec) by (nonlinear_arith)
            requires
                rec > 0,
                q == m / rec as int,
        ;
        if n as int > q {
            assert(n as int * rec >= (q + 1) * rec) by (nonlinear_arith)
                requires
                    n as int >= q + 1,
                    rec > 0,
            ;
        } else {
            assert(n as int * rec <= q * rec) by (nonlinear_arith)
                requires
                    n as int <= q,
                    rec > 0,
            ;
        }
    }
    if n > (room / rec) as u64 {
        return Err(DecodeError::Truncated);
    }
    let count: usize = n as usize;
    let mut points: Vec<WirePoint> = Vec::new();
    let mut i: usize = 0;
    let mut off: usize = head;
    while i < count
        invariant
            i <= count,
            len == b@.len(),
            head + count * rec <= len,
            rec as nat == record_len(layout),
            off == head + i * rec,
            points@.len() == i,
            forall|j: int| 0 <= j < i ==> points@[j] == #[trigger] point_at(b@, layout, head + j * rec),
        decreases count - i,
    {
        assert(off + rec <= len) by (nonlinear_arith)
            requires
                off == head + i * rec,
                i + 1 <= count,
                head + count * rec <= len,
        ;
        let p: WirePoint = read_record(b, off, layout);
        points.push(p);
        assert(head + (i + 1) * rec == off + rec) by (nonlinear_arith)
            requires
                off == head + i * rec,
        ;
        off = off + rec;
        i = i + 1;
    }
    let ghost expected = Seq::new(count as nat, |j: int| point_at(b@, layout, head + j * record_len(layout)));
    assert(points@ =~= expected);
    Ok((points, off))
}

} // verus!
