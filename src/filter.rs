//! Display filters: which points are drawn and how they are colored.
//! Depths and confidences are IEEE-754 binary32 values held as bit patterns.
use vstd::prelude::*;
use crate::bytes::pow256;
use crate::codec::{all_fit, decode_spec, lemma_round_trip, message_bytes, Layout, WirePoint};

verus! {

broadcast use vstd::seq_lib::group_seq_properties;

/// The bit pattern is a NaN: all exponent bits set and a non-zero fraction.
pub open spec fn is_nan_bits(b: u32) -> bool {
    b % 0x8000_0000 > 0x7f80_0000
}

/// Where a non-NaN value stands on the number line: its magnitude bits,
/// negated when the sign bit is set, so that both zeros stand at 0.
pub open spec fn order_key(b: u32) -> int {
    if b >= 0x8000_0000 {
        -(b - 0x8000_0000)
    } else {
        b as int
    }
}

/// `a < b` between the binary32 values with these bit patterns:
/// false whenever either is NaN.
pub open spec fn sample_lt_spec(a: u32, b: u32) -> bool {
    !is_nan_bits(a) && !is_nan_bits(b) && order_key(a) < order_key(b)
}

/// `a < b` between the binary32 values with these bit patterns.
pub fn sample_lt(a: u32, b: u32) -> (r: bool)
    ensures
        r == sample_lt_spec(a, b),
{
    let a_mag: u32 = a % 0x8000_0000;
    let b_mag: u32 = b % 0x8000_0000;
    if a_mag > 0x7f80_0000 || b_mag > 0x7f80_0000 {
        return false;
    }
    let a_neg: bool = a >= 0x8000_0000;
    let b_neg: bool = b >= 0x8000_0000;
    if a_neg && b_neg {
        a_mag > b_mag
    } else if a_neg {
        a_mag > 0 || b_mag > 0
    } else if b_neg {
        false
    } else {
        a_mag < b_mag
    }
}

/// How a point is colored.
#[derive(Debug, Clone, Copy, PartialEq, Eq, Structural)]
pub enum Shade {
    /// No confidence range is set, or the point carries no confidence.
    Neutral,
    /// Pure red.
    Red,
    /// Pure green.
    Green,
    /// Between red and green, by `(confidence - low) / (high - low)`.
    Blend,
}

/// Bounds for coloring by confidence, as binary32 bit patterns.
#[derive(Debug, Clone, Copy, PartialEq, Eq, Structural)]
pub struct ConfidenceRange {
    pub low: u32,
    pub high: u32,
}

/// Live display parameters, each optional.
#[derive(Debug, Clone, Copy, PartialEq, Eq, Structural)]
pub struct FilterState {
    pub max_depth: Option<u32>,
    pub min_depth: Option<u32>,
    pub confidence_range: Option<ConfidenceRange>,
}

/// A change to one field of the display parameters; `None` clears it.
#[derive(Debug, Clone, Copy, PartialEq, Eq, Structural)]
pub enum FilterUpdate {
    SetMaxDepth(Option<u32>),
    SetMinDepth(Option<u32>),
    SetConfidenceRange(Option<ConfidenceRange>),
}

/// A point that survived the filters, with its color.
#[derive(Debug, Clone, Copy, PartialEq, Eq, Structural)]
pub struct StyledPoint {
    pub point: WirePoint,
    pub shade: Shade,
}

/// The color for `confidence` under `range`. When `low < high` does not
/// hold the comparisons run the other way: above `low` is red, below
/// `high` is green.
pub open spec fn shade_spec(range: Option<ConfidenceRange>, confidence: Option<u32>) -> Shade {
    match (range, confidence) {
        (Some(ConfidenceRange { low, high }), Some(c)) => if sample_lt_spec(low, high) {
            if sample_lt_spec(c, low) {
                Shade::Red
            } else if sample_lt_spec(high, c) {
                Shade::Green
            } else {
                Shade::Blend
            }
        } else {
            if sample_lt_spec(low, c) {
                Shade::Red
            } else if sample_lt_spec(c, high) {
                Shade::Green
            } else {
                Shade::Blend
            }
        },
        _ => Shade::Neutral,
    }
}

/// The color for `confidence` under `range`.
pub fn shade_of(range: Option<ConfidenceRange>, confidence: Option<u32>) -> (r: Shade)
    ensures
        r == shade_spec(range, confidence),
{
    match (range, confidence) {
        (Some(ConfidenceRange { low, high }), Some(c)) => if sample_lt(low, high) {
            if sample_lt(c, low) {
                Shade::Red
            } else if sample_lt(high, c) {
                Shade::Green
            } else {
                Shade::Blend
            }
        } else {
            if sample_lt(low, c) {
                Shade::Red
            } else if sample_lt(c, high) {
                Shade::Green
            } else {
                Shade::Blend
            }
        },
        _ => Shade::Neutral,
    }
}

impl FilterState {
    /// No filter and no confidence range.
    pub fn new() -> (r: Self)
        ensures
            r.max_depth is None && r.min_depth is None && r.confidence_range is None,
    {
        FilterState { max_depth: None, min_depth: None, confidence_range: None }
    }

    /// The point is drawn: not deeper than a set maximum, not shallower
    /// than a set minimum.
    pub open spec fn keeps(self, p: WirePoint) -> bool {
        &&& !(self.max_depth matches Some(m) && sample_lt_spec(m, p.z))
        &&& !(self.min_depth matches Some(m) && sample_lt_spec(p.z, m))
    }

    pub open spec fn filtered(self, s: Seq<WirePoint>) -> Seq<WirePoint> {
        s.filter(|p: WirePoint| self.keeps(p))
    }

    /// Whether the point is drawn.
    pub fn keeps_point(&self, p: &WirePoint) -> (r: bool)
        ensures
            r == self.keeps(*p),
    {
        let over: bool = match self.max_depth {
            Some(m) => sample_lt(m, p.z),
            None => false,
        };
        let under: bool = match self.min_depth {
            Some(m) => sample_lt(p.z, m),
            None => false,
        };
        !over && !under
    }

    /// The points that are drawn, in their order.
    pub fn filter_points(&self, points: &[WirePoint]) -> (r: Vec<WirePoint>)
        ensures
            r@ == self.filtered(points@),
    {
        let mut out: Vec<WirePoint> = Vec::new();
        let n: usize = points.len();
        let mut i: usize = 0;
        assert(points@.subrange(0, 0) =~= Seq::<WirePoint>::empty());
        while i < n
            invariant
                i <= n == points@.len(),
                out@ == self.filtered(points@.subrange(0, i as int)),
            decreases n - i,
        {
            let p: WirePoint = points[i];
            let ghost prefix = points@.subrange(0, i as int);
            assert(points@.subrange(0, i + 1) =~= prefix.push(p));
            proof {
                prefix.lemma_filter_push(p, |q: WirePoint| self.keeps(q));
            }
            if self.keeps_point(&p) {
                out.push(p);
            }
            i = i + 1;
        }
        assert(points@.subrange(0, n as int) =~= points@);
        out
    }

    /// The color of a point.
    pub fn shade(&self, p: &WirePoint) -> (r: Shade)
        ensures
            r == shade_spec(self.confidence_range, p.confidence),
    {
        shade_of(self.confidence_range, p.confidence)
    }

    /// What one display tick draws from a batch: the points that pass the
    /// filters, in order, each with its color.
    pub fn render_batch(&self, points: &[WirePoint]) -> (r: Vec<StyledPoint>)
        ensures
            r@ == self.filtered(points@).map_values(
                |p: WirePoint| StyledPoint { point: p, shade: shade_spec(self.confidence_range, p.confidence) },
            ),
    {
        let kept: Vec<WirePoint> = self.filter_points(points);
        let mut out: Vec<StyledPoint> = Vec::new();
        let n: usize = kept.len();
        let mut i: usize = 0;
        while i < n
            invariant
                i <= n == kept@.len(),
                out@.len() == i,
                forall|j: int| 0 <= j < i ==> #[trigger] out@[j] == (StyledPoint {
                    point: kept@[j],
                    shade: shade_spec(self.confidence_range, kept@[j].confidence),
                }),
            decreases n - i,
        {
            let p: WirePoint = kept[i];
            let shade: Shade = self.shade(&p);
            out.push(StyledPoint { point: p, shade });
            i = i + 1;
        }
        assert(out@ =~= kept@.map_values(
            |p: WirePoint| StyledPoint { point: p, shade: shade_spec(self.confidence_range, p.confidence) },
        ));
        out
    }

    /// Applies one change; the other fields stay as they were.
    pub fn apply(&mut self, u: FilterUpdate)
        ensures
            match u {
                FilterUpdate::SetMaxDepth(v) => *final(self) == (FilterState { max_depth: v, ..*old(self) }),
                FilterUpdate::SetMinDepth(v) => *final(self) == (FilterState { min_depth: v, ..*old(self) }),
                FilterUpdate::SetConfidenceRange(v) => *final(self) == (FilterState { confidence_range: v, ..*old(self) }),
            },
    {
        match u {
            FilterUpdate::SetMaxDepth(v) => self.max_depth = v,
            FilterUpdate::SetMinDepth(v) => self.min_depth = v,
            FilterUpdate::SetConfidenceRange(v) => self.confidence_range = v,
        }
    }
}

/// Filtering an already filtered batch with the same parameters changes nothing.
pub proof fn lemma_filter_idempotent(state: FilterState, s: Seq<WirePoint>)
    ensures
        state.filtered(state.filtered(s)) == state.filtered(s),
    decreases s.len(),
{
    let f = |p: WirePoint| state.keeps(p);
    if s.len() == 0 {
        assert(s.filter(f) =~= s);
    } else {
        let front = s.drop_last();
        let x = s.last();
        assert(s =~= front.push(x));
        front.lemma_filter_push(x, f);
        lemma_filter_idempotent(state, front);
        if state.keeps(x) {
            front.filter(f).lemma_filter_push(x, f);
        }
    }
}

/// Parameters that filter nothing keep every batch whole.
pub proof fn lemma_no_filter_keeps_all(state: FilterState, s: Seq<WirePoint>)
    requires
        state.max_depth is None,
        state.min_depth is None,
    ensures
        state.filtered(s) == s,
    decreases s.len(),
{
    let f = |p: WirePoint| state.keeps(p);
    if s.len() == 0 {
        assert(s.filter(f) =~= s);
    } else {
        let front = s.drop_last();
        assert(s =~= front.push(s.last()));
        front.lemma_filter_push(s.last(), f);
        lemma_no_filter_keeps_all(state, front);
    }
}

/// With no depth filter and no confidence range, a batch sent through the
/// stream, whatever follows it, is drawn as it was sent: every point, in
/// order, unchanged and in the neutral color.
pub proof fn lemma_stream_draws_batch_unchanged(
    s: Seq<WirePoint>,
    layout: Layout,
    rest: Seq<u8>,
    state: FilterState,
)
    requires
        all_fit(s, layout),
        s.len() < pow256(8),
        state.max_depth is None,
        state.min_depth is None,
        state.confidence_range is None,
    ensures
        decode_spec(message_bytes(s, layout) + rest, layout) matches Ok((d, _))
            && state.filtered(d).map_values(
                |p: WirePoint| StyledPoint { point: p, shade: shade_spec(state.confidence_range, p.confidence) },
            ) == s.map_values(|p: WirePoint| StyledPoint { point: p, shade: Shade::Neutral }),
{
    lemma_round_trip(s, layout, rest);
    lemma_no_filter_keeps_all(state, s);
    assert(s.map_values(
        |p: WirePoint| StyledPoint { point: p, shade: shade_spec(state.confidence_range, p.confidence) },
    ) =~= s.map_values(|p: WirePoint| StyledPoint { point: p, shade: Shade::Neutral }));
}

} // verus!
