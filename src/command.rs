//! The control channel: one text command per line, changing the display
//! parameters. Numbers are left as text for the caller to read.
use vstd::prelude::*;
use crate::filter::{ConfidenceRange, FilterUpdate};

verus! {

/// What a line asks for; numbers are the text that stood in their place.
pub enum LineCommand<'a> {
    /// An empty line: nothing to do.
    Empty,
    ClearMaxDepth,
    ClearMinDepth,
    ClearConfidenceRange,
    SetMaxDepth(&'a str),
    SetMinDepth(&'a str),
    /// The text before and after the first space of the arguments.
    SetConfidenceRange(&'a str, &'a str),
    /// `set confidence range` without two space-separated arguments.
    RangeUsage,
    Unrecognised,
}

/// `LineCommand` over character sequences.
pub enum LineCommandView {
    Empty,
    ClearMaxDepth,
    ClearMinDepth,
    ClearConfidenceRange,
    SetMaxDepth(Seq<char>),
    SetMinDepth(Seq<char>),
    SetConfidenceRange(Seq<char>, Seq<char>),
    RangeUsage,
    Unrecognised,
}

impl<'a> View for LineCommand<'a> {
    type V = LineCommandView;

    open spec fn view(&self) -> LineCommandView {
        match self {
            LineCommand::Empty => LineCommandView::Empty,
            LineCommand::ClearMaxDepth => LineCommandView::ClearMaxDepth,
            LineCommand::ClearMinDepth => LineCommandView::ClearMinDepth,
            LineCommand::ClearConfidenceRange => LineCommandView::ClearConfidenceRange,
            LineCommand::SetMaxDepth(v) => LineCommandView::SetMaxDepth(v@),
            LineCommand::SetMinDepth(v) => LineCommandView::SetMinDepth(v@),
            LineCommand::SetConfidenceRange(lo, hi) => LineCommandView::SetConfidenceRange(lo@, hi@),
            LineCommand::RangeUsage => LineCommandView::RangeUsage,
            LineCommand::Unrecognised => LineCommandView::Unrecognised,
        }
    }
}

pub open spec fn has_prefix(s: Seq<char>, p: Seq<char>) -> bool {
    p.len() <= s.len() && s.subrange(0, p.len() as int) == p
}

/// Index of the first space in `s`, if any.
pub open spec fn first_space(s: Seq<char>) -> Option<int>
    decreases s.len(),
{
    if s.len() == 0 {
        None
    } else if s[0] == ' ' {
        Some(0)
    } else {
        match first_space(s.drop_first()) {
            Some(i) => Some(i + 1),
            None => None,
        }
    }
}

/// The command on a line whose surrounding whitespace is already gone.
pub open spec fn parse_spec(t: Seq<char>) -> LineCommandView {
    if t.len() == 0 {
        LineCommandView::Empty
    } else if t == "clear max depth"@ {
        LineCommandView::ClearMaxDepth
    } else if t == "clear min depth"@ {
        LineCommandView::ClearMinDepth
    } else if t == "clear confidence range"@ {
        LineCommandView::ClearConfidenceRange
    } else if has_prefix(t, "set max depth "@) {
        LineCommandView::SetMaxDepth(t.skip("set max depth "@.len() as int))
    } else if has_prefix(t, "set min depth "@) {
        LineCommandView::SetMinDepth(t.skip("set min depth "@.len() as int))
    } else if has_prefix(t, "set confidence range "@) {
        let rest = t.skip("set confidence range "@.len() as int);
        match first_space(rest) {
            Some(i) => LineCommandView::SetConfidenceRange(rest.take(i), rest.skip(i + 1)),
            None => LineCommandView::RangeUsage,
        }
    } else {
        LineCommandView::Unrecognised
    }
}

proof fn lemma_first_space(s: Seq<char>, i: int)
    requires
        0 <= i <= s.len(),
        forall|j: int| 0 <= j < i ==> s[j] != ' ',
    ensures
        i < s.len() && s[i] == ' ' ==> first_space(s) == Some(i),
        i == s.len() ==> first_space(s) is None,
    decreases i,
{
    if i > 0 {
        lemma_first_space(s.drop_first(), i - 1);
    }
}

/// Whether `s` starts with `p`.
fn starts_with(s: &str, p: &str) -> (r: bool)
    ensures
        r == has_prefix(s@, p@),
{
    let n: usize = s.unicode_len();
    let m: usize = p.unicode_len();
    if m > n {
        return false;
    }
    let mut i: usize = 0;
    while i < m
        invariant
            m <= n == s@.len(),
            m == p@.len(),
            i <= m,
            forall|j: int| 0 <= j < i ==> s@[j] == p@[j],
        decreases m - i,
    {
        if s.get_char(i) != p.get_char(i) {
            assert(s@.subrange(0, m as int)[i as int] != p@[i as int]);
            return false;
        }
        i = i + 1;
    }
    assert(s@.subrange(0, m as int) =~= p@);
    true
}

/// Whether `s` is exactly `p`.
fn same_text(s: &str, p: &str) -> (r: bool)
    ensures
        r == (s@ == p@),
{
    let n: usize = s.unicode_len();
    let m: usize = p.unicode_len();
    let pre: bool = starts_with(s, p);
    if pre && n == m {
        assert(s@ =~= s@.subrange(0, m as int));
        true
    } else {
        proof {
            if s@ == p@ {
                assert(s@.subrange(0, p@.len() as int) =~= s@);
            }
        }
        false
    }
}

/// Splits `s` at its first space.
fn split_at_space<'b>(s: &'b str) -> (r: Option<(&'b str, &'b str)>)
    ensures
        match (r, first_space(s@)) {
            (Some((lo, hi)), Some(i)) => lo@ == s@.take(i) && hi@ == s@.skip(i + 1),
            (None, None) => true,
            _ => false,
        },
{
    let n: usize = s.unicode_len();
    let mut i: usize = 0;
    while i < n
        invariant
            i <= n == s@.len(),
            forall|j: int| 0 <= j < i ==> s@[j] != ' ',
        decreases n - i,
    {
        if s.get_char(i) == ' ' {
            proof {
                lemma_first_space(s@, i as int);
            }
            let lo: &str = s.substring_char(0, i);
            let hi: &str = s.substring_char(i + 1, n);
            return Some((lo, hi));
        }
        i = i + 1;
    }
    proof {
        lemma_first_space(s@, n as int);
    }
    None
}

/// The command on a line whose surrounding whitespace is already gone.
pub fn parse_trimmed<'a>(t: &'a str) -> (r: LineCommand<'a>)
    ensures
        r@ == parse_spec(t@),
{
    let n: usize = t.unicode_len();
    let set_max: &str = "set max depth ";
    let set_min: &str = "set min depth ";
    let set_range: &str = "set confidence range ";
    if n == 0 {
        LineCommand::Empty
    } else if same_text(t, "clear max depth") {
        LineCommand::ClearMaxDepth
    } else if same_text(t, "clear min depth") {
        LineCommand::ClearMinDepth
    } else if same_text(t, "clear confidence range") {
        LineCommand::ClearConfidenceRange
    } else if starts_with(t, set_max) {
        let k: usize = set_max.unicode_len();
        LineCommand::SetMaxDepth(t.substring_char(k, n))
    } else if starts_with(t, set_min) {
        let k: usize = set_min.unicode_len();
        LineCommand::SetMinDepth(t.substring_char(k, n))
    } else if starts_with(t, set_range) {
        let k: usize = set_range.unicode_len();
        let rest: &str = t.substring_char(k, n);
        match split_at_space(rest) {
            Some((lo, hi)) => LineCommand::SetConfidenceRange(lo, hi),
            None => LineCommand::RangeUsage,
        }
    } else {
        LineCommand::Unrecognised
    }
}

/// The characters with Unicode's White_Space property.
pub open spec fn is_white_space(c: char) -> bool {
    ('\u{9}' <= c && c <= '\u{d}') || c == ' ' || c == '\u{85}' || c == '\u{a0}' || c == '\u{1680}'
        || ('\u{2000}' <= c && c <= '\u{200a}') || c == '\u{2028}' || c == '\u{2029}'
        || c == '\u{202f}' || c == '\u{205f}' || c == '\u{3000}'
}

/// `s` without its leading run of white space.
pub open spec fn trim_start_spec(s: Seq<char>) -> Seq<char>
    decreases s.len(),
{
    if s.len() > 0 && is_white_space(s[0]) {
        trim_start_spec(s.drop_first())
    } else {
        s
    }
}

/// `s` without its trailing run of white space.
pub open spec fn trim_end_spec(s: Seq<char>) -> Seq<char>
    decreases s.len(),
{
    if s.len() > 0 && is_white_space(s.last()) {
        trim_end_spec(s.drop_last())
    } else {
        s
    }
}

/// `s` without its leading and trailing white space.
pub open spec fn trim_spec(s: Seq<char>) -> Seq<char> {
    trim_end_spec(trim_start_spec(s))
}

/// Relies on `str::trim`: drops the leading and trailing characters that
/// have the White_Space property.
#[verifier::external_body]
fn trim_line<'a>(s: &'a str) -> (r: &'a str)
    ensures
        r@ == trim_spec(s@),
{
    s.trim()
}

/// The command on one input line; surrounding whitespace is ignored.
pub fn parse_command<'a>(line: &'a str) -> (r: LineCommand<'a>)
    ensures
        r@ == parse_spec(trim_spec(line@)),
{
    parse_trimmed(trim_line(line))
}

/// What a line comes to once the caller has read its numbers.
#[derive(Debug, Clone, Copy, PartialEq, Eq, Structural)]
pub enum CommandOutcome {
    /// An empty line.
    Nothing,
    /// The change to make, whole.
    Update(FilterUpdate),
    /// The depth given is not a number; nothing changes.
    BadNumber,
    /// The lower bound of a range is not a number; nothing changes.
    BadLowerBound,
    /// The higher bound of a range is not a number; nothing changes.
    BadHigherBound,
    /// A range command without its two bounds; show how to write it.
    Usage,
    /// Not a command.
    Unrecognised,
}

/// The outcome of command `c`, where `first` and `second` are the bit
/// patterns read from its first and second number, `None` where the text
/// is not a number. A range is set only when both bounds read, and then
/// both at once.
pub open spec fn outcome_spec(c: LineCommandView, first: Option<u32>, second: Option<u32>) -> CommandOutcome {
    match c {
        LineCommandView::Empty => CommandOutcome::Nothing,
        LineCommandView::ClearMaxDepth => CommandOutcome::Update(FilterUpdate::SetMaxDepth(None)),
        LineCommandView::ClearMinDepth => CommandOutcome::Update(FilterUpdate::SetMinDepth(None)),
        LineCommandView::ClearConfidenceRange => CommandOutcome::Update(FilterUpdate::SetConfidenceRange(None)),
        LineCommandView::SetMaxDepth(_) => match first {
            Some(v) => CommandOutcome::Update(FilterUpdate::SetMaxDepth(Some(v))),
            None => CommandOutcome::BadNumber,
        },
        LineCommandView::SetMinDepth(_) => match first {
            Some(v) => CommandOutcome::Update(FilterUpdate::SetMinDepth(Some(v))),
            None => CommandOutcome::BadNumber,
        },
        LineCommandView::SetConfidenceRange(_, _) => match (first, second) {
            (None, _) => CommandOutcome::BadLowerBound,
            (Some(_), None) => CommandOutcome::BadHigherBound,
            (Some(low), Some(high)) => CommandOutcome::Update(
                FilterUpdate::SetConfidenceRange(Some(ConfidenceRange { low, high })),
            ),
        },
        LineCommandView::RangeUsage => CommandOutcome::Usage,
        LineCommandView::Unrecognised => CommandOutcome::Unrecognised,
    }
}

/// The outcome of command `c` given what its numbers read as.
pub fn command_outcome(c: &LineCommand, first: Option<u32>, second: Option<u32>) -> (r: CommandOutcome)
    ensures
        r == outcome_spec(c@, first, second),
{
    match c {
        LineCommand::Empty => CommandOutcome::Nothing,
        LineCommand::ClearMaxDepth => CommandOutcome::Update(FilterUpdate::SetMaxDepth(None)),
        LineCommand::ClearMinDepth => CommandOutcome::Update(FilterUpdate::SetMinDepth(None)),
        LineCommand::ClearConfidenceRange => CommandOutcome::Update(FilterUpdate::SetConfidenceRange(None)),
        LineCommand::SetMaxDepth(_) => match first {
            Some(v) => CommandOutcome::Update(FilterUpdate::SetMaxDepth(Some(v))),
            None => CommandOutcome::BadNumber,
        },
        LineCommand::SetMinDepth(_) => match first {
            Some(v) => CommandOutcome::Update(FilterUpdate::SetMinDepth(Some(v))),
            None => CommandOutcome::BadNumber,
        },
        LineCommand::SetConfidenceRange(_, _) => match (first, second) {
            (None, _) => CommandOutcome::BadLowerBound,
            (Some(_), None) => CommandOutcome::BadHigherBound,
            (Some(low), Some(high)) => CommandOutcome::Update(
                FilterUpdate::SetConfidenceRange(Some(ConfidenceRange { low, high })),
            ),
        },
        LineCommand::RangeUsage => CommandOutcome::Usage,
        LineCommand::Unrecognised => CommandOutcome::Unrecognised,
    }
}

} // verus!
