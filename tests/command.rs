use arducam_tof::command::{command_outcome, parse_command, parse_trimmed, CommandOutcome, LineCommand};
use arducam_tof::filter::{ConfidenceRange, FilterState, FilterUpdate};

#[test]
fn set_max_depth_carries_its_number() {
    assert!(matches!(parse_command("set max depth 1.5"), LineCommand::SetMaxDepth("1.5")));
    assert!(matches!(parse_command("set max depth abc"), LineCommand::SetMaxDepth("abc")));
    assert!(matches!(parse_command("set min depth 0.25"), LineCommand::SetMinDepth("0.25")));
}

#[test]
fn clear_commands() {
    assert!(matches!(parse_command("clear max depth"), LineCommand::ClearMaxDepth));
    assert!(matches!(parse_command("clear min depth"), LineCommand::ClearMinDepth));
    assert!(matches!(parse_command("clear confidence range"), LineCommand::ClearConfidenceRange));
}

#[test]
fn confidence_range_takes_both_bounds() {
    assert!(matches!(
        parse_command("set confidence range 0.1 0.9"),
        LineCommand::SetConfidenceRange("0.1", "0.9")
    ));
    assert!(matches!(
        parse_command("set confidence range 0.1 0.9 0.3"),
        LineCommand::SetConfidenceRange("0.1", "0.9 0.3")
    ));
    assert!(matches!(parse_command("set confidence range 0.1"), LineCommand::RangeUsage));
}

#[test]
fn surrounding_whitespace_is_ignored() {
    assert!(matches!(parse_command("  set max depth 2 \n"), LineCommand::SetMaxDepth("2")));
    assert!(matches!(parse_command("   \n"), LineCommand::Empty));
    assert!(matches!(parse_trimmed(" clear max depth"), LineCommand::Unrecognised));
}

#[test]
fn empty_and_unknown_lines() {
    assert!(matches!(parse_command(""), LineCommand::Empty));
    assert!(matches!(parse_command("hello"), LineCommand::Unrecognised));
    assert!(matches!(parse_command("set max depth"), LineCommand::Unrecognised));
    assert!(matches!(parse_command("clear max depth now"), LineCommand::Unrecognised));
    assert!(matches!(parse_command("set max depth é"), LineCommand::SetMaxDepth("é")));
}

#[test]
fn unicode_white_space_is_trimmed() {
    assert!(matches!(parse_command("\u{3000}clear min depth\u{a0}\t"), LineCommand::ClearMinDepth));
    assert!(matches!(parse_command("\u{2003}set max depth 3\u{2029}"), LineCommand::SetMaxDepth("3")));
}

#[test]
fn set_max_depth_then_bad_number_then_clear() {
    let mut state = FilterState::new();
    let c = parse_command("set max depth 1.5");
    let first = "1.5".parse::<f32>().ok().map(f32::to_bits);
    match command_outcome(&c, first, None) {
        CommandOutcome::Update(u) => state.apply(u),
        other => panic!("unexpected {other:?}"),
    }
    assert_eq!(state.max_depth, Some(1.5f32.to_bits()));
    // "abc" does not read as a number: the report comes back, nothing changes.
    let c = parse_command("set max depth abc");
    assert!("abc".parse::<f32>().is_err());
    assert_eq!(command_outcome(&c, None, None), CommandOutcome::BadNumber);
    assert_eq!(state.max_depth, Some(1.5f32.to_bits()));
    let c = parse_command("clear max depth");
    assert_eq!(command_outcome(&c, None, None), CommandOutcome::Update(FilterUpdate::SetMaxDepth(None)));
    state.apply(FilterUpdate::SetMaxDepth(None));
    assert_eq!(state.max_depth, None);
}

#[test]
fn confidence_range_is_set_whole_or_not_at_all() {
    let c = parse_command("set confidence range 0.1 0.9");
    let (lo, hi) = (0.1f32.to_bits(), 0.9f32.to_bits());
    assert_eq!(
        command_outcome(&c, Some(lo), Some(hi)),
        CommandOutcome::Update(FilterUpdate::SetConfidenceRange(Some(ConfidenceRange { low: lo, high: hi })))
    );
    assert_eq!(command_outcome(&c, None, Some(hi)), CommandOutcome::BadLowerBound);
    assert_eq!(command_outcome(&c, Some(lo), None), CommandOutcome::BadHigherBound);
}

#[test]
fn outcomes_of_other_lines() {
    assert_eq!(command_outcome(&parse_command(""), None, None), CommandOutcome::Nothing);
    assert_eq!(command_outcome(&parse_command("bogus"), None, None), CommandOutcome::Unrecognised);
    assert_eq!(
        command_outcome(&parse_command("set confidence range 1"), None, None),
        CommandOutcome::Usage
    );
    assert_eq!(
        command_outcome(&parse_command("clear confidence range"), None, None),
        CommandOutcome::Update(FilterUpdate::SetConfidenceRange(None))
    );
    assert_eq!(
        command_outcome(&parse_command("set min depth 0.5"), Some(7), None),
        CommandOutcome::Update(FilterUpdate::SetMinDepth(Some(7)))
    );
}
