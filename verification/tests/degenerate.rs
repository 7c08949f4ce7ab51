use response_recovery::agent::Agent;
use response_recovery::degenerate::{kib_tenths, DegenerateKind};

#[test]
fn short_normal_output_is_not_degenerate() {
    assert_eq!(Agent::classify_degenerate_output("Here is a normal answer."), DegenerateKind::Normal);
    assert_eq!(Agent::classify_degenerate_output("hello world"), DegenerateKind::Normal);
    assert_eq!(Agent::classify_degenerate_output(""), DegenerateKind::Normal);
    assert_eq!(Agent::classify_degenerate_output("   \n  "), DegenerateKind::Normal);
}

#[test]
fn large_varied_output_is_not_flagged_repeated() {
    // Distinct prose of substantial size must never be classified as a
    // repeated-literal run.
    let mut s = String::with_capacity(16384);
    for i in 0..200 {
        s.push_str(&format!(
            "Sentence number {} with enough distinct words to look like real output that is not a loop. ",
            i
        ));
    }
    assert!(s.len() >= Agent::DEGENERATE_REPEAT_MIN_BYTES);
    assert_eq!(Agent::classify_degenerate_output(&s), DegenerateKind::Normal);
}

#[test]
fn repeated_placeholder_literal_is_degenerate() {
    let lit = "<placeholder></placeholder>";
    let text = lit.repeat(200); // ~4.8 KB, far below the size cap
    assert!(text.len() >= Agent::DEGENERATE_REPEAT_MIN_BYTES);
    assert_eq!(Agent::classify_degenerate_output(&text), DegenerateKind::Repeated);
    assert!(Agent::classify_degenerate_output(&text).is_degenerate());
    assert!(Agent::degenerate_output_notice(&text).is_some());
}

#[test]
fn small_repeated_literal_is_not_classified() {
    // A few repeats don't meet the minimum-size bar and are harmless.
    let text = "<placeholder></placeholder>".repeat(4);
    assert!(text.len() < Agent::DEGENERATE_REPEAT_MIN_BYTES);
    assert_eq!(Agent::classify_degenerate_output(&text), DegenerateKind::Normal);
}

#[test]
fn oversized_block_is_degenerate_even_if_not_repeated() {
    // Gigantic (but not repeated) output still trips the size cap.
    let mut text = String::with_capacity(Agent::DEGENERATE_TEXT_BYTE_CAP + 1024);
    let mut i = 0usize;
    while text.len() < Agent::DEGENERATE_TEXT_BYTE_CAP + 1 {
        text.push_str(&format!("segment-{};", i));
        i += 1;
    }
    assert_eq!(Agent::classify_degenerate_output(&text), DegenerateKind::Oversized);
    assert!(Agent::classify_degenerate_output(&text).is_degenerate());
    assert!(Agent::degenerate_output_notice(&text).is_some());
}

#[test]
fn notice_is_absent_for_normal_output() {
    assert!(Agent::degenerate_output_notice("a normal short answer").is_none());
}

#[test]
fn kinds_tell_whether_they_are_degenerate() {
    assert!(DegenerateKind::Repeated.is_degenerate());
    assert!(DegenerateKind::Oversized.is_degenerate());
    assert!(!DegenerateKind::Normal.is_degenerate());
}

#[test]
fn sizes_at_the_bounds() {
    assert_eq!(Agent::DEGENERATE_REPEAT_MIN_BYTES, 4096);
    assert_eq!(Agent::DEGENERATE_REPEAT_MAX_PERIOD, 64);
    assert_eq!(Agent::DEGENERATE_TEXT_BYTE_CAP, 262144);
    assert_eq!(Agent::classify_degenerate_output(&"a".repeat(4095)), DegenerateKind::Normal);
    assert_eq!(Agent::classify_degenerate_output(&"a".repeat(4096)), DegenerateKind::Repeated);
    assert_eq!(Agent::classify_degenerate_output(&"a".repeat(262143)), DegenerateKind::Repeated);
    assert_eq!(Agent::classify_degenerate_output(&"a".repeat(262144)), DegenerateKind::Oversized);
}

#[test]
fn size_counts_bytes_without_the_white_space_around() {
    // Two bytes each: 2048 characters reach the minimum.
    assert_eq!(Agent::classify_degenerate_output(&"\u{e9}".repeat(2047)), DegenerateKind::Normal);
    assert_eq!(Agent::classify_degenerate_output(&"\u{e9}".repeat(2048)), DegenerateKind::Repeated);
    let padded = format!(" \n{}\u{3000}\t", "a".repeat(4095));
    assert_eq!(Agent::classify_degenerate_output(&padded), DegenerateKind::Normal);
    assert_eq!(Agent::classify_degenerate_output(&" ".repeat(300_000)), DegenerateKind::Normal);
}

#[test]
fn white_space_around_a_run_does_not_matter() {
    let run = "ab".repeat(3000);
    let padded = format!("\n\n  {}  \n", run);
    assert_eq!(Agent::classify_degenerate_output(&padded), DegenerateKind::Repeated);
    assert_eq!(
        Agent::degenerate_output_notice(&padded),
        Agent::degenerate_output_notice(&run)
    );
}

#[test]
fn literal_with_white_space_in_it_is_a_run() {
    assert_eq!(Agent::classify_degenerate_output(&"go on. ".repeat(1000)), DegenerateKind::Repeated);
    assert_eq!(Agent::classify_degenerate_output(&" go on.".repeat(1000)), DegenerateKind::Repeated);
}

#[test]
fn trailing_partial_unit_is_tolerated() {
    let mut text = "abcdefg".repeat(1000);
    text.push_str("abc");
    assert!(Agent::is_degenerate_literal_run(&text));
    assert_eq!(Agent::classify_degenerate_output(&text), DegenerateKind::Repeated);
}

#[test]
fn run_covers_the_whole_text() {
    let mut text = "abcdefg".repeat(1000);
    text.push_str("abz");
    assert!(!Agent::is_degenerate_literal_run(&text));
    assert_eq!(Agent::classify_degenerate_output(&text), DegenerateKind::Normal);
    let led_in = format!("Sure! {}", "abcdefg".repeat(1000));
    assert!(!Agent::is_degenerate_literal_run(&led_in));
}

#[test]
fn units_longer_than_the_limit_are_no_literal() {
    let unit: String = (0..64u8).map(|i| (b'0' + i) as char).collect();
    assert!(Agent::is_degenerate_literal_run(&unit.repeat(8)));
    let longer = format!("{}~", unit);
    assert_eq!(longer.len(), 65);
    assert!(!Agent::is_degenerate_literal_run(&longer.repeat(100)));
}

#[test]
fn seven_repeats_are_too_few() {
    assert!(!Agent::is_degenerate_literal_run(&"abc".repeat(7)));
    assert!(Agent::is_degenerate_literal_run(&"abc".repeat(8)));
    assert!(!Agent::is_degenerate_literal_run(""));
}

#[test]
fn repeated_notice_gives_the_bytes() {
    assert_eq!(
        Agent::degenerate_output_notice(&"<placeholder></placeholder>".repeat(200)).as_deref(),
        Some("The model kept repeating the same short literal instead of making progress (5400 bytes of repeated text). Its turn was not continued.")
    );
}

#[test]
fn oversized_notice_gives_the_kibibytes() {
    assert_eq!(
        Agent::degenerate_output_notice(&"x".repeat(262144)).as_deref(),
        Some("The model produced a very large text block (256.0 KiB) with no tool call. Its turn was not continued.")
    );
    let text = "y".repeat(300_000);
    let expected = format!(
        "The model produced a very large text block ({:.1} KiB) with no tool call. Its turn was not continued.",
        text.len() as f64 / 1024.0
    );
    assert_eq!(Agent::degenerate_output_notice(&text), Some(expected));
}

#[test]
fn tenths_round_as_one_decimal_does() {
    for bytes in 0..400_000usize {
        let tenths = kib_tenths(bytes);
        let shown = format!("{}.{}", tenths / 10, tenths % 10);
        assert_eq!(shown, format!("{:.1}", bytes as f64 / 1024.0));
    }
    // A tie goes to the even digit.
    assert_eq!(kib_tenths(262144 + 256), 2562);
    assert_eq!(kib_tenths(262144 + 768), 2568);
}
