use lsbfdump::session::{DumpSession, ReadOutcome};
use lsbfdump::source::{source_kind, SourceKind, StdinWithSeek};

#[test]
fn single_hyphen_names_standard_input() {
    assert_eq!(source_kind("-"), SourceKind::StandardInput);
}

#[test]
fn every_other_identifier_names_a_file() {
    assert_eq!(source_kind(""), SourceKind::File);
    assert_eq!(source_kind("--"), SourceKind::File);
    assert_eq!(source_kind("-x"), SourceKind::File);
    assert_eq!(source_kind("x-"), SourceKind::File);
    assert_eq!(source_kind("./-"), SourceKind::File);
    assert_eq!(source_kind(" -"), SourceKind::File);
    assert_eq!(source_kind("data.bin"), SourceKind::File);
    assert_eq!(source_kind("/no/such/file"), SourceKind::File);
}

#[test]
fn look_alike_dashes_name_files() {
    assert_eq!(source_kind("\u{2013}"), SourceKind::File);
    assert_eq!(source_kind("\u{2212}"), SourceKind::File);
    assert_eq!(source_kind("_"), SourceKind::File);
}

#[test]
fn fresh_console_is_not_at_end_of_stream() {
    let console = StdinWithSeek::new();
    assert!(!console.at_end_of_stream());
}

#[test]
fn seek_returns_the_offset_it_was_given() {
    let mut console = StdinWithSeek::new();
    assert_eq!(console.seek(0), 0);
    assert_eq!(console.seek(8), 8);
    assert_eq!(console.seek(u64::MAX), u64::MAX);
}

#[test]
fn seek_to_start_leaves_console_readable() {
    let mut console = StdinWithSeek::new();
    console.seek(0);
    assert!(!console.at_end_of_stream());
}

#[test]
fn seek_past_start_ends_the_console_stream() {
    let mut console = StdinWithSeek::new();
    console.seek(1);
    assert!(console.at_end_of_stream());
    console.seek(u64::MAX);
    assert!(console.at_end_of_stream());
}

#[test]
fn seek_back_to_start_makes_console_readable_again() {
    let mut console = StdinWithSeek::new();
    console.seek(8);
    assert!(console.at_end_of_stream());
    console.seek(0);
    assert!(!console.at_end_of_stream());
}

#[test]
fn standard_input_with_offset_yields_no_lines() {
    assert_eq!(source_kind("-"), SourceKind::StandardInput);
    let mut console = StdinWithSeek::new();
    console.seek(8);

    let pending: [u8; 4] = [0xDE, 0xAD, 0xBE, 0xEF];
    let mut session = DumpSession::new(8, 16, true);
    let mut reads: u32 = 0;
    while session.wants_group() {
        let outcome = if console.at_end_of_stream() {
            ReadOutcome::EndOfStream
        } else {
            ReadOutcome::Group(pending)
        };
        session.advance(outcome);
        reads += 1;
    }
    assert_eq!(reads, 1);
    assert!(session.into_lines().is_empty());
}

#[test]
fn standard_input_without_offset_is_dumped() {
    let mut console = StdinWithSeek::new();
    console.seek(0);

    let pending: [u8; 4] = [0xDE, 0xAD, 0xBE, 0xEF];
    let mut session = DumpSession::new(0, 8, false);
    while session.wants_group() {
        let outcome = if console.at_end_of_stream() {
            ReadOutcome::EndOfStream
        } else {
            ReadOutcome::Group(pending)
        };
        session.advance(outcome);
    }
    assert_eq!(
        session.into_lines(),
        vec![
            "11101111 10111110 10101101 11011110".to_string(),
            "11101111 10111110 10101101 11011110".to_string(),
        ]
    );
}
