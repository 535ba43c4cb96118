use orthrus::events::{RecordedEvent, RecordingSink, ScriptedSource};
use orthrus::monitor::{contains_str, replay_diagnostics};

fn error_line(event: &RecordedEvent) -> Option<(&str, &str)> {
    match event {
        RecordedEvent::SphinxError { session, line } => Some((session.as_str(), line.as_str())),
        _ => None,
    }
}

fn is_built(event: &RecordedEvent) -> bool {
    matches!(event, RecordedEvent::SphinxBuilt { .. })
}

fn run_monitor(chunks: Vec<Vec<u8>>) -> RecordingSink {
    let mut source = ScriptedSource::new(chunks);
    let mut sink = RecordingSink::new();
    replay_diagnostics(&mut source, &mut sink, "build-1");
    sink
}

#[test]
fn contains_str_finds_substrings() {
    assert!(contains_str("a build succeeded.", "build succeeded"));
    assert!(contains_str("abc", ""));
    assert!(!contains_str("short", "much longer needle"));
    assert!(!contains_str("build succeede", "build succeeded"));
}

#[test]
fn error_line_produces_error_event_with_exact_line() {
    let sink = run_monitor(vec![b"ERROR: broken include\n".to_vec()]);
    assert_eq!(sink.len(), 1);
    assert_eq!(error_line(sink.get(0)), Some(("build-1", "ERROR: broken include")));
}

#[test]
fn lowercase_error_marker_is_detected() {
    let sink = run_monitor(vec![b"warning then error: bad reference\n".to_vec()]);
    assert_eq!(sink.len(), 1);
    assert_eq!(error_line(sink.get(0)), Some(("build-1", "warning then error: bad reference")));
}

#[test]
fn success_line_produces_one_complete_event() {
    let sink = run_monitor(vec![b"build succeeded.\n".to_vec()]);
    assert_eq!(sink.len(), 1);
    assert!(is_built(sink.get(0)));
}

#[test]
fn idle_wait_line_produces_complete_event() {
    let sink = run_monitor(vec![b"[autobuild] waiting for changes...\n".to_vec()]);
    assert_eq!(sink.len(), 1);
    assert!(is_built(sink.get(0)));
}

#[test]
fn burst_of_matching_lines_gives_one_event_per_line() {
    let sink = run_monitor(vec![b"build succeeded.\nbuild succeeded.\n".to_vec()]);
    assert_eq!(sink.len(), 2);
    assert!(is_built(sink.get(0)));
    assert!(is_built(sink.get(1)));
}

#[test]
fn line_with_both_markers_gives_complete_then_error() {
    let sink = run_monitor(vec![b"build succeeded with ERROR somewhere\n".to_vec()]);
    assert_eq!(sink.len(), 2);
    assert!(is_built(sink.get(0)));
    assert_eq!(
        error_line(sink.get(1)),
        Some(("build-1", "build succeeded with ERROR somewhere")),
    );
}

#[test]
fn line_split_across_chunks_is_classified_once() {
    let sink = run_monitor(vec![b"build succ".to_vec(), b"eeded.\nrest".to_vec()]);
    assert_eq!(sink.len(), 1);
    assert!(is_built(sink.get(0)));
}

#[test]
fn carriage_return_is_stripped_before_classification() {
    let sink = run_monitor(vec![b"ERROR: x\r\n".to_vec()]);
    assert_eq!(sink.len(), 1);
    assert_eq!(error_line(sink.get(0)), Some(("build-1", "ERROR: x")));
}

#[test]
fn plain_lines_produce_no_events() {
    let sink = run_monitor(vec![b"reading sources... done\nwriting output...\n".to_vec()]);
    assert_eq!(sink.len(), 0);
}

#[test]
fn trailing_line_without_newline_is_still_classified() {
    let sink = run_monitor(vec![b"first plain line\nERROR: trailing".to_vec()]);
    assert_eq!(sink.len(), 1);
    assert_eq!(error_line(sink.get(0)), Some(("build-1", "ERROR: trailing")));
}
