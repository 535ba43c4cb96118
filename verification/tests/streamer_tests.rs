use orthrus::events::{RecordedEvent, RecordingSink, ScriptedSource};
use orthrus::streamer::replay_stream;

fn data_text(event: &RecordedEvent) -> Option<(&str, &str)> {
    match event {
        RecordedEvent::PtyData { session, text } => Some((session.as_str(), text.as_str())),
        _ => None,
    }
}

fn exit_code_of(event: &RecordedEvent) -> Option<(&str, u16)> {
    match event {
        RecordedEvent::PtyExit { session, code } => Some((session.as_str(), *code)),
        _ => None,
    }
}

#[test]
fn stream_delivers_chunks_in_order() {
    let mut source = ScriptedSource::new(vec![b"hel".to_vec(), b"lo ".to_vec(), b"pty".to_vec()]);
    let mut sink = RecordingSink::new();
    replay_stream(&mut source, &mut sink, "term-1");
    assert_eq!(sink.len(), 4);
    assert_eq!(data_text(sink.get(0)), Some(("term-1", "hel")));
    assert_eq!(data_text(sink.get(1)), Some(("term-1", "lo ")));
    assert_eq!(data_text(sink.get(2)), Some(("term-1", "pty")));
    assert_eq!(exit_code_of(sink.get(3)), Some(("term-1", 0)));
}

#[test]
fn stream_bytes_reassemble_exactly() {
    let mut source = ScriptedSource::new(vec![b"abc".to_vec(), b"def".to_vec()]);
    let mut sink = RecordingSink::new();
    replay_stream(&mut source, &mut sink, "s");
    let mut joined = String::new();
    for i in 0..sink.len() {
        if let Some((_, text)) = data_text(sink.get(i)) {
            joined.push_str(text);
        }
    }
    assert_eq!(joined, "abcdef");
}

#[test]
fn stream_emits_exactly_one_exit_and_last() {
    let mut source = ScriptedSource::new(vec![b"a".to_vec(), b"b".to_vec()]);
    let mut sink = RecordingSink::new();
    replay_stream(&mut source, &mut sink, "s");
    let mut exits = 0;
    for i in 0..sink.len() {
        if exit_code_of(sink.get(i)).is_some() {
            exits += 1;
            assert_eq!(i, sink.len() - 1, "the exit event must come last");
        }
    }
    assert_eq!(exits, 1);
}

#[test]
fn stream_failure_reports_code_one() {
    let mut source = ScriptedSource::failing(vec![b"partial".to_vec()]);
    let mut sink = RecordingSink::new();
    replay_stream(&mut source, &mut sink, "s");
    assert_eq!(sink.len(), 2);
    assert_eq!(data_text(sink.get(0)), Some(("s", "partial")));
    assert_eq!(exit_code_of(sink.get(1)), Some(("s", 1)));
}

#[test]
fn stream_empty_script_exits_at_once() {
    let mut source = ScriptedSource::new(Vec::new());
    let mut sink = RecordingSink::new();
    replay_stream(&mut source, &mut sink, "s");
    assert_eq!(sink.len(), 1);
    assert_eq!(exit_code_of(sink.get(0)), Some(("s", 0)));
}

#[test]
fn stream_decodes_invalid_utf8_lossily() {
    let mut source = ScriptedSource::new(vec![vec![0xff, b'a']]);
    let mut sink = RecordingSink::new();
    replay_stream(&mut source, &mut sink, "s");
    assert_eq!(data_text(sink.get(0)), Some(("s", "\u{FFFD}a")));
}
