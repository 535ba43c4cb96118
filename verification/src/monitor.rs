//! Line-oriented monitoring of the watch process's diagnostic stream.
//!
//! Unlike the PTY streamer, which forwards raw output, this monitor
//! classifies each complete line: a line carrying a build-success or
//! idle-wait marker announces a completed build, and a line carrying an
//! error marker announces a build error together with that exact line.
//! Classification is per line — a burst of matching lines produces one
//! event per line.
//!
//! The blocking read loop belongs to the session's dedicated thread in the
//! embedding program, which calls [`DiagnosticMonitor::feed_chunk`] for
//! each chunk and [`DiagnosticMonitor::finish`] when the stream ends;
//! [`replay_diagnostics`] is the same loop run to completion over a finite
//! in-memory source.

use vstd::prelude::*;

use crate::events::{ByteSource, EventSink, ReadOutcome, ScriptedSource, SinkEvent};
use crate::text::{decode_utf8_lossy, lossy_text_of};

verus! {

/// `needle` occurs contiguously somewhere in `hay`.
pub open spec fn contains_chars(hay: Seq<char>, needle: Seq<char>) -> bool {
    exists|i: int|
        0 <= i <= hay.len() - needle.len() && #[trigger] hay.subrange(i, i + needle.len())
            == needle
}

/// Whether `needle` occurs contiguously in `hay`.
pub fn contains_str(hay: &str, needle: &str) -> (r: bool)
    ensures
        r == contains_chars(hay@, needle@),
{
    let h: usize = hay.unicode_len();
    let n: usize = needle.unicode_len();
    if n > h {
        return false;
    }
    let mut i: usize = 0;
    while i <= h - n
        invariant
            h == hay@.len(),
            n == needle@.len(),
            n <= h,
            i <= h - n + 1,
            forall|x: int| 0 <= x < i ==> #[trigger] hay@.subrange(x, x + n as int) != needle@,
        decreases h - n + 1 - i,
    {
        let mut j: usize = 0;
        while j < n && hay.get_char(i + j) == needle.get_char(j)
            invariant
                h == hay@.len(),
                n == needle@.len(),
                i + n <= h,
                j <= n,
                forall|y: int| 0 <= y < j ==> hay@[i + y] == needle@[y],
            decreases n - j,
        {
            j = j + 1;
        }
        if j == n {
            proof {
                assert(hay@.subrange(i as int, i as int + n as int) =~= needle@);
            }
            return true;
        }
        proof {
            assert(hay@.subrange(i as int, i as int + n as int)[j as int] == hay@[i + j]);
            assert(hay@.subrange(i as int, i as int + n as int) != needle@);
        }
        i = i + 1;
    }
    proof {
        assert forall|x: int|
            0 <= x <= hay@.len() - needle@.len() implies #[trigger] hay@.subrange(
            x,
            x + needle@.len(),
        ) != needle@ by {
            assert(x < i);
        }
    }
    false
}

/// A diagnostic line showing a completed build: it carries the build
/// tool's success marker or its idle-wait marker.
pub open spec fn is_built_line(text: Seq<char>) -> bool {
    contains_chars(text, "build succeeded"@) || contains_chars(text, "waiting for changes"@)
}

/// A diagnostic line showing a build error: it carries an error marker.
pub open spec fn is_error_line(text: Seq<char>) -> bool {
    contains_chars(text, "ERROR"@) || contains_chars(text, "error:"@)
}

/// The events one complete diagnostic line produces: one build-complete
/// event when it shows a completed build, then one build-error event
/// carrying the line's decoded text when it shows an error; nothing
/// otherwise.
pub open spec fn line_events(session: Seq<char>, line: Seq<u8>) -> Seq<SinkEvent> {
    (if is_built_line(lossy_text_of(line)) {
        seq![SinkEvent::SphinxBuilt { session }]
    } else {
        Seq::<SinkEvent>::empty()
    }) + (if is_error_line(lossy_text_of(line)) {
        seq![SinkEvent::SphinxError { session, line: lossy_text_of(line) }]
    } else {
        Seq::<SinkEvent>::empty()
    })
}

/// A complete line with its line feed removed, and a carriage return
/// before that line feed removed too.
pub open spec fn strip_trailing_cr(line: Seq<u8>) -> Seq<u8> {
    if line.len() > 0 && line.last() == 13 {
        line.drop_last()
    } else {
        line
    }
}

/// What feeding `bytes` into the monitor does, given the bytes `pending`
/// since the last line feed: the events of every line completed by a line
/// feed in `bytes`, in stream order, and the bytes pending afterwards.
pub open spec fn feed_bytes(session: Seq<char>, pending: Seq<u8>, bytes: Seq<u8>) -> (Seq<
    SinkEvent,
>, Seq<u8>)
    decreases bytes.len(),
{
    if bytes.len() == 0 {
        (Seq::<SinkEvent>::empty(), pending)
    } else if bytes[0] == 10 {
        let rest = feed_bytes(session, Seq::<u8>::empty(), bytes.skip(1));
        (line_events(session, strip_trailing_cr(pending)) + rest.0, rest.1)
    } else {
        feed_bytes(session, pending.push(bytes[0]), bytes.skip(1))
    }
}

/// What the end of the stream does: a nonempty trailing line without a
/// line feed is still classified, exactly as the last line of a file
/// without a final line feed is still a line.
pub open spec fn flush_events(session: Seq<char>, pending: Seq<u8>) -> Seq<SinkEvent> {
    if pending.len() > 0 {
        line_events(session, pending)
    } else {
        Seq::<SinkEvent>::empty()
    }
}

/// The whole event trace of a drained diagnostic stream.
pub open spec fn diagnostic_events(session: Seq<char>, stream: Seq<u8>) -> Seq<SinkEvent> {
    feed_bytes(session, Seq::<u8>::empty(), stream).0 + flush_events(
        session,
        feed_bytes(session, Seq::<u8>::empty(), stream).1,
    )
}

/// Law: per-line monitoring granularity.  Each complete diagnostic line
/// produces exactly one build-complete event when it carries a success or
/// idle marker, exactly one build-error event carrying exactly that line's
/// decoded text when it carries an error marker (after the complete event
/// when it carries both), and no event otherwise.
pub proof fn lemma_line_event_policy(session: Seq<char>, line: Seq<u8>)
    ensures
        is_built_line(lossy_text_of(line)) && !is_error_line(lossy_text_of(line))
            ==> line_events(session, line) =~= seq![SinkEvent::SphinxBuilt { session }],
        !is_built_line(lossy_text_of(line)) && is_error_line(lossy_text_of(line)) ==> line_events(
            session,
            line,
        ) =~= seq![SinkEvent::SphinxError { session, line: lossy_text_of(line) }],
        is_built_line(lossy_text_of(line)) && is_error_line(lossy_text_of(line)) ==> line_events(
            session,
            line,
        ) =~= seq![
            SinkEvent::SphinxBuilt { session },
            SinkEvent::SphinxError { session, line: lossy_text_of(line) },
        ],
        !is_built_line(lossy_text_of(line)) && !is_error_line(lossy_text_of(line)) ==> line_events(
            session,
            line,
        ) =~= Seq::<SinkEvent>::empty(),
{
}

/// Classifies one complete diagnostic line and pushes its events.
fn emit_line_events<S: EventSink>(sink: &mut S, session_id: &str, line: &Vec<u8>)
    ensures
        final(sink).events() == old(sink).events() + line_events(session_id@, line@),
{
    let text = decode_utf8_lossy(line);
    let built = contains_str(text.as_str(), "build succeeded") || contains_str(
        text.as_str(),
        "waiting for changes",
    );
    let erroneous = contains_str(text.as_str(), "ERROR") || contains_str(text.as_str(), "error:");
    if built {
        sink.sphinx_built(session_id);
    }
    if erroneous {
        sink.sphinx_error(session_id, text.as_str());
    }
    proof {
        assert(final(sink).events() =~= old(sink).events() + line_events(session_id@, line@));
    }
}

/// The per-session engine that classifies a diagnostic stream line by line.
///
/// It buffers the bytes after the last line feed; each line feed completes
/// a line, which is classified and announced at once.
pub struct DiagnosticMonitor {
    pending: Vec<u8>,
    done: bool,
}

impl DiagnosticMonitor {
    /// The bytes received since the last completed line.
    pub closed spec fn pending_bytes(&self) -> Seq<u8> {
        self.pending@
    }

    /// Whether the stream's end has been processed.
    pub closed spec fn finished(&self) -> bool {
        self.done
    }

    /// A fresh monitor: nothing buffered, stream still open.
    pub fn new() -> (r: DiagnosticMonitor)
        ensures
            !r.finished(),
            r.pending_bytes() == Seq::<u8>::empty(),
    {
        let r = DiagnosticMonitor { pending: Vec::new(), done: false };
        proof {
            assert(r.pending_bytes() =~= Seq::<u8>::empty());
        }
        r
    }

    /// Feeds one chunk of the diagnostic stream: every line completed by a
    /// line feed in it is classified and announced, in stream order, and
    /// the rest stays buffered.
    pub fn feed_chunk<S: EventSink>(&mut self, sink: &mut S, session_id: &str, bytes: &Vec<u8>)
        requires
            !old(self).finished(),
        ensures
            !final(self).finished(),
            final(self).pending_bytes() == feed_bytes(
                session_id@,
                old(self).pending_bytes(),
                bytes@,
            ).1,
            final(sink).events() == old(sink).events() + feed_bytes(
                session_id@,
                old(self).pending_bytes(),
                bytes@,
            ).0,
    {
        let ghost p0 = self.pending@;
        let m: usize = bytes.len();
        let mut k: usize = 0;
        proof {
            assert(bytes@.skip(0) =~= bytes@);
            assert(old(sink).events() + feed_bytes(session_id@, p0, bytes@).0 =~= sink.events()
                + feed_bytes(session_id@, self.pending@, bytes@.skip(k as int)).0);
        }
        while k < m
            invariant
                m == bytes@.len(),
                k <= m,
                !self.finished(),
                feed_bytes(session_id@, p0, bytes@).1 == feed_bytes(
                    session_id@,
                    self.pending@,
                    bytes@.skip(k as int),
                ).1,
                old(sink).events() + feed_bytes(session_id@, p0, bytes@).0 == sink.events()
                    + feed_bytes(session_id@, self.pending@, bytes@.skip(k as int)).0,
            decreases m - k,
        {
            let ghost pend_before = self.pending@;
            let ghost rest = bytes@.skip(k as int);
            let b = bytes[k];
            proof {
                assert(rest[0] == bytes@[k as int]);
                assert(rest.skip(1) =~= bytes@.skip(k as int + 1));
            }
            if b == 10 {
                let mut line: Vec<u8> = Vec::new();
                core::mem::swap(&mut line, &mut self.pending);
                if line.len() > 0 {
                    if line[line.len() - 1] == 13 {
                        let _cr = line.pop();
                    }
                }
                proof {
                    assert(line@ == strip_trailing_cr(pend_before));
                }
                emit_line_events(sink, session_id, &line);
                proof {
                    assert(self.pending@ =~= Seq::<u8>::empty());
                    assert(feed_bytes(session_id@, pend_before, rest).0 == line_events(
                        session_id@,
                        strip_trailing_cr(pend_before),
                    ) + feed_bytes(session_id@, Seq::<u8>::empty(), bytes@.skip(k as int + 1)).0);
                    assert(old(sink).events() + feed_bytes(session_id@, p0, bytes@).0
                        =~= sink.events() + feed_bytes(
                        session_id@,
                        self.pending@,
                        bytes@.skip(k as int + 1),
                    ).0);
                }
            } else {
                self.pending.push(b);
                proof {
                    assert(feed_bytes(session_id@, pend_before, rest) == feed_bytes(
                        session_id@,
                        self.pending@,
                        bytes@.skip(k as int + 1),
                    ));
                }
            }
            k = k + 1;
        }
        proof {
            assert(bytes@.skip(m as int) =~= Seq::<u8>::empty());
            assert(sink.events() + feed_bytes(
                session_id@,
                self.pending@,
                bytes@.skip(m as int),
            ).0 =~= sink.events());
        }
    }

    /// Processes the end of the stream: a nonempty trailing line is still
    /// classified and announced.  The monitor is finished afterwards and
    /// the reader thread may stop.
    pub fn finish<S: EventSink>(&mut self, sink: &mut S, session_id: &str)
        requires
            !old(self).finished(),
        ensures
            final(self).finished(),
            final(sink).events() == old(sink).events() + flush_events(
                session_id@,
                old(self).pending_bytes(),
            ),
    {
        let mut tail: Vec<u8> = Vec::new();
        core::mem::swap(&mut tail, &mut self.pending);
        self.done = true;
        if tail.len() > 0 {
            emit_line_events(sink, session_id, &tail);
        } else {
            proof {
                assert(final(sink).events() =~= old(sink).events() + flush_events(
                    session_id@,
                    old(self).pending_bytes(),
                ));
            }
        }
    }
}

/// Bytes without a line feed only extend the pending line.
proof fn lemma_feed_bytes_no_line_feed(session: Seq<char>, pending: Seq<u8>, bytes: Seq<u8>)
    requires
        forall|i: int| 0 <= i < bytes.len() ==> #[trigger] bytes[i] != 10,
    ensures
        feed_bytes(session, pending, bytes).0 == Seq::<SinkEvent>::empty(),
        feed_bytes(session, pending, bytes).1 == pending + bytes,
    decreases bytes.len(),
{
    if bytes.len() == 0 {
        assert(pending + bytes =~= pending);
    } else {
        lemma_feed_bytes_no_line_feed(session, pending.push(bytes[0]), bytes.skip(1));
        assert(pending.push(bytes[0]) + bytes.skip(1) =~= pending + bytes);
    }
}

/// Law: a diagnostic stream that is one line closed by a line feed
/// produces exactly that line's events — one build-complete event when the
/// line carries a success or idle marker, one build-error event carrying
/// exactly the line when it carries an error marker, in that order, and
/// nothing else (see [`lemma_line_event_policy`]).
pub proof fn lemma_single_line_stream(session: Seq<char>, line: Seq<u8>)
    requires
        forall|i: int| 0 <= i < line.len() ==> #[trigger] line[i] != 10,
    ensures
        diagnostic_events(session, line + seq![10u8]) == line_events(
            session,
            strip_trailing_cr(line),
        ),
{
    lemma_feed_bytes_no_line_feed(session, Seq::<u8>::empty(), line);
    lemma_feed_bytes_concat(session, Seq::<u8>::empty(), line, seq![10u8]);
    assert(Seq::<u8>::empty() + line =~= line);
    let fin = feed_bytes(session, line, seq![10u8]);
    assert(seq![10u8].len() == 1);
    assert(seq![10u8][0] == 10u8);
    let rest = feed_bytes(session, Seq::<u8>::empty(), seq![10u8].skip(1));
    assert(seq![10u8].skip(1).len() == 0);
    assert(rest.0 == Seq::<SinkEvent>::empty());
    assert(rest.1 == Seq::<u8>::empty());
    assert(fin.0 == line_events(session, strip_trailing_cr(line)) + rest.0);
    assert(fin.0 =~= line_events(session, strip_trailing_cr(line)));
    assert(fin.1 =~= Seq::<u8>::empty());
    assert(diagnostic_events(session, line + seq![10u8]) =~= line_events(
        session,
        strip_trailing_cr(line),
    ));
}

/// How feeding composes: feeding `a` and then `b` is feeding `a + b`.
proof fn lemma_feed_bytes_concat(session: Seq<char>, pending: Seq<u8>, a: Seq<u8>, b: Seq<u8>)
    ensures
        feed_bytes(session, pending, a + b).0 == feed_bytes(session, pending, a).0 + feed_bytes(
            session,
            feed_bytes(session, pending, a).1,
            b,
        ).0,
        feed_bytes(session, pending, a + b).1 == feed_bytes(
            session,
            feed_bytes(session, pending, a).1,
            b,
        ).1,
    decreases a.len(),
{
    if a.len() == 0 {
        assert(a + b =~= b);
        assert(feed_bytes(session, pending, a).0 =~= Seq::<SinkEvent>::empty());
        assert(feed_bytes(session, pending, a).0 + feed_bytes(session, pending, b).0
            =~= feed_bytes(session, pending, b).0);
    } else {
        let ab = a + b;
        assert(ab[0] == a[0]);
        assert(ab.skip(1) =~= a.skip(1) + b);
        if a[0] == 10 {
            lemma_feed_bytes_concat(session, Seq::<u8>::empty(), a.skip(1), b);
            assert(feed_bytes(session, pending, ab).0 =~= feed_bytes(session, pending, a).0
                + feed_bytes(session, feed_bytes(session, pending, a).1, b).0);
        } else {
            lemma_feed_bytes_concat(session, pending.push(a[0]), a.skip(1), b);
        }
    }
}

/// Drains a finite scripted source to its end, exactly as the per-session
/// monitor thread drains a live diagnostic stream: every completed line is
/// classified and announced in stream order, and a nonempty trailing line
/// is classified when the stream ends.  The trace is [`diagnostic_events`]
/// of the whole remaining stream, chunk boundaries notwithstanding.
pub fn replay_diagnostics<S: EventSink>(source: &mut ScriptedSource, sink: &mut S, session_id: &str)
    requires
        old(source).wf(),
    ensures
        final(sink).events() == old(sink).events() + diagnostic_events(
            session_id@,
            old(source).script().skip(old(source).position()).flatten(),
        ),
{
    let mut engine = DiagnosticMonitor::new();
    let ghost whole: Seq<u8> = source.script().skip(source.position()).flatten();
    proof {
        assert(engine.pending_bytes() =~= Seq::<u8>::empty());
        assert(old(sink).events() + feed_bytes(session_id@, Seq::<u8>::empty(), whole).0
            =~= sink.events() + feed_bytes(
            session_id@,
            engine.pending_bytes(),
            source.script().skip(source.position()).flatten(),
        ).0);
    }
    loop
        invariant
            source.wf(),
            source.script() == old(source).script(),
            source.fails() == old(source).fails(),
            0 <= old(source).position() <= source.position() <= source.script().len(),
            !engine.finished(),
            whole == old(source).script().skip(old(source).position()).flatten(),
            feed_bytes(session_id@, Seq::<u8>::empty(), whole).1 == feed_bytes(
                session_id@,
                engine.pending_bytes(),
                source.script().skip(source.position()).flatten(),
            ).1,
            old(sink).events() + feed_bytes(session_id@, Seq::<u8>::empty(), whole).0
                == sink.events() + feed_bytes(
                session_id@,
                engine.pending_bytes(),
                source.script().skip(source.position()).flatten(),
            ).0,
        decreases source.script().len() - source.position(),
    {
        let ghost pos_before = source.position();
        let ghost pend_before = engine.pending_bytes();
        let ghost rest_before = source.script().skip(pos_before).flatten();
        let outcome = source.read_chunk();
        match outcome {
            ReadOutcome::Data(bytes) => {
                proof {
                    let tail_before = source.script().skip(pos_before);
                    assert(tail_before[0] == bytes@);
                    assert(tail_before.drop_first() =~= source.script().skip(source.position()));
                    assert(rest_before =~= bytes@ + source.script().skip(
                        source.position(),
                    ).flatten());
                    lemma_feed_bytes_concat(
                        session_id@,
                        pend_before,
                        bytes@,
                        source.script().skip(source.position()).flatten(),
                    );
                }
                engine.feed_chunk(sink, session_id, &bytes);
                proof {
                    assert(old(sink).events() + feed_bytes(session_id@, Seq::<u8>::empty(), whole).0
                        =~= sink.events() + feed_bytes(
                        session_id@,
                        engine.pending_bytes(),
                        source.script().skip(source.position()).flatten(),
                    ).0);
                }
            },
            ReadOutcome::Closed => {
                proof {
                    lemma_replay_diagnostics_end(
                        session_id@,
                        whole,
                        engine.pending_bytes(),
                        source.script().skip(source.position()),
                    );
                    assert(sink.events() =~= old(sink).events() + feed_bytes(
                        session_id@,
                        Seq::<u8>::empty(),
                        whole,
                    ).0);
                }
                engine.finish(sink, session_id);
                proof {
                    assert(sink.events() =~= old(sink).events() + diagnostic_events(
                        session_id@,
                        whole,
                    ));
                }
                return ;
            },
            ReadOutcome::Failed => {
                proof {
                    lemma_replay_diagnostics_end(
                        session_id@,
                        whole,
                        engine.pending_bytes(),
                        source.script().skip(source.position()),
                    );
                    assert(sink.events() =~= old(sink).events() + feed_bytes(
                        session_id@,
                        Seq::<u8>::empty(),
                        whole,
                    ).0);
                }
                engine.finish(sink, session_id);
                proof {
                    assert(sink.events() =~= old(sink).events() + diagnostic_events(
                        session_id@,
                        whole,
                    ));
                }
                return ;
            },
        }
    }
}

/// At the end of the script nothing is left to feed: the pending bytes are
/// exactly the whole stream's final pending bytes.
proof fn lemma_replay_diagnostics_end(
    session: Seq<char>,
    whole: Seq<u8>,
    pending: Seq<u8>,
    tail: Seq<Seq<u8>>,
)
    requires
        tail.len() == 0,
        feed_bytes(session, Seq::<u8>::empty(), whole).1 == feed_bytes(
            session,
            pending,
            tail.flatten(),
        ).1,
    ensures
        feed_bytes(session, Seq::<u8>::empty(), whole).1 == pending,
        feed_bytes(session, pending, tail.flatten()).0 == Seq::<SinkEvent>::empty(),
{
    assert(tail.flatten() =~= Seq::<u8>::empty());
}

} // verus!
