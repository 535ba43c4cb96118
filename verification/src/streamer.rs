//! Draining a PTY session's output stream and forwarding it, in order, to
//! the event sink.
//!
//! A [`PtyStreamer`] turns each read outcome into its events: every
//! successful read is delivered immediately as its own data event (latency
//! over throughput: this path carries interactive terminal output), and the
//! end of the stream is announced exactly once.  The blocking read loop
//! itself belongs to the session's dedicated thread in the embedding
//! program, which calls [`PtyStreamer::feed`] with one outcome at a time;
//! [`replay_stream`] is the same loop run to completion over a finite
//! in-memory source.  The trace a drained stream leaves in the sink is
//! pinned down by [`pty_stream_events`].

use vstd::prelude::*;

use crate::events::{ByteSource, EventSink, ReadOutcome, ScriptedSource, SinkEvent};
use crate::text::{decode_utf8_lossy, lossy_text_of};

verus! {

/// The exit code announced for a stream that ended cleanly (`true`) or with
/// a read error (`false`).
pub open spec fn exit_code(clean: bool) -> u16 {
    if clean {
        0
    } else {
        1
    }
}

/// The data events that the read chunks of a session produce: one event per
/// chunk, in reading order, carrying the chunk's decoded text.
pub open spec fn pty_data_events(session: Seq<char>, chunks: Seq<Seq<u8>>) -> Seq<SinkEvent> {
    chunks.map_values(|b: Seq<u8>| SinkEvent::PtyData { session, text: lossy_text_of(b) })
}

/// The whole event trace of a drained stream: its data events followed by
/// exactly one exit event.
pub open spec fn pty_stream_events(session: Seq<char>, chunks: Seq<Seq<u8>>, clean: bool) -> Seq<
    SinkEvent,
> {
    pty_data_events(session, chunks).push(SinkEvent::PtyExit { session, code: exit_code(clean) })
}

/// The per-session engine that turns read outcomes into events.
///
/// It remembers (as ghost state) every chunk it has forwarded, so its
/// contract can say exactly which trace the sink received: after a run that
/// fed outcomes until `feed` returned `false`, the sink grew by exactly
/// [`pty_stream_events`] over those chunks.
pub struct PtyStreamer {
    done: bool,
    clean_end: Ghost<bool>,
    history: Ghost<Seq<Seq<u8>>>,
}

impl PtyStreamer {
    /// Whether the stream's end has been announced.
    pub closed spec fn finished(&self) -> bool {
        self.done
    }

    /// Whether the ended stream ended cleanly; meaningful once finished.
    pub closed spec fn clean(&self) -> bool {
        self.clean_end@
    }

    /// Every chunk forwarded so far, in reading order.
    pub closed spec fn chunks(&self) -> Seq<Seq<u8>> {
        self.history@
    }

    /// A fresh engine: nothing forwarded, stream still open.
    pub fn new() -> (r: PtyStreamer)
        ensures
            !r.finished(),
            r.chunks() == Seq::<Seq<u8>>::empty(),
    {
        PtyStreamer { done: false, clean_end: Ghost(true), history: Ghost(Seq::empty()) }
    }

    /// Forwards one read outcome of the session's stream to the sink:
    /// a chunk becomes one immediate data event carrying its decoded text; the
    /// end of the stream (or a read error) becomes the one exit event, after
    /// which the engine is finished and the reader thread may stop.
    pub fn feed<S: EventSink>(
        &mut self,
        sink: &mut S,
        session_id: &str,
        outcome: ReadOutcome,
    ) -> (more: bool)
        requires
            !old(self).finished(),
        ensures
            more == !final(self).finished(),
            outcome matches ReadOutcome::Data(bytes) ==> {
                &&& !final(self).finished()
                &&& final(self).chunks() == old(self).chunks().push(bytes@)
                &&& final(sink).events() == old(sink).events().push(
                    SinkEvent::PtyData { session: session_id@, text: lossy_text_of(bytes@) },
                )
            },
            outcome is Closed ==> {
                &&& final(self).finished()
                &&& final(self).clean()
                &&& final(self).chunks() == old(self).chunks()
                &&& final(sink).events() == old(sink).events().push(
                    SinkEvent::PtyExit { session: session_id@, code: 0u16 },
                )
            },
            outcome is Failed ==> {
                &&& final(self).finished()
                &&& !final(self).clean()
                &&& final(self).chunks() == old(self).chunks()
                &&& final(sink).events() == old(sink).events().push(
                    SinkEvent::PtyExit { session: session_id@, code: 1u16 },
                )
            },
    {
        match outcome {
            ReadOutcome::Data(bytes) => {
                let text = decode_utf8_lossy(&bytes);
                sink.pty_data(session_id, text.as_str());
                proof {
                    self.history@ = self.history@.push(bytes@);
                }
                true
            },
            ReadOutcome::Closed => {
                sink.pty_exit(session_id, 0);
                self.done = true;
                proof {
                    self.clean_end@ = true;
                }
                false
            },
            ReadOutcome::Failed => {
                sink.pty_exit(session_id, 1);
                self.done = true;
                proof {
                    self.clean_end@ = false;
                }
                false
            },
        }
    }
}

/// Drains a finite scripted source to its end, exactly as the per-session
/// reader thread drains a live stream: every chunk is forwarded as one
/// immediate data event, in reading order, and the end of the script is
/// announced by exactly one exit event.
pub fn replay_stream<S: EventSink>(source: &mut ScriptedSource, sink: &mut S, session_id: &str)
    requires
        old(source).wf(),
    ensures
        final(sink).events() == old(sink).events() + pty_stream_events(
            session_id@,
            old(source).script().skip(old(source).position()),
            !old(source).fails(),
        ),
{
    let mut engine = PtyStreamer::new();
    proof {
        assert(engine.chunks() =~= source.script().subrange(
            old(source).position(),
            source.position(),
        ));
        assert(sink.events() =~= old(sink).events() + pty_data_events(
            session_id@,
            engine.chunks(),
        ));
    }
    loop
        invariant
            source.wf(),
            source.script() == old(source).script(),
            source.fails() == old(source).fails(),
            0 <= old(source).position() <= source.position() <= source.script().len(),
            !engine.finished(),
            engine.chunks() == source.script().subrange(old(source).position(), source.position()),
            sink.events() == old(sink).events() + pty_data_events(session_id@, engine.chunks()),
        decreases source.script().len() - source.position(),
    {
        let ghost pos_before = source.position();
        let outcome = source.read_chunk();
        let more = engine.feed(sink, session_id, outcome);
        proof {
            if pos_before < source.script().len() {
                assert(engine.chunks() =~= source.script().subrange(
                    old(source).position(),
                    source.position(),
                ));
                assert(pty_data_events(session_id@, engine.chunks()) =~= pty_data_events(
                    session_id@,
                    engine.chunks().drop_last(),
                ).push(
                    SinkEvent::PtyData {
                        session: session_id@,
                        text: lossy_text_of(engine.chunks().last()),
                    },
                ));
                assert(sink.events() =~= old(sink).events() + pty_data_events(
                    session_id@,
                    engine.chunks(),
                ));
            }
        }
        if !more {
            proof {
                assert(engine.chunks() =~= old(source).script().skip(old(source).position()));
                assert(sink.events() =~= old(sink).events() + pty_stream_events(
                    session_id@,
                    old(source).script().skip(old(source).position()),
                    !old(source).fails(),
                ));
            }
            return ;
        }
    }
}

/// Law: within one session the data events carry the read chunks decoded
/// byte for byte and in reading order — the `i`-th data event carries
/// exactly the `i`-th chunk's text, so nothing is dropped, duplicated or
/// reordered.
pub proof fn lemma_data_delivered_in_order(session: Seq<char>, chunks: Seq<Seq<u8>>, clean: bool)
    ensures
        pty_stream_events(session, chunks, clean).len() == chunks.len() + 1,
        forall|i: int|
            0 <= i < chunks.len() ==> pty_stream_events(session, chunks, clean)[i] == (
            SinkEvent::PtyData { session, text: lossy_text_of(chunks[i]) }),
{
}

/// Law: a drained stream announces its end exactly once — its trace holds
/// exactly one exit event, and that event comes last, with code 0 for a
/// clean end of stream and 1 for a read error.
pub proof fn lemma_exactly_one_exit(session: Seq<char>, chunks: Seq<Seq<u8>>, clean: bool)
    ensures
        pty_stream_events(session, chunks, clean).last() == (SinkEvent::PtyExit {
            session,
            code: exit_code(clean),
        }),
        forall|i: int|
            0 <= i < pty_stream_events(session, chunks, clean).len() - 1 ==> !(pty_stream_events(
                session,
                chunks,
                clean,
            )[i] is PtyExit),
{
}

} // verus!
