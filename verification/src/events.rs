//! Events raised toward the UI layer, and the sink they are pushed through.
//!
//! The supervisor never calls back into its caller: everything asynchronous
//! is delivered as an event through an [`EventSink`] supplied by the
//! embedding program.  Delivery is fire-and-forget; a sink must not block
//! and must swallow its own delivery failures.  Each sink carries a ghost
//! log of every event pushed so far, which is what the supervisor's
//! contracts speak about.

use vstd::prelude::*;

verus! {

/// One notification pushed toward the UI layer, as recorded in a sink's
/// ghost event log.
pub ghost enum SinkEvent {
    /// Decoded output bytes arriving from a PTY session.
    PtyData { session: Seq<char>, text: Seq<char> },
    /// The PTY stream ended: code 0 for a clean end of stream, 1 for a
    /// read error.
    PtyExit { session: Seq<char>, code: u16 },
    /// The watch process of a build session was launched and serves on
    /// `port`.
    SphinxStarted { session: Seq<char>, port: u16 },
    /// A diagnostic line showed a completed build (or an idle wait).
    SphinxBuilt { session: Seq<char> },
    /// A diagnostic line carried an error marker; `line` is that line.
    SphinxError { session: Seq<char>, line: Seq<char> },
}

/// The channel through which a supervisor notifies the UI layer.
///
/// The embedding program implements this once over its UI event bus; the
/// crate's own [`RecordingSink`] implements it in memory.  `events()` is
/// the log of everything pushed so far, oldest first; every method appends
/// exactly one event and touches nothing else.
pub trait EventSink {
    /// The log of every event pushed so far, oldest first.  The default
    /// stands for a sink that keeps no ghost log, so that the embedding
    /// program can implement the trait outside the verifier; the sinks of
    /// this crate override it, and what is proved through this trait is
    /// proved of them.
    open spec fn events(&self) -> Seq<SinkEvent> {
        Seq::<SinkEvent>::empty()
    }

    /// Decoded PTY output for `session_id`.
    fn pty_data(&mut self, session_id: &str, text: &str)
        ensures
            final(self).events() == old(self).events().push(
                SinkEvent::PtyData { session: session_id@, text: text@ },
            ),
    ;

    /// The PTY stream of `session_id` ended.
    fn pty_exit(&mut self, session_id: &str, code: u16)
        ensures
            final(self).events() == old(self).events().push(
                SinkEvent::PtyExit { session: session_id@, code },
            ),
    ;

    /// The watch process of `session_id` was launched on `port`.
    fn sphinx_started(&mut self, session_id: &str, port: u16)
        ensures
            final(self).events() == old(self).events().push(
                SinkEvent::SphinxStarted { session: session_id@, port },
            ),
    ;

    /// A diagnostic line of `session_id` showed a completed build.
    fn sphinx_built(&mut self, session_id: &str)
        ensures
            final(self).events() == old(self).events().push(
                SinkEvent::SphinxBuilt { session: session_id@ },
            ),
    ;

    /// A diagnostic line of `session_id` carried an error marker.
    fn sphinx_error(&mut self, session_id: &str, line: &str)
        ensures
            final(self).events() == old(self).events().push(
                SinkEvent::SphinxError { session: session_id@, line: line@ },
            ),
    ;
}

/// An executable mirror of [`SinkEvent`], as a [`RecordingSink`] stores it.
pub enum RecordedEvent {
    PtyData { session: String, text: String },
    PtyExit { session: String, code: u16 },
    SphinxStarted { session: String, port: u16 },
    SphinxBuilt { session: String },
    SphinxError { session: String, line: String },
}

impl View for RecordedEvent {
    type V = SinkEvent;

    open spec fn view(&self) -> SinkEvent {
        match self {
            RecordedEvent::PtyData { session, text } => SinkEvent::PtyData {
                session: session@,
                text: text@,
            },
            RecordedEvent::PtyExit { session, code } => SinkEvent::PtyExit {
                session: session@,
                code: *code,
            },
            RecordedEvent::SphinxStarted { session, port } => SinkEvent::SphinxStarted {
                session: session@,
                port: *port,
            },
            RecordedEvent::SphinxBuilt { session } => SinkEvent::SphinxBuilt { session: session@ },
            RecordedEvent::SphinxError { session, line } => SinkEvent::SphinxError {
                session: session@,
                line: line@,
            },
        }
    }
}

/// An [`EventSink`] that stores every event in memory, oldest first.
///
/// It is the reference implementation of the sink contract and lets a test
/// observe exactly which events a supervisor emitted, in which order.
pub struct RecordingSink {
    log: Vec<RecordedEvent>,
}

impl RecordingSink {
    /// An empty log.
    pub fn new() -> (r: RecordingSink)
        ensures
            r.events() == Seq::<SinkEvent>::empty(),
    {
        let r = RecordingSink { log: Vec::new() };
        proof {
            assert(r.events() =~= Seq::<SinkEvent>::empty());
        }
        r
    }

    /// How many events have been recorded.
    pub fn len(&self) -> (r: usize)
        ensures
            r == self.events().len(),
    {
        self.log.len()
    }

    /// A reference to the `i`-th recorded event, oldest first.
    pub fn get(&self, i: usize) -> (r: &RecordedEvent)
        requires
            i < self.events().len(),
        ensures
            r@ == self.events()[i as int],
    {
        &self.log[i]
    }
}

impl EventSink for RecordingSink {
    closed spec fn events(&self) -> Seq<SinkEvent> {
        self.log@.map_values(|e: RecordedEvent| e@)
    }

    fn pty_data(&mut self, session_id: &str, text: &str) {
        self.log.push(
            RecordedEvent::PtyData { session: session_id.to_owned(), text: text.to_owned() },
        );
        proof {
            assert(final(self).events() =~= old(self).events().push(
                SinkEvent::PtyData { session: session_id@, text: text@ },
            ));
        }
    }

    fn pty_exit(&mut self, session_id: &str, code: u16) {
        self.log.push(RecordedEvent::PtyExit { session: session_id.to_owned(), code });
        proof {
            assert(final(self).events() =~= old(self).events().push(
                SinkEvent::PtyExit { session: session_id@, code },
            ));
        }
    }

    fn sphinx_started(&mut self, session_id: &str, port: u16) {
        self.log.push(RecordedEvent::SphinxStarted { session: session_id.to_owned(), port });
        proof {
            assert(final(self).events() =~= old(self).events().push(
                SinkEvent::SphinxStarted { session: session_id@, port },
            ));
        }
    }

    fn sphinx_built(&mut self, session_id: &str) {
        self.log.push(RecordedEvent::SphinxBuilt { session: session_id.to_owned() });
        proof {
            assert(final(self).events() =~= old(self).events().push(
                SinkEvent::SphinxBuilt { session: session_id@ },
            ));
        }
    }

    fn sphinx_error(&mut self, session_id: &str, line: &str) {
        self.log.push(
            RecordedEvent::SphinxError { session: session_id.to_owned(), line: line.to_owned() },
        );
        proof {
            assert(final(self).events() =~= old(self).events().push(
                SinkEvent::SphinxError { session: session_id@, line: line@ },
            ));
        }
    }
}

/// What one blocking read of a session's output stream produced.
pub enum ReadOutcome {
    /// The stream yielded these bytes.
    Data(Vec<u8>),
    /// The stream reached a clean end: the process closed its side.
    Closed,
    /// The stream failed with a read error.
    Failed,
}

/// A blocking source of output bytes: one PTY master's read side, one
/// process's diagnostic pipe, or an in-memory script of chunks.
///
/// `read_chunk` blocks until the stream yields bytes, ends, or fails;
/// nothing can be promised about which, since the data comes from outside.
pub trait ByteSource {
    fn read_chunk(&mut self) -> ReadOutcome;
}

/// A [`ByteSource`] over a fixed script of chunks, yielded in order and
/// followed by [`ReadOutcome::Closed`] (or [`ReadOutcome::Failed`] when the
/// script is marked as failing).  It simulates a session's output stream
/// for tests and embeddings that replay captured output.
pub struct ScriptedSource {
    chunks: Vec<Vec<u8>>,
    next: usize,
    fail_at_end: bool,
}

impl ScriptedSource {
    /// The whole script: every chunk the source will have yielded when it
    /// ends.
    pub closed spec fn script(&self) -> Seq<Seq<u8>> {
        self.chunks@.map_values(|v: Vec<u8>| v@)
    }

    /// The position never passes the end of the script.
    pub open spec fn wf(&self) -> bool {
        0 <= self.position() <= self.script().len()
    }

    /// How many chunks have been yielded so far.
    pub closed spec fn position(&self) -> int {
        self.next as int
    }

    /// Whether the source fails at the end of its script instead of ending
    /// cleanly.
    pub closed spec fn fails(&self) -> bool {
        self.fail_at_end
    }

    /// A source that yields `chunks` in order, then ends cleanly.
    pub fn new(chunks: Vec<Vec<u8>>) -> (r: ScriptedSource)
        ensures
            r.wf(),
            r.script() == chunks@.map_values(|v: Vec<u8>| v@),
            r.position() == 0,
            !r.fails(),
    {
        ScriptedSource { chunks, next: 0, fail_at_end: false }
    }

    /// A source that yields `chunks` in order, then fails.
    pub fn failing(chunks: Vec<Vec<u8>>) -> (r: ScriptedSource)
        ensures
            r.wf(),
            r.script() == chunks@.map_values(|v: Vec<u8>| v@),
            r.position() == 0,
            r.fails(),
    {
        ScriptedSource { chunks, next: 0, fail_at_end: true }
    }
}

impl ByteSource for ScriptedSource {
    fn read_chunk(&mut self) -> (r: ReadOutcome)
        ensures
            final(self).script() == old(self).script(),
            final(self).fails() == old(self).fails(),
            old(self).wf() ==> final(self).wf(),
            old(self).position() < old(self).script().len() ==> {
                &&& final(self).position() == old(self).position() + 1
                &&& r matches ReadOutcome::Data(b) && b@ == old(self).script()[old(
                    self,
                ).position()]
            },
            old(self).position() >= old(self).script().len() ==> {
                &&& final(self).position() == old(self).position()
                &&& if old(self).fails() {
                    r is Failed
                } else {
                    r is Closed
                }
            },
    {
        if self.next < self.chunks.len() {
            let chunk = self.chunks[self.next].clone();
            proof {
                assert(chunk@ =~= self.chunks@[self.next as int]@);
            }
            self.next = self.next + 1;
            ReadOutcome::Data(chunk)
        } else if self.fail_at_end {
            ReadOutcome::Failed
        } else {
            ReadOutcome::Closed
        }
    }
}

} // verus!
