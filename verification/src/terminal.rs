//! The PTY supervisor: spawns, feeds, resizes and kills interactive
//! pseudo-terminal shell sessions, addressed by session id.
//!
//! Each live session owns the writable input side of its PTY master, the
//! last-known terminal dimensions, and the child and master handles, which
//! are kept only so that dropping the session record tears the OS resources
//! down.  The read side belongs exclusively to the session's reader thread
//! (see [`crate::streamer`]), so reads and writes never contend.
//!
//! The OS-facing calls go through the small trusted wrappers below, each
//! relying on one function of the PTY library; everything around them —
//! registry bookkeeping, shell resolution, the idempotency policies — is
//! verified.

use vstd::prelude::*;

use crate::events::{ByteSource, ReadOutcome};
use crate::registry::Registry;

verus! {

/// Handle to the writable input side of a PTY master.  Opaque: the trait
/// object comes from the PTY library (`MasterPty::take_writer`) and cannot
/// be declared to the verifier.
#[verifier::external_body]
pub struct PtyWriter {
    inner: Box<dyn std::io::Write + Send>,
}

/// Handle to the readable output side of a PTY master.  Opaque: the trait
/// object comes from the PTY library (`MasterPty::try_clone_reader`).
#[verifier::external_body]
pub struct PtyReader {
    inner: Box<dyn std::io::Read + Send>,
}

/// Handle to a child process spawned into a PTY.  Opaque: the trait object
/// comes from the PTY library (`SlavePty::spawn_command`).  It is held only
/// to keep the process alive; dropping it releases the process.
#[verifier::external_body]
pub struct PtyChild {
    inner: Box<dyn portable_pty::Child + Send + Sync>,
}

/// Handle to the master (controller) side of a PTY.  Opaque: the trait
/// object comes from the PTY library (`PtySystem::openpty`).  It is held
/// only to keep the OS-level PTY alive; dropping it releases the PTY.
#[verifier::external_body]
pub struct PtyMaster {
    inner: Box<dyn portable_pty::MasterPty + Send>,
}

/// Handle to the slave side of a PTY, consumed when a command is spawned
/// into it.  Opaque: the trait object comes from the PTY library.
#[verifier::external_body]
pub struct PtySlave {
    inner: Box<dyn portable_pty::SlavePty + Send>,
}

/// Handle to a platform PTY system.  Opaque: the trait object comes from
/// the PTY library (`native_pty_system`).
#[verifier::external_body]
pub struct PtySystemHandle {
    inner: Box<dyn portable_pty::PtySystem + Send>,
}

/// The outside type through which the PTY library describes the command to
/// launch.
#[verifier::external_type_specification]
#[verifier::external_body]
pub struct ExCommandBuilder(portable_pty::CommandBuilder);

/// The program a command builder launches: what it was created with.
pub uninterp spec fn builder_program(cmd: portable_pty::CommandBuilder) -> Seq<char>;

/// The arguments appended to a command builder so far, in order.
pub uninterp spec fn builder_args(cmd: portable_pty::CommandBuilder) -> Seq<Seq<char>>;

/// The environment variables set on a command builder so far, in order of
/// setting.  The builder starts from the supervisor's own environment;
/// these are the explicit overrides.
pub uninterp spec fn builder_env_sets(cmd: portable_pty::CommandBuilder) -> Seq<
    (Seq<char>, Seq<char>),
>;

/// The working directory set on a command builder, when one was set.
pub uninterp spec fn builder_cwd(cmd: portable_pty::CommandBuilder) -> Option<Seq<char>>;

/// The row count a PTY slave's pair was opened with.
pub uninterp spec fn slave_rows(slave: PtySlave) -> u16;

/// The column count a PTY slave's pair was opened with.
pub uninterp spec fn slave_cols(slave: PtySlave) -> u16;

/// The program a spawned child was launched with.
pub uninterp spec fn child_program(child: PtyChild) -> Seq<char>;

/// The arguments a spawned child was launched with, in order.
pub uninterp spec fn child_args(child: PtyChild) -> Seq<Seq<char>>;

/// The environment overrides a spawned child was launched with, in order
/// of setting.
pub uninterp spec fn child_env_sets(child: PtyChild) -> Seq<(Seq<char>, Seq<char>)>;

/// The working directory a spawned child was launched in, when one was
/// set; inherited otherwise.
pub uninterp spec fn child_cwd(child: PtyChild) -> Option<Seq<char>>;

/// The row count of the PTY a child was spawned into.
pub uninterp spec fn child_pty_rows(child: PtyChild) -> u16;

/// The column count of the PTY a child was spawned into.
pub uninterp spec fn child_pty_cols(child: PtyChild) -> u16;

/// Relies on portable_pty::native_pty_system: the PTY implementation of
/// the platform this runs on.
#[verifier::external_body]
fn new_pty_system() -> (r: PtySystemHandle) {
    PtySystemHandle { inner: portable_pty::native_pty_system() }
}

/// Relies on portable_pty::PtySystem::openpty: opens a fresh PTY pair with
/// the given dimensions, or reports why the OS refused one.
#[verifier::external_body]
fn open_pty(system: &PtySystemHandle, rows: u16, cols: u16) -> (r: Result<
    (PtyMaster, PtySlave),
    String,
>)
    ensures
        r matches Ok(pair) ==> slave_rows(pair.1) == rows && slave_cols(pair.1) == cols,
{
    let size = portable_pty::PtySize { rows, cols, pixel_width: 0, pixel_height: 0 };
    match system.inner.openpty(size) {
        Ok(pair) => Ok((PtyMaster { inner: pair.master }, PtySlave { inner: pair.slave })),
        Err(e) => Err(format!("Failed to open pty: {}", e)),
    }
}

/// Relies on portable_pty::CommandBuilder::new: a command that launches
/// `program`, with no arguments, environment overrides or working
/// directory yet.
#[verifier::external_body]
fn command_new(program: &str) -> (r: portable_pty::CommandBuilder)
    ensures
        builder_program(r) == program@,
        builder_args(r) == Seq::<Seq<char>>::empty(),
        builder_env_sets(r) == Seq::<(Seq<char>, Seq<char>)>::empty(),
        builder_cwd(r) is None,
{
    portable_pty::CommandBuilder::new(program)
}

/// Relies on portable_pty::CommandBuilder::arg: appends one argument.
#[verifier::external_body]
fn command_arg(cmd: &mut portable_pty::CommandBuilder, arg: &str)
    ensures
        builder_program(*final(cmd)) == builder_program(*old(cmd)),
        builder_args(*final(cmd)) == builder_args(*old(cmd)).push(arg@),
        builder_env_sets(*final(cmd)) == builder_env_sets(*old(cmd)),
        builder_cwd(*final(cmd)) == builder_cwd(*old(cmd)),
{
    cmd.arg(arg);
}

/// Relies on portable_pty::CommandBuilder::env: sets one environment
/// variable for the command.
#[verifier::external_body]
fn command_env(cmd: &mut portable_pty::CommandBuilder, key: &str, value: &str)
    ensures
        builder_program(*final(cmd)) == builder_program(*old(cmd)),
        builder_args(*final(cmd)) == builder_args(*old(cmd)),
        builder_env_sets(*final(cmd)) == builder_env_sets(*old(cmd)).push((key@, value@)),
        builder_cwd(*final(cmd)) == builder_cwd(*old(cmd)),
{
    cmd.env(key, value);
}

/// Relies on portable_pty::CommandBuilder::cwd: sets the working directory
/// of the command.
#[verifier::external_body]
fn command_cwd(cmd: &mut portable_pty::CommandBuilder, dir: &str)
    ensures
        builder_program(*final(cmd)) == builder_program(*old(cmd)),
        builder_args(*final(cmd)) == builder_args(*old(cmd)),
        builder_env_sets(*final(cmd)) == builder_env_sets(*old(cmd)),
        builder_cwd(*final(cmd)) == Some(dir@),
{
    cmd.cwd(dir);
}

/// Relies on portable_pty::SlavePty::spawn_command: launches the command
/// inside the PTY — the returned child handle stands for a process
/// launched with exactly the builder's program, arguments, environment
/// overrides and working directory, in a PTY of the slave's size.  The
/// slave side is consumed and dropped here, whether or not the launch
/// succeeded: holding it open would keep the master's read side from ever
/// reporting end of stream.
#[verifier::external_body]
fn spawn_in_pty(slave: PtySlave, cmd: portable_pty::CommandBuilder) -> (r: Result<
    PtyChild,
    String,
>)
    ensures
        r matches Ok(child) ==> {
            &&& child_program(child) == builder_program(cmd)
            &&& child_args(child) == builder_args(cmd)
            &&& child_env_sets(child) == builder_env_sets(cmd)
            &&& child_cwd(child) == builder_cwd(cmd)
            &&& child_pty_rows(child) == slave_rows(slave)
            &&& child_pty_cols(child) == slave_cols(slave)
        },
{
    match slave.inner.spawn_command(cmd) {
        Ok(child) => Ok(PtyChild { inner: child }),
        Err(e) => Err(format!("Failed to spawn command: {}", e)),
    }
}

/// Relies on portable_pty::MasterPty::try_clone_reader: a readable handle
/// on the session's output.
#[verifier::external_body]
fn clone_output_reader(master: &PtyMaster) -> (r: Result<PtyReader, String>) {
    match master.inner.try_clone_reader() {
        Ok(reader) => Ok(PtyReader { inner: reader }),
        Err(e) => Err(format!("Failed to clone reader: {}", e)),
    }
}

/// Relies on portable_pty::MasterPty::take_writer: the writable handle on
/// the session's input.  The library allows taking it only once per
/// master; the supervisor takes it exactly once, right after opening.
#[verifier::external_body]
fn take_input_writer(master: &PtyMaster) -> (r: Result<PtyWriter, String>) {
    match master.inner.take_writer() {
        Ok(writer) => Ok(PtyWriter { inner: writer }),
        Err(e) => Err(format!("Failed to take writer: {}", e)),
    }
}

/// Relies on std::io::Write::write_all: on success the whole buffer was
/// handed to the PTY, in order; on failure some prefix may have been.
#[verifier::external_body]
fn writer_write_all(writer: &mut PtyWriter, data: &[u8]) -> (r: Result<(), String>) {
    match writer.inner.write_all(data) {
        Ok(()) => Ok(()),
        Err(e) => Err(format!("Failed to write: {}", e)),
    }
}

/// Relies on std::io::Write::flush: pushes buffered input bytes down to
/// the PTY at once (latency over throughput: this path carries
/// keystrokes).
#[verifier::external_body]
fn writer_flush(writer: &mut PtyWriter) -> (r: Result<(), String>) {
    match writer.inner.flush() {
        Ok(()) => Ok(()),
        Err(e) => Err(format!("Failed to flush: {}", e)),
    }
}

/// Relies on std::io::Read::read: blocks for the next bytes of the
/// session's output.  `Ok` with an empty chunk is the end of the stream.
#[verifier::external_body]
fn pty_read_chunk(reader: &mut PtyReader) -> (r: Result<Vec<u8>, String>)
    ensures
        r matches Ok(bytes) ==> bytes@.len() <= 4096,
{
    let mut buffer = [0u8; 4096];
    match reader.inner.read(&mut buffer) {
        Ok(n) => Ok(buffer[..n].to_vec()),
        Err(e) => Err(format!("{}", e)),
    }
}

impl ByteSource for PtyReader {
    /// One blocking read of the PTY output: a clean end of stream is an
    /// empty read, anything else with no bytes is a failure.
    fn read_chunk(&mut self) -> ReadOutcome {
        match pty_read_chunk(self) {
            Ok(bytes) => {
                if bytes.len() == 0 {
                    ReadOutcome::Closed
                } else {
                    ReadOutcome::Data(bytes)
                }
            },
            Err(_) => ReadOutcome::Failed,
        }
    }
}

/// The shell that a new session launches, by priority: an explicit
/// configuration value, else the environment's default shell, else a fixed
/// fallback path.
pub open spec fn spec_detect_shell(config_shell: Option<String>, env_shell: Option<String>) -> Seq<
    char,
> {
    match config_shell {
        Some(s) => s@,
        None => match env_shell {
            Some(e) => e@,
            None => "/bin/sh"@,
        },
    }
}

/// Resolves the shell to launch: the configured shell wins, then the value
/// of the environment's default-shell variable (which the embedding reads
/// and passes in), then `/bin/sh`.
pub fn detect_shell(config_shell: Option<String>, env_shell: Option<String>) -> (r: String)
    ensures
        r@ == spec_detect_shell(config_shell, env_shell),
{
    match config_shell {
        Some(s) => s,
        None => match env_shell {
            Some(e) => e,
            None => String::from_str("/bin/sh"),
        },
    }
}

/// The error text for an operation on an unknown session id.
pub open spec fn session_not_found_msg(session: Seq<char>) -> Seq<char> {
    "Session not found: "@ + session
}

fn session_not_found(session_id: &str) -> (r: String)
    ensures
        r@ == session_not_found_msg(session_id@),
{
    let prefix = String::from_str("Session not found: ");
    prefix.concat(session_id)
}

/// One live pseudo-terminal session: the writable input side, the cached
/// dimensions, and the child and master handles held as lifetime anchors —
/// they are never used after setup, only dropped on removal, which tears
/// the OS resources down.
pub struct PtySession {
    writer: PtyWriter,
    rows: u16,
    cols: u16,
    written: Ghost<Seq<u8>>,
    child: PtyChild,
    master: PtyMaster,
}

/// What a session looks like in the supervisor's model: its cached
/// dimensions, the bytes its writer has accepted (only fully acknowledged
/// writes — written and flushed — are counted), and the launch record of
/// its child: the program, arguments, environment overrides, working
/// directory and PTY size it was spawned with.
pub ghost struct PtySessionView {
    /// Cached row count, the one [`TerminalManager::resize`] updates.
    pub rows: u16,
    /// Cached column count.
    pub cols: u16,
    /// Bytes the session's writer has acknowledged, oldest first.
    pub written: Seq<u8>,
    /// The program the session's child was launched with.
    pub program: Seq<char>,
    /// The arguments it was launched with, in order.
    pub args: Seq<Seq<char>>,
    /// The environment overrides it was launched with, in order of setting.
    pub env_sets: Seq<(Seq<char>, Seq<char>)>,
    /// Its working directory, when one was given; inherited otherwise.
    pub cwd: Option<Seq<char>>,
    /// The row count of the OS-level PTY, fixed at spawn.
    pub pty_rows: u16,
    /// The column count of the OS-level PTY, fixed at spawn.
    pub pty_cols: u16,
}

impl View for PtySession {
    type V = PtySessionView;

    closed spec fn view(&self) -> PtySessionView {
        PtySessionView {
            rows: self.rows,
            cols: self.cols,
            written: self.written@,
            program: child_program(self.child),
            args: child_args(self.child),
            env_sets: child_env_sets(self.child),
            cwd: child_cwd(self.child),
            pty_rows: child_pty_rows(self.child),
            pty_cols: child_pty_cols(self.child),
        }
    }
}

/// The PTY supervisor: a registry of live sessions keyed by session id.
/// Its model is a map from session id to [`PtySessionView`]; exactly one
/// session exists per live id.
pub struct TerminalManager {
    sessions: Registry<PtySession>,
}

impl View for TerminalManager {
    type V = Map<Seq<char>, PtySessionView>;

    closed spec fn view(&self) -> Map<Seq<char>, PtySessionView> {
        Map::new(
            |k: Seq<char>| self.sessions@.dom().contains(k),
            |k: Seq<char>| self.sessions@[k]@,
        )
    }
}

impl TerminalManager {
    /// Well-formedness, established by [`TerminalManager::new`] and
    /// preserved by every operation.
    pub closed spec fn wf(&self) -> bool {
        self.sessions.wf()
    }

    /// A supervisor with no sessions.
    pub fn new() -> (r: TerminalManager)
        ensures
            r.wf(),
            r@ == Map::<Seq<char>, PtySessionView>::empty(),
    {
        let r = TerminalManager { sessions: Registry::new() };
        proof {
            assert(r@ =~= Map::<Seq<char>, PtySessionView>::empty());
        }
        r
    }

    /// Whether a session is live under `session_id`.
    pub fn has_session(&self, session_id: &str) -> (r: bool)
        ensures
            r == self@.dom().contains(session_id@),
    {
        self.sessions.contains_key(session_id)
    }

    /// Spawns a new PTY session under `session_id`: opens a PTY pair sized
    /// to (`rows`, `cols`), launches the resolved shell as a login shell in
    /// `cwd` (the inherited working directory when `None`) with the
    /// environment claiming a full-color terminal, registers the session,
    /// and hands back the read side for the caller to drain on the
    /// session's dedicated thread (see [`crate::streamer`]).
    ///
    /// Idempotency policy: a spawn for an id that is already live is a
    /// no-op success returning no reader — a duplicate create request for
    /// the same logical terminal tolerated, never a second process.  On any
    /// failure nothing is registered.
    ///
    /// The registered session's launch record pins the boundary: the
    /// resolved shell as the program, the single login-shell argument, the
    /// full-color environment overrides in order, the given working
    /// directory, and a PTY of exactly (`rows`, `cols`).
    pub fn spawn(
        &mut self,
        session_id: String,
        cwd: Option<String>,
        shell: Option<String>,
        env_shell: Option<String>,
        cols: u16,
        rows: u16,
    ) -> (r: Result<Option<PtyReader>, String>)
        requires
            old(self).wf(),
        ensures
            final(self).wf(),
            old(self)@.dom().contains(session_id@) ==> final(self)@ == old(self)@ && (r matches Ok(
                reader,
            ) && reader is None),
            !old(self)@.dom().contains(session_id@) ==> match r {
                Ok(reader) => reader is Some && final(self)@ == old(self)@.insert(
                    session_id@,
                    PtySessionView {
                        rows,
                        cols,
                        written: Seq::<u8>::empty(),
                        program: spec_detect_shell(shell, env_shell),
                        args: seq!["-l"@],
                        env_sets: seq![
                            ("TERM"@, "xterm-256color"@),
                            ("COLORTERM"@, "truecolor"@),
                            ("SHELL"@, spec_detect_shell(shell, env_shell)),
                        ],
                        cwd: match cwd {
                            Some(dir) => Some(dir@),
                            None => None,
                        },
                        pty_rows: rows,
                        pty_cols: cols,
                    },
                ),
                Err(_) => final(self)@ == old(self)@,
            },
    {
        if self.sessions.contains_key(session_id.as_str()) {
            return Ok(None);
        }
        let shell_path = detect_shell(shell, env_shell);
        let system = new_pty_system();
        let (master, slave) = match open_pty(&system, rows, cols) {
            Ok(pair) => pair,
            Err(e) => {
                return Err(e);
            },
        };
        let mut cmd = command_new(shell_path.as_str());
        command_arg(&mut cmd, "-l");
        match &cwd {
            Some(dir) => command_cwd(&mut cmd, dir.as_str()),
            None => {},
        }
        command_env(&mut cmd, "TERM", "xterm-256color");
        command_env(&mut cmd, "COLORTERM", "truecolor");
        command_env(&mut cmd, "SHELL", shell_path.as_str());
        let child = match spawn_in_pty(slave, cmd) {
            Ok(c) => c,
            Err(e) => {
                return Err(e);
            },
        };
        let reader = match clone_output_reader(&master) {
            Ok(x) => x,
            Err(e) => {
                return Err(e);
            },
        };
        let writer = match take_input_writer(&master) {
            Ok(x) => x,
            Err(e) => {
                return Err(e);
            },
        };
        let session = PtySession { writer, rows, cols, written: Ghost(Seq::empty()), child, master };
        let ghost key = session_id@;
        proof {
            assert(child_args(session.child) =~= seq!["-l"@]);
            assert(child_env_sets(session.child) =~= seq![
                ("TERM"@, "xterm-256color"@),
                ("COLORTERM"@, "truecolor"@),
                ("SHELL"@, spec_detect_shell(shell, env_shell)),
            ]);
        }
        self.sessions.insert(session_id, session);
        proof {
            assert(self@ =~= old(self)@.insert(
                key,
                PtySessionView {
                    rows,
                    cols,
                    written: Seq::<u8>::empty(),
                    program: spec_detect_shell(shell, env_shell),
                    args: seq!["-l"@],
                    env_sets: seq![
                        ("TERM"@, "xterm-256color"@),
                        ("COLORTERM"@, "truecolor"@),
                        ("SHELL"@, spec_detect_shell(shell, env_shell)),
                    ],
                    cwd: match cwd {
                        Some(dir) => Some(dir@),
                        None => None,
                    },
                    pty_rows: rows,
                    pty_cols: cols,
                },
            ));
        }
        Ok(Some(reader))
    }

    /// Writes `data` to the session's PTY input and flushes at once: no
    /// internal buffering, since this path carries interactive keystrokes.
    /// Fails with session-not-found for an id that is not live; on success
    /// the session's acknowledged byte log grows by exactly `data`, in
    /// order.
    pub fn write(&mut self, session_id: &str, data: &[u8]) -> (r: Result<(), String>)
        requires
            old(self).wf(),
        ensures
            final(self).wf(),
            !old(self)@.dom().contains(session_id@) ==> final(self)@ == old(self)@ && (r matches
            Err(e) && e@ == session_not_found_msg(session_id@)),
            old(self)@.dom().contains(session_id@) ==> match r {
                Ok(_) => final(self)@ == old(self)@.insert(
                    session_id@,
                    PtySessionView {
                        written: old(self)@[session_id@].written + data@,
                        ..old(self)@[session_id@]
                    },
                ),
                Err(_) => final(self)@ == old(self)@,
            },
    {
        let found = self.sessions.remove(session_id);
        match found {
            None => Err(session_not_found(session_id)),
            Some(mut session) => {
                let ghost key = session_id@;
                let ghost session0 = session;
                let write_result = writer_write_all(&mut session.writer, data);
                match write_result {
                    Ok(_) => {
                        let flush_result = writer_flush(&mut session.writer);
                        match flush_result {
                            Ok(_) => {
                                proof {
                                    session.written@ = session.written@ + data@;
                                }
                                self.sessions.insert(session_id.to_owned(), session);
                                proof {
                                    assert(self@ =~= old(self)@.insert(
                                        key,
                                        PtySessionView {
                                            written: old(self)@[key].written + data@,
                                            ..old(self)@[key]
                                        },
                                    ));
                                }
                                Ok(())
                            },
                            Err(e) => {
                                self.sessions.insert(session_id.to_owned(), session);
                                proof {
                                    assert(self@ =~= old(self)@);
                                }
                                Err(e)
                            },
                        }
                    },
                    Err(e) => {
                        self.sessions.insert(session_id.to_owned(), session);
                        proof {
                            assert(self@ =~= old(self)@);
                        }
                        Err(e)
                    },
                }
            },
        }
    }

    /// Updates the session's cached dimensions.  Fails with
    /// session-not-found for an id that is not live.
    ///
    /// Deliberate limitation, carried as designed: only the cached value
    /// changes — the OS-level PTY is not renegotiated, so a running
    /// full-screen program receives no resize signal.  The model shows it:
    /// `rows` and `cols` change, `pty_rows` and `pty_cols` stay what the
    /// session was spawned with.
    pub fn resize(&mut self, session_id: &str, cols: u16, rows: u16) -> (r: Result<(), String>)
        requires
            old(self).wf(),
        ensures
            final(self).wf(),
            !old(self)@.dom().contains(session_id@) ==> final(self)@ == old(self)@ && (r matches
            Err(e) && e@ == session_not_found_msg(session_id@)),
            old(self)@.dom().contains(session_id@) ==> r is Ok && final(self)@ == old(
                self,
            )@.insert(
                session_id@,
                PtySessionView { rows, cols, ..old(self)@[session_id@] },
            ),
    {
        let found = self.sessions.remove(session_id);
        match found {
            None => Err(session_not_found(session_id)),
            Some(session) => {
                let ghost key = session_id@;
                let PtySession { writer, rows: _, cols: _, written, child, master } = session;
                let resized = PtySession { writer, rows, cols, written, child, master };
                self.sessions.insert(session_id.to_owned(), resized);
                proof {
                    assert(self@ =~= old(self)@.insert(
                        key,
                        PtySessionView { rows, cols, ..old(self)@[key] },
                    ));
                }
                Ok(())
            },
        }
    }

    /// Removes the session and drops its handles, which terminates the
    /// child process and releases the PTY.  Not idempotent by design:
    /// killing an id that is not live fails with session-not-found, also
    /// right after a successful kill of the same id.
    pub fn kill(&mut self, session_id: &str) -> (r: Result<(), String>)
        requires
            old(self).wf(),
        ensures
            final(self).wf(),
            final(self)@ == old(self)@.remove(session_id@),
            r is Ok <==> old(self)@.dom().contains(session_id@),
            r matches Err(e) ==> e@ == session_not_found_msg(session_id@),
    {
        let found = self.sessions.remove(session_id);
        proof {
            assert(self@ =~= old(self)@.remove(session_id@));
        }
        match found {
            None => Err(session_not_found(session_id)),
            Some(_session) => Ok(()),
        }
    }
}

impl TerminalManager {
    /// The teardown hook: removes every remaining session, dropping its
    /// handles, which terminates the children and releases the PTYs.  The
    /// embedding calls it when it shuts down.
    pub fn shutdown(&mut self)
        requires
            old(self).wf(),
        ensures
            final(self).wf(),
            final(self)@ == Map::<Seq<char>, PtySessionView>::empty(),
    {
        let _all = self.sessions.drain();
        proof {
            assert(self@ =~= Map::<Seq<char>, PtySessionView>::empty());
        }
    }
}

impl Default for TerminalManager {
    /// The same empty supervisor as [`TerminalManager::new`].
    fn default() -> (r: TerminalManager)
        ensures
            r.wf(),
            r@ == Map::<Seq<char>, PtySessionView>::empty(),
    {
        TerminalManager::new()
    }
}

} // verus!
