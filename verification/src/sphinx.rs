//! The build supervisor: starts, stops and reports the port of the
//! watch-and-rebuild documentation process, one per session id.
//!
//! The supervisor decides everything — replacement policy, port
//! resolution, path joining, the exact command line — and delegates the
//! OS work to three small traits the embedding implements: a
//! [`PortAllocator`] that binds an ephemeral port, a [`ProcessLauncher`]
//! that spawns the watch process and captures its diagnostic stream, and
//! the [`ChildProcess`] handle that can terminate it.  The diagnostic
//! stream itself is classified line by line (see [`crate::monitor`]) on
//! the session's dedicated thread.  Ghost records pin the boundary down:
//! the launcher logs every command line it receives, every child handle
//! logs its termination attempts, and the supervisor's
//! [`SphinxManager::reaped`] log shows that each removed session's process
//! was in fact asked to terminate.

use vstd::prelude::*;

use crate::events::{EventSink, ScriptedSource, SinkEvent};
use crate::registry::Registry;
use crate::text::{dec_chars, join_path, spec_join_path, u16_to_decimal};

verus! {

/// A handle that can forcibly terminate a supervised OS process.  The
/// embedding implements it over its real child handles; [`NullChild`] is
/// the in-memory stand-in.  Whether a termination succeeds is the OS's
/// decision; the ghost `kill_history` records every attempt and its
/// outcome, which is how the supervisor's contracts pin down that a
/// removed session's process was in fact asked to terminate.
pub trait ChildProcess {
    /// The outcome of every termination attempt this handle has received,
    /// oldest first; `true` means the OS confirmed the termination.  The
    /// default stands for a handle that keeps no ghost record, so that the
    /// embedding program can implement the trait outside the verifier; the
    /// handles of this crate override it, and what is proved through this
    /// trait is proved of them.
    open spec fn kill_history(&self) -> Seq<bool> {
        Seq::<bool>::empty()
    }

    /// Forcibly terminates the underlying OS process.  Exactly one attempt
    /// is recorded, successful or not.
    fn kill(&mut self) -> (r: Result<(), String>)
        ensures
            final(self).kill_history() == old(self).kill_history().push(r is Ok),
    ;
}

/// A child handle with no OS process behind it: terminating it always
/// succeeds.  It drives the supervisor in tests and in embeddings that
/// replay captured diagnostics.
pub struct NullChild {
    history: Ghost<Seq<bool>>,
}

impl NullChild {
    /// A fresh handle: no termination attempts yet.
    pub fn new() -> (r: NullChild)
        ensures
            r.kill_history() == Seq::<bool>::empty(),
    {
        NullChild { history: Ghost(Seq::empty()) }
    }
}

impl ChildProcess for NullChild {
    closed spec fn kill_history(&self) -> Seq<bool> {
        self.history@
    }

    fn kill(&mut self) -> (r: Result<(), String>) {
        proof {
            self.history@ = self.history@.push(true);
        }
        Ok(())
    }
}

/// Finds unused ephemeral ports for watch processes whose caller did not
/// pin one.  An allocator never hands out port 0 and never repeats a port
/// it granted before, so two automatically resolved sessions cannot
/// collide.
pub trait PortAllocator {
    /// Every port handed out so far.  The default stands for an allocator
    /// that keeps no ghost record, so that the embedding program can
    /// implement the trait outside the verifier; the allocators of this
    /// crate override it, and what is proved through this trait is proved
    /// of them.
    open spec fn granted(&self) -> Set<u16> {
        Set::<u16>::empty()
    }

    /// Finds an unused ephemeral port: never 0, never one this allocator
    /// granted before.
    fn find_available_port(&mut self) -> (r: Result<u16, String>)
        ensures
            r matches Ok(p) ==> p != 0 && !old(self).granted().contains(p) && final(self).granted() == old(self).granted().insert(p),
            r is Err ==> final(self).granted() == old(self).granted(),
    ;
}

/// The first port of the dynamic (ephemeral) range.
pub const EPHEMERAL_FIRST: u16 = 49152;

/// A [`PortAllocator`] that walks the ephemeral range in order.  It is the
/// reference implementation of the allocator contract, for embeddings and
/// tests that must not touch the network; the highest port of the range is
/// never handed out, marking exhaustion instead.
pub struct EphemeralPortCounter {
    next: u16,
}

impl EphemeralPortCounter {
    /// A counter at the start of the ephemeral range, nothing granted.
    pub fn new() -> (r: EphemeralPortCounter)
        ensures
            r.granted() == Set::<u16>::empty(),
    {
        let r = EphemeralPortCounter { next: EPHEMERAL_FIRST };
        proof {
            assert(r.granted() =~= Set::<u16>::empty());
        }
        r
    }
}

impl PortAllocator for EphemeralPortCounter {
    closed spec fn granted(&self) -> Set<u16> {
        Set::new(|p: u16| EPHEMERAL_FIRST <= p < self.next)
    }

    fn find_available_port(&mut self) -> (r: Result<u16, String>) {
        if self.next < EPHEMERAL_FIRST {
            self.next = EPHEMERAL_FIRST;
            proof {
                assert(self.granted() =~= old(self).granted());
            }
        }
        if self.next == u16::MAX {
            Err(String::from_str("ephemeral port range exhausted"))
        } else {
            let port = self.next;
            self.next = self.next + 1;
            proof {
                assert(self.granted() =~= old(self).granted().insert(port));
            }
            Ok(port)
        }
    }
}

/// Everything the embedding needs to launch a watch process: the program,
/// its arguments in order, and the working directory.
pub struct LaunchPlan {
    pub program: String,
    pub args: Vec<String>,
    pub cwd: String,
}

/// A [`LaunchPlan`] as it appears in a launcher's ghost log.
pub ghost struct LaunchPlanView {
    pub program: Seq<char>,
    pub args: Seq<Seq<char>>,
    pub cwd: Seq<char>,
}

impl View for LaunchPlan {
    type V = LaunchPlanView;

    open spec fn view(&self) -> LaunchPlanView {
        LaunchPlanView {
            program: self.program@,
            args: self.args@.map_values(|s: String| s@),
            cwd: self.cwd@,
        }
    }
}

/// Launches watch processes.  The embedding implements it over real OS
/// process spawning, handing back the child handle and the process's
/// diagnostic (standard error) stream; [`StubLauncher`] is the in-memory
/// stand-in.  Every launch attempt is recorded in the ghost `plans` log,
/// which is how the supervisor's contract pins down the exact command
/// line it runs.
pub trait ProcessLauncher<C, D> {
    /// Every launch attempted so far, oldest first.  The default stands
    /// for a launcher that keeps no ghost record, so that the embedding
    /// program can implement the trait outside the verifier; the launchers
    /// of this crate override it, and what is proved through this trait is
    /// proved of them.
    open spec fn plans(&self) -> Seq<LaunchPlanView> {
        Seq::<LaunchPlanView>::empty()
    }

    /// Launches the process described by `plan`; the attempt is recorded
    /// whether or not the OS cooperated.
    fn launch(&mut self, plan: &LaunchPlan) -> (r: Result<(C, D), String>)
        ensures
            final(self).plans() == old(self).plans().push(plan@),
    ;
}

fn clone_plan(plan: &LaunchPlan) -> (r: LaunchPlan)
    ensures
        r@ == plan@,
{
    let mut args: Vec<String> = Vec::new();
    let n: usize = plan.args.len();
    let mut i: usize = 0;
    while i < n
        invariant
            n == plan.args@.len(),
            i <= n,
            args@.len() == i,
            forall|j: int| 0 <= j < i ==> (#[trigger] args@[j])@ == plan.args@[j]@,
        decreases n - i,
    {
        args.push(plan.args[i].clone());
        i = i + 1;
    }
    let r = LaunchPlan { program: plan.program.clone(), args, cwd: plan.cwd.clone() };
    proof {
        assert(r@.args =~= plan@.args);
    }
    r
}

/// A [`ProcessLauncher`] that launches nothing: it records each plan and
/// hands back a [`NullChild`] with an empty diagnostic stream.  It is the
/// reference implementation of the launcher contract and lets a test
/// observe exactly which command lines the supervisor builds.
pub struct StubLauncher {
    log: Vec<LaunchPlan>,
}

impl StubLauncher {
    /// A launcher with an empty log.
    pub fn new() -> (r: StubLauncher)
        ensures
            r.plans() == Seq::<LaunchPlanView>::empty(),
    {
        let r = StubLauncher { log: Vec::new() };
        proof {
            assert(r.plans() =~= Seq::<LaunchPlanView>::empty());
        }
        r
    }

    /// How many launches have been recorded.
    pub fn plan_count(&self) -> (r: usize)
        ensures
            r == self.plans().len(),
    {
        self.log.len()
    }

    /// A reference to the `i`-th recorded plan, oldest first.
    pub fn get_plan(&self, i: usize) -> (r: &LaunchPlan)
        requires
            i < self.plans().len(),
        ensures
            r@ == self.plans()[i as int],
    {
        &self.log[i]
    }
}

impl ProcessLauncher<NullChild, ScriptedSource> for StubLauncher {
    closed spec fn plans(&self) -> Seq<LaunchPlanView> {
        self.log@.map_values(|p: LaunchPlan| p@)
    }

    fn launch(&mut self, plan: &LaunchPlan) -> (r: Result<(NullChild, ScriptedSource), String>) {
        self.log.push(clone_plan(plan));
        proof {
            assert(final(self).plans() =~= old(self).plans().push(plan@));
        }
        Ok((NullChild::new(), ScriptedSource::new(Vec::new())))
    }
}

/// The command line of the watch tool: module invocation, the resolved
/// source and build paths, the chosen port, loopback binding, no browser
/// auto-open, then the caller's extra arguments.
pub open spec fn spec_sphinx_args(
    source_path: Seq<char>,
    build_path: Seq<char>,
    port: u16,
    extra: Seq<Seq<char>>,
) -> Seq<Seq<char>> {
    seq![
        "-m"@,
        "sphinx_autobuild"@,
        source_path,
        build_path,
        "--port"@,
        dec_chars(port as nat),
        "--host"@,
        "127.0.0.1"@,
        "--open-browser=false"@,
    ] + extra
}

/// Builds the watch tool's argument list, exactly as
/// [`spec_sphinx_args`] lays it out.
pub fn sphinx_args(
    source_path: &str,
    build_path: &str,
    port: u16,
    extra_args: &Vec<String>,
) -> (r: Vec<String>)
    ensures
        r@.map_values(|s: String| s@) == spec_sphinx_args(
            source_path@,
            build_path@,
            port,
            extra_args@.map_values(|s: String| s@),
        ),
{
    let mut args: Vec<String> = Vec::new();
    args.push(String::from_str("-m"));
    args.push(String::from_str("sphinx_autobuild"));
    args.push(source_path.to_owned());
    args.push(build_path.to_owned());
    args.push(String::from_str("--port"));
    args.push(u16_to_decimal(port));
    args.push(String::from_str("--host"));
    args.push(String::from_str("127.0.0.1"));
    args.push(String::from_str("--open-browser=false"));
    let ghost target = spec_sphinx_args(
        source_path@,
        build_path@,
        port,
        extra_args@.map_values(|s: String| s@),
    );
    proof {
        assert(target.len() == 9 + extra_args@.len());
        assert(forall|j: int| 0 <= j < 9 ==> (#[trigger] args@[j])@ == target[j]);
    }
    let n: usize = extra_args.len();
    let mut i: usize = 0;
    while i < n
        invariant
            n == extra_args@.len(),
            i <= n,
            args@.len() == 9 + i,
            target.len() == 9 + n,
            target == spec_sphinx_args(
                source_path@,
                build_path@,
                port,
                extra_args@.map_values(|s: String| s@),
            ),
            forall|j: int| 0 <= j < args@.len() ==> (#[trigger] args@[j])@ == target[j],
        decreases n - i,
    {
        args.push(extra_args[i].clone());
        proof {
            assert((extra_args@.map_values(|s: String| s@))[i as int] == extra_args@[i as int]@);
            assert(args@[9 + i as int]@ == target[9 + i as int]);
        }
        i = i + 1;
    }
    proof {
        let lhs = args@.map_values(|s: String| s@);
        assert forall|j: int| 0 <= j < lhs.len() implies #[trigger] lhs[j] == target[j] by {
            assert(args@[j]@ == target[j]);
        }
        assert(args@.map_values(|s: String| s@) =~= target);
    }
    args
}

/// One live watch-and-rebuild session: the child handle and the resolved
/// port, immutable for the session's lifetime.
pub struct SphinxProcess<C> {
    child: C,
    port: u16,
}

impl<C> View for SphinxProcess<C> {
    type V = u16;

    closed spec fn view(&self) -> u16 {
        self.port
    }
}

/// The build supervisor: a registry of live watch sessions keyed by
/// session id.  Its model is a map from session id to the resolved port;
/// exactly one session exists per live id, and a session's port is never 0
/// and never changes while the session lives.
pub struct SphinxManager<C> {
    processes: Registry<SphinxProcess<C>>,
    retired: Ghost<Seq<(Seq<char>, C)>>,
}

impl<C> View for SphinxManager<C> {
    type V = Map<Seq<char>, u16>;

    closed spec fn view(&self) -> Map<Seq<char>, u16> {
        Map::new(
            |k: Seq<char>| self.processes@.dom().contains(k),
            |k: Seq<char>| self.processes@[k]@,
        )
    }
}

impl<C: ChildProcess> SphinxManager<C> {
    /// Well-formedness, established by [`SphinxManager::new`] and
    /// preserved by every operation.
    pub closed spec fn wf(&self) -> bool {
        self.processes.wf()
    }

    /// Ghost snapshots of every child this supervisor has asked to
    /// terminate, oldest first: the session id it was registered under and
    /// the handle right after the attempt, whose [`ChildProcess::kill_history`]
    /// shows the attempt and its outcome.  Only a real `kill` call can
    /// extend a handle's history, so a record here cannot be forged by a
    /// body that merely deregisters.
    pub closed spec fn reaped(&self) -> Seq<(Seq<char>, C)> {
        self.retired@
    }

    /// The termination history of the child registered under `k`.
    pub closed spec fn child_history(&self, k: Seq<char>) -> Seq<bool> {
        self.processes@[k].child.kill_history()
    }

    /// One ghost record in [`SphinxManager::reaped`]: the child registered
    /// under `key`, whose termination history grew from `history` by
    /// exactly one attempt.
    pub open spec fn reap_record(
        reaped: Seq<(Seq<char>, C)>,
        i: int,
        key: Seq<char>,
        history: Seq<bool>,
    ) -> bool {
        &&& 0 <= i < reaped.len()
        &&& reaped[i].0 == key
        &&& reaped[i].1.kill_history().len() == history.len() + 1
        &&& reaped[i].1.kill_history().drop_last() == history
    }

    /// A supervisor with no sessions and no terminations yet.
    pub fn new() -> (r: SphinxManager<C>)
        ensures
            r.wf(),
            r@ == Map::<Seq<char>, u16>::empty(),
            r.reaped() == Seq::<(Seq<char>, C)>::empty(),
    {
        let r = SphinxManager { processes: Registry::new(), retired: Ghost(Seq::empty()) };
        proof {
            assert(r@ =~= Map::<Seq<char>, u16>::empty());
        }
        r
    }

    /// Starts the watch process for `session_id`, stopping and replacing
    /// any session already live under that id (start is
    /// idempotent-by-replacement, unlike the PTY spawn's
    /// no-op-if-exists).  The port is the requested one as given, or a
    /// fresh ephemeral port when 0 is requested; the source and build
    /// directories are joined to the project path; the launcher receives
    /// exactly the command line of [`spec_sphinx_args`], rooted at the
    /// project path.  Announces the started session with its port and
    /// returns the port together with the diagnostic stream, for the
    /// caller to monitor on the session's dedicated thread (see
    /// [`crate::monitor`]).
    ///
    /// On any failure — stopping the predecessor, finding a port,
    /// launching — the predecessor is gone, nothing new is registered and
    /// nothing is announced.
    pub fn start<A: PortAllocator, D, L: ProcessLauncher<C, D>, S: EventSink>(
        &mut self,
        session_id: String,
        project_path: String,
        source_dir: String,
        build_dir: String,
        python_path: String,
        requested_port: u16,
        extra_args: Vec<String>,
        allocator: &mut A,
        launcher: &mut L,
        sink: &mut S,
    ) -> (r: Result<(u16, D), String>)
        requires
            old(self).wf(),
        ensures
            final(self).wf(),
            r matches Ok((port, _)) ==> {
                &&& port != 0
                &&& final(self)@ == old(self)@.insert(session_id@, port)
                &&& (requested_port != 0 ==> port == requested_port && final(allocator).granted()
                    == old(allocator).granted())
                &&& (requested_port == 0 ==> !old(allocator).granted().contains(port) && final(allocator).granted() == old(allocator).granted().insert(port))
                &&& final(sink).events() == old(sink).events().push(
                    SinkEvent::SphinxStarted { session: session_id@, port },
                )
                &&& final(launcher).plans() == old(launcher).plans().push(
                    LaunchPlanView {
                        program: python_path@,
                        args: spec_sphinx_args(
                            spec_join_path(project_path@, source_dir@),
                            spec_join_path(project_path@, build_dir@),
                            port,
                            extra_args@.map_values(|s: String| s@),
                        ),
                        cwd: project_path@,
                    },
                )
                &&& (!old(self)@.dom().contains(session_id@) ==> final(self).reaped() == old(
                    self,
                ).reaped())
                &&& (old(self)@.dom().contains(session_id@) ==> {
                    &&& final(self).reaped().len() == old(self).reaped().len() + 1
                    &&& final(self).reaped().drop_last() == old(self).reaped()
                    &&& final(self).reaped().last().0 == session_id@
                    &&& final(self).reaped().last().1.kill_history() == old(self).child_history(
                        session_id@,
                    ).push(true)
                })
            },
            r is Err ==> {
                &&& final(self)@ == old(self)@.remove(session_id@)
                &&& final(sink).events() == old(sink).events()
                &&& (!old(self)@.dom().contains(session_id@) ==> final(self).reaped() == old(
                    self,
                ).reaped())
                &&& (old(self)@.dom().contains(session_id@) ==> {
                    &&& final(self).reaped().len() == old(self).reaped().len() + 1
                    &&& final(self).reaped().drop_last() == old(self).reaped()
                    &&& final(self).reaped().last().0 == session_id@
                    &&& exists|confirmed: bool|
                        final(self).reaped().last().1.kill_history() == old(self).child_history(
                            session_id@,
                        ).push(confirmed)
                })
            },
    {
        if self.processes.contains_key(session_id.as_str()) {
            let stopped = self.stop(session_id.as_str());
            match stopped {
                Ok(_) => {},
                Err(e) => {
                    return Err(e);
                },
            }
        } else {
            proof {
                assert(self@ =~= old(self)@.remove(session_id@));
            }
        }
        let port: u16 = if requested_port == 0 {
            match allocator.find_available_port() {
                Ok(p) => p,
                Err(e) => {
                    return Err(e);
                },
            }
        } else {
            requested_port
        };
        let source_path = join_path(project_path.as_str(), source_dir.as_str());
        let build_path = join_path(project_path.as_str(), build_dir.as_str());
        let args = sphinx_args(source_path.as_str(), build_path.as_str(), port, &extra_args);
        let plan = LaunchPlan { program: python_path, args, cwd: project_path };
        let launched = launcher.launch(&plan);
        let (child, diag) = match launched {
            Ok(x) => x,
            Err(e) => {
                return Err(e);
            },
        };
        let ghost key = session_id@;
        proof {
            assert(!self@.dom().contains(key));
            assert(!self.processes@.dom().contains(key));
        }
        self.processes.insert(session_id.clone(), SphinxProcess { child, port });
        proof {
            assert(self@ =~= old(self)@.remove(key).insert(key, port));
            assert(old(self)@.remove(key).insert(key, port) =~= old(self)@.insert(key, port));
        }
        sink.sphinx_started(session_id.as_str(), port);
        Ok((port, diag))
    }

    /// Removes the session, if any, and terminates its process: the
    /// removed session's child receives exactly one termination attempt,
    /// recorded in [`SphinxManager::reaped`], and the result is exactly
    /// that attempt's outcome.  Idempotent by design: stopping an id that
    /// is not live — never started, or already stopped — is a success
    /// that terminates nothing, in deliberate contrast with the PTY kill.
    /// The session is deregistered whether or not the termination
    /// succeeded.
    pub fn stop(&mut self, session_id: &str) -> (r: Result<(), String>)
        requires
            old(self).wf(),
        ensures
            final(self).wf(),
            final(self)@ == old(self)@.remove(session_id@),
            !old(self)@.dom().contains(session_id@) ==> r is Ok && final(self).reaped() == old(
                self,
            ).reaped(),
            old(self)@.dom().contains(session_id@) ==> {
                &&& final(self).reaped().len() == old(self).reaped().len() + 1
                &&& final(self).reaped().drop_last() == old(self).reaped()
                &&& final(self).reaped().last().0 == session_id@
                &&& final(self).reaped().last().1.kill_history() == old(self).child_history(
                    session_id@,
                ).push(r is Ok)
            },
            r is Err ==> old(self)@.dom().contains(session_id@),
    {
        let found = self.processes.remove(session_id);
        proof {
            assert(self@ =~= old(self)@.remove(session_id@));
        }
        match found {
            None => Ok(()),
            Some(mut session) => {
                let outcome = session.child.kill();
                proof {
                    self.retired@ = self.retired@.push((session_id@, session.child));
                }
                outcome
            },
        }
    }

    /// The resolved port of the session, when one is live: a pure lookup
    /// that never fails.
    pub fn get_port(&self, session_id: &str) -> (r: Option<u16>)
        requires
            self.wf(),
        ensures
            self@.dom().contains(session_id@) ==> r == Some(self@[session_id@]),
            !self@.dom().contains(session_id@) ==> r is None,
    {
        match self.processes.get(session_id) {
            Some(session) => Some(session.port),
            None => None,
        }
    }

    /// Whether a session is live under `session_id`.
    pub fn is_running(&self, session_id: &str) -> (r: bool)
        ensures
            r == self@.dom().contains(session_id@),
    {
        self.processes.contains_key(session_id)
    }

    /// The teardown hook: force-stops every remaining session's process,
    /// swallowing termination failures — best-effort cleanup, never
    /// surfaced.  Every session live beforehand has a record in
    /// [`SphinxManager::reaped`] showing that its child received exactly
    /// one termination attempt.  The embedding calls it when it shuts
    /// down.
    pub fn shutdown(&mut self)
        requires
            old(self).wf(),
        ensures
            final(self).wf(),
            final(self)@ == Map::<Seq<char>, u16>::empty(),
            old(self).reaped().len() <= final(self).reaped().len(),
            final(self).reaped().take(old(self).reaped().len() as int) == old(self).reaped(),
            forall|k: Seq<char>| #[trigger]
                old(self)@.dom().contains(k) ==> exists|i: int|
                    old(self).reaped().len() <= i && Self::reap_record(
                        final(self).reaped(),
                        i,
                        k,
                        old(self).child_history(k),
                    ),
    {
        let ghost base = self.retired@;
        let mut all = self.processes.drain();
        proof {
            assert(self@ =~= Map::<Seq<char>, u16>::empty());
        }
        let ghost all0 = all@;
        proof {
            assert(all@ =~= all0.take(all@.len() as int));
            assert(self.retired@.take(base.len() as int) =~= base);
        }
        loop
            invariant
                self.processes.wf(),
                self.processes@ == Map::<Seq<char>, SphinxProcess<C>>::empty(),
                all@.len() <= all0.len(),
                all@ == all0.take(all@.len() as int),
                self.retired@.len() == base.len() + (all0.len() - all@.len()),
                self.retired@.take(base.len() as int) == base,
                forall|j: int|
                    all@.len() <= j < all0.len() ==> Self::reap_record(
                        self.retired@,
                        base.len() + (all0.len() - 1 - j),
                        (#[trigger] all0[j]).0@,
                        all0[j].1.child.kill_history(),
                    ),
            ensures
                all@.len() == 0,
            decreases all@.len(),
        {
            let ghost len_before = all@.len() as int;
            match all.pop() {
                Some(mut pair) => {
                    let ghost j = len_before - 1;
                    proof {
                        assert(0 <= j < all0.len());
                        assert(all0.take(len_before)[j] == all0[j]);
                        assert(pair == all0[j]);
                        assert(all@ =~= all0.take(j));
                    }
                    let _outcome = pair.1.child.kill();
                    proof {
                        self.retired@ = self.retired@.push((pair.0@, pair.1.child));
                        assert(self.retired@.take(base.len() as int) =~= base);
                        assert(pair.1.child.kill_history().drop_last() =~= all0[
                            j
                        ].1.child.kill_history());
                        assert(Self::reap_record(
                            self.retired@,
                            base.len() + (all0.len() - 1 - j),
                            all0[j].0@,
                            all0[j].1.child.kill_history(),
                        ));
                        assert forall|j2: int|
                            all@.len() <= j2 < all0.len() implies Self::reap_record(
                            self.retired@,
                            base.len() + (all0.len() - 1 - j2),
                            (#[trigger] all0[j2]).0@,
                            all0[j2].1.child.kill_history(),
                        ) by {
                            if j2 != j {
                                assert(self.retired@[base.len() + (all0.len() - 1 - j2)]
                                    == self.retired@.drop_last()[base.len() + (all0.len() - 1
                                    - j2)]);
                            }
                        }
                    }
                },
                None => {
                    break ;
                },
            }
        }
        proof {
            assert forall|k: Seq<char>| #[trigger]
                old(self)@.dom().contains(k) implies exists|i: int|
                old(self).reaped().len() <= i && Self::reap_record(
                    self.reaped(),
                    i,
                    k,
                    old(self).child_history(k),
                ) by {
                let j = choose|j: int| 0 <= j < all0.len() && (#[trigger] all0[j]).0@ == k;
                assert(old(self).processes@.contains_pair(all0[j].0@, all0[j].1));
                assert(all0[j].1 == old(self).processes@[k]);
                assert(old(self).child_history(k) == all0[j].1.child.kill_history());
                assert(old(self).reaped().len() <= base.len() + (all0.len() - 1 - j)
                    && Self::reap_record(
                    self.reaped(),
                    base.len() + (all0.len() - 1 - j),
                    k,
                    old(self).child_history(k),
                ));
            }
        }
    }
}

/// Law: two successful automatic port resolutions never return the same
/// port — the first port joins the allocator's granted set, and the
/// second is drawn outside it.
pub proof fn lemma_distinct_auto_ports(
    granted0: Set<u16>,
    port1: u16,
    granted1: Set<u16>,
    port2: u16,
)
    requires
        !granted0.contains(port1),
        granted1 == granted0.insert(port1),
        !granted1.contains(port2),
    ensures
        port1 != port2,
{
}

} // verus!
