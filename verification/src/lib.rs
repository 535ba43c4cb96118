//! A session-keyed process supervisor.
//!
//! The crate supervises two families of child processes, each addressed by an
//! opaque caller-chosen session id rather than an OS handle:
//!
//! - interactive pseudo-terminal (PTY) shells, which exchange raw byte
//!   streams bidirectionally ([`terminal::TerminalManager`]);
//! - a long-running watch-and-rebuild documentation process that is
//!   controlled (start/stop) and monitored through its diagnostic stream
//!   ([`sphinx::SphinxManager`]).
//!
//! Both supervisors share one structural pattern: a registry mapping session
//! ids to session records ([`registry::Registry`]), one background reader per
//! live session, and events pushed to an externally supplied sink
//! ([`events::EventSink`]).
//!
//! Everything that blocks or touches the OS directly (threads, the
//! environment, process spawning, port binding) is left to the embedding
//! program, which hands the results in as plain values or through the small
//! traits this crate declares.
//!
//! Four idempotency policies, deliberately independent of one another:
//!
//! | operation   | id already live      | id not live            |
//! |-------------|----------------------|------------------------|
//! | PTY spawn   | no-op success        | spawns                 |
//! | PTY kill    | removes              | session-not-found      |
//! | build start | stops, then replaces | starts                 |
//! | build stop  | removes              | success                |

pub mod config;
pub mod events;
pub mod monitor;
pub mod registry;
pub mod sphinx;
pub mod streamer;
pub mod terminal;
pub mod text;
