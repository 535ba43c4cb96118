use orthrus::events::{ByteSource, ReadOutcome};
use orthrus::terminal::{detect_shell, TerminalManager};

#[test]
fn test_terminal_manager_creation() {
    let manager = TerminalManager::new();
    assert!(!manager.has_session("any"));
}

#[test]
fn test_write_to_nonexistent_session() {
    let mut manager = TerminalManager::new();
    let result = manager.write("nonexistent", b"test");
    assert!(result.is_err());
    assert!(result.unwrap_err().contains("Session not found"));
}

#[test]
fn test_resize_nonexistent_session() {
    let mut manager = TerminalManager::new();
    let result = manager.resize("nonexistent", 80, 24);
    assert!(result.is_err());
}

#[test]
fn test_kill_nonexistent_session() {
    let mut manager = TerminalManager::new();
    let result = manager.kill("nonexistent");
    assert!(result.is_err());
}

#[test]
fn test_detect_shell_with_config() {
    let shell = detect_shell(Some("/opt/homebrew/bin/fish".to_string()), None);
    assert_eq!(shell, "/opt/homebrew/bin/fish");
}

#[test]
fn test_detect_shell_from_env() {
    let shell = detect_shell(None, Some("/usr/local/bin/zsh".to_string()));
    assert_eq!(shell, "/usr/local/bin/zsh");
}

#[test]
fn test_detect_shell_fallback() {
    let shell = detect_shell(None, None);
    assert_eq!(shell, "/bin/sh");
}

#[test]
fn config_shell_wins_over_environment() {
    let shell = detect_shell(Some("/bin/bash".to_string()), Some("/bin/zsh".to_string()));
    assert_eq!(shell, "/bin/bash");
}

#[test]
fn spawn_is_idempotent_and_kill_is_not() {
    let mut manager = TerminalManager::new();
    let spawned = manager.spawn(
        "term-1".to_string(),
        None,
        Some("/bin/sh".to_string()),
        None,
        80,
        24,
    );
    let reader = match spawned {
        // The host may refuse PTYs altogether; nothing to observe then.
        Err(_) => return,
        Ok(r) => r,
    };
    assert!(reader.is_some(), "a fresh spawn must hand back the read side");
    assert!(manager.has_session("term-1"));

    // A duplicate spawn for the same id is a no-op success with no reader.
    let again = manager.spawn(
        "term-1".to_string(),
        None,
        Some("/bin/sh".to_string()),
        None,
        80,
        24,
    );
    assert!(matches!(again, Ok(None)));
    assert!(manager.has_session("term-1"));

    // Live sessions accept writes and resizes.
    assert!(manager.resize("term-1", 100, 30).is_ok());
    assert!(manager.write("term-1", b"exit\n").is_ok());

    // The first kill removes the session; the second is an error.
    assert!(manager.kill("term-1").is_ok());
    assert!(!manager.has_session("term-1"));
    assert!(manager.kill("term-1").is_err());
    assert!(manager.write("term-1", b"x").is_err());
    assert!(manager.resize("term-1", 80, 24).is_err());
}

#[test]
fn shutdown_removes_every_session() {
    let mut manager = TerminalManager::new();
    let spawned = manager.spawn(
        "term-1".to_string(),
        None,
        Some("/bin/sh".to_string()),
        None,
        80,
        24,
    );
    if spawned.is_err() {
        // The host may refuse PTYs altogether; nothing to observe then.
        return;
    }
    assert!(manager.has_session("term-1"));
    manager.shutdown();
    assert!(!manager.has_session("term-1"));
}

#[test]
fn pty_roundtrip_echoes_written_bytes() {
    let mut manager = TerminalManager::new();
    let spawned = manager.spawn(
        "echo-1".to_string(),
        None,
        Some("/bin/sh".to_string()),
        None,
        80,
        24,
    );
    let mut reader = match spawned {
        // The host may refuse PTYs altogether; nothing to observe then.
        Err(_) => return,
        Ok(None) => panic!("fresh spawn must hand back the read side"),
        Ok(Some(r)) => r,
    };
    manager.write("echo-1", b"printf 'rt_%s_mark\\n' found\n").unwrap();
    let mut collected = String::new();
    let mut found = false;
    for _ in 0..200 {
        match reader.read_chunk() {
            ReadOutcome::Data(bytes) => {
                collected.push_str(&String::from_utf8_lossy(&bytes));
                if collected.contains("rt_found_mark") {
                    found = true;
                    break;
                }
            }
            ReadOutcome::Closed | ReadOutcome::Failed => break,
        }
    }
    assert!(found, "the written command's output must come back through the PTY");
    manager.kill("echo-1").unwrap();
}
