use orthrus::config::{
    default_auto_start_sphinx, default_build_dir, default_editor, default_interpreter,
    default_source_dir, Config, ConfigOverride, DevConfig, ServerConfigOverride,
    SphinxConfigOverride, TerminalConfig, TerminalConfigOverride,
};

#[test]
fn test_default_config() {
    let config = Config::default();
    assert_eq!(config.sphinx.source_dir, "docs");
    assert_eq!(config.sphinx.build_dir, "_build/html");
    assert_eq!(config.sphinx.server.port, 0);
    assert_eq!(config.python.interpreter, "python");
    assert_eq!(config.editor.command, "nvim");
    assert!(config.terminal.shell.is_none());
}

#[test]
fn default_value_functions() {
    assert_eq!(default_source_dir(), "docs");
    assert_eq!(default_build_dir(), "_build/html");
    assert_eq!(default_interpreter(), "python");
    assert_eq!(default_editor(), "nvim");
    assert!(default_auto_start_sphinx());
}

#[test]
fn default_sphinx_extra_args_empty() {
    let config = Config::default();
    assert!(config.sphinx.extra_args.is_empty());
}

#[test]
fn default_terminal_display_settings_unset() {
    let config = Config::default();
    assert!(config.terminal.font_family.is_none());
    assert!(config.terminal.font_size.is_none());
    assert!(config.terminal.theme_file.is_none());
}

#[test]
fn default_dev_config() {
    let dev = DevConfig::default();
    assert!(dev.project_path.is_none());
    assert!(dev.auto_start_sphinx);
    assert!(dev.config.is_none());
}

#[test]
fn default_overrides_all_unset() {
    let all = ConfigOverride::default();
    assert!(all.sphinx.is_none());
    assert!(all.python.is_none());
    assert!(all.editor.is_none());
    assert!(all.terminal.is_none());
    let sphinx = SphinxConfigOverride::default();
    assert!(sphinx.source_dir.is_none());
    assert!(sphinx.build_dir.is_none());
    assert!(sphinx.server.is_none());
    assert!(sphinx.extra_args.is_none());
    let server = ServerConfigOverride::default();
    assert!(server.port.is_none());
    let terminal = TerminalConfigOverride::default();
    assert!(terminal.shell.is_none());
    assert!(terminal.font_family.is_none());
    assert!(terminal.font_size.is_none());
    assert!(terminal.theme_file.is_none());
}

#[test]
fn theme_file_path_resolution() {
    let mut terminal = TerminalConfig::default();
    assert!(terminal.theme_file_path(Some("/proj")).is_none());
    terminal.theme_file = Some("themes/dark.toml".to_string());
    assert_eq!(
        terminal.theme_file_path(Some("/proj")),
        Some("/proj/themes/dark.toml".to_string()),
    );
    assert_eq!(terminal.theme_file_path(None), Some("themes/dark.toml".to_string()));
}
