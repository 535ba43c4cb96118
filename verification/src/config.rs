//! Project configuration data: the settings the supervisors and their
//! embedding are driven by, with their documented defaults, and the partial
//! override shapes used by a local development configuration.
//!
//! Reading and parsing the configuration files is the embedding program's
//! job; it hands the parsed values over as these plain types.

use vstd::prelude::*;

verus! {

/// Default directory of the documentation sources, relative to the project
/// root.
pub fn default_source_dir() -> (r: String)
    ensures
        r@ == "docs"@,
{
    String::from_str("docs")
}

/// Default output directory of the documentation build, relative to the
/// project root.
pub fn default_build_dir() -> (r: String)
    ensures
        r@ == "_build/html"@,
{
    String::from_str("_build/html")
}

/// Default interpreter that runs the watch-and-rebuild tool.
pub fn default_interpreter() -> (r: String)
    ensures
        r@ == "python"@,
{
    String::from_str("python")
}

/// Default editor command.
pub fn default_editor() -> (r: String)
    ensures
        r@ == "nvim"@,
{
    String::from_str("nvim")
}

/// Whether the watch process starts automatically when no development
/// configuration says otherwise.
pub fn default_auto_start_sphinx() -> (r: bool)
    ensures
        r == true,
{
    true
}

/// The whole project configuration.
pub struct Config {
    pub sphinx: SphinxConfig,
    pub python: PythonConfig,
    pub editor: EditorConfig,
    pub terminal: TerminalConfig,
}

/// Settings of the documentation build.
pub struct SphinxConfig {
    /// Source directory, relative to the project root.
    pub source_dir: String,
    /// Build output directory, relative to the project root.
    pub build_dir: String,
    /// Settings of the serving side of the watch process.
    pub server: ServerConfig,
    /// Extra arguments appended to the watch tool's command line.
    pub extra_args: Vec<String>,
}

/// Settings of the watch process's server.
pub struct ServerConfig {
    /// Requested port; 0 asks for an automatically assigned one.
    pub port: u16,
}

/// Settings of the Python environment.
pub struct PythonConfig {
    /// The interpreter that runs the watch tool.
    pub interpreter: String,
}

/// Settings of the editor integration.
pub struct EditorConfig {
    /// The editor command.
    pub command: String,
}

/// Settings of the terminal integration.
pub struct TerminalConfig {
    /// Shell path; `None` asks for auto-detection from the environment.
    pub shell: Option<String>,
    /// Font family of the terminal display.
    pub font_family: Option<String>,
    /// Font size of the terminal display.
    pub font_size: Option<u16>,
    /// Path of a theme file with a color scheme.
    pub theme_file: Option<String>,
}

impl TerminalConfig {
    /// Where the theme file with the color scheme sits, when one is
    /// configured: its path joined to `base_path` when a base is given, the
    /// path as written otherwise.  Reading and parsing the file is the
    /// embedding program's job.
    pub fn theme_file_path(&self, base_path: Option<&str>) -> (r: Option<String>)
        ensures
            match self.theme_file {
                None => r is None,
                Some(ref theme_file) => match r {
                    Some(path) => path@ == match base_path {
                        Some(base) => crate::text::spec_join_path(base@, theme_file@),
                        None => theme_file@,
                    },
                    None => false,
                },
            },
    {
        match &self.theme_file {
            None => None,
            Some(theme_file) => match base_path {
                Some(base) => Some(crate::text::join_path(base, theme_file.as_str())),
                None => Some(theme_file.clone()),
            },
        }
    }
}

impl Default for ServerConfig {
    /// Port 0: ask for an automatically assigned port.
    fn default() -> (r: ServerConfig)
        ensures
            r.port == 0,
    {
        ServerConfig { port: 0 }
    }
}

impl Default for SphinxConfig {
    fn default() -> (r: SphinxConfig)
        ensures
            r.source_dir@ == "docs"@,
            r.build_dir@ == "_build/html"@,
            r.server.port == 0,
            r.extra_args@ == Seq::<String>::empty(),
    {
        let r = SphinxConfig {
            source_dir: default_source_dir(),
            build_dir: default_build_dir(),
            server: ServerConfig::default(),
            extra_args: Vec::new(),
        };
        proof {
            assert(r.extra_args@ =~= Seq::<String>::empty());
        }
        r
    }
}

impl Default for PythonConfig {
    fn default() -> (r: PythonConfig)
        ensures
            r.interpreter@ == "python"@,
    {
        PythonConfig { interpreter: default_interpreter() }
    }
}

impl Default for EditorConfig {
    fn default() -> (r: EditorConfig)
        ensures
            r.command@ == "nvim"@,
    {
        EditorConfig { command: default_editor() }
    }
}

impl Default for TerminalConfig {
    /// Everything unset: shell auto-detection, display defaults, no theme.
    fn default() -> (r: TerminalConfig)
        ensures
            r.shell is None,
            r.font_family is None,
            r.font_size is None,
            r.theme_file is None,
    {
        TerminalConfig { shell: None, font_family: None, font_size: None, theme_file: None }
    }
}

impl Default for Config {
    fn default() -> (r: Config)
        ensures
            r.sphinx.source_dir@ == "docs"@,
            r.sphinx.build_dir@ == "_build/html"@,
            r.sphinx.server.port == 0,
            r.sphinx.extra_args@ == Seq::<String>::empty(),
            r.python.interpreter@ == "python"@,
            r.editor.command@ == "nvim"@,
            r.terminal.shell is None,
            r.terminal.font_family is None,
            r.terminal.font_size is None,
            r.terminal.theme_file is None,
    {
        Config {
            sphinx: SphinxConfig::default(),
            python: PythonConfig::default(),
            editor: EditorConfig::default(),
            terminal: TerminalConfig::default(),
        }
    }
}

/// Local development configuration, read from a development file next to
/// the project when one exists.
pub struct DevConfig {
    /// Project opened by default.
    pub project_path: Option<String>,
    /// Whether the watch process starts automatically.
    pub auto_start_sphinx: bool,
    /// Partial overrides of the global configuration.
    pub config: Option<ConfigOverride>,
}

impl Default for DevConfig {
    fn default() -> (r: DevConfig)
        ensures
            r.project_path is None,
            r.auto_start_sphinx == true,
            r.config is None,
    {
        DevConfig { project_path: None, auto_start_sphinx: default_auto_start_sphinx(), config: None }
    }
}

/// Partial override of [`Config`]: only the given parts replace the loaded
/// values.
pub struct ConfigOverride {
    pub sphinx: Option<SphinxConfigOverride>,
    pub python: Option<PythonConfigOverride>,
    pub editor: Option<EditorConfigOverride>,
    pub terminal: Option<TerminalConfigOverride>,
}

impl Default for ConfigOverride {
    fn default() -> (r: ConfigOverride)
        ensures
            r.sphinx is None,
            r.python is None,
            r.editor is None,
            r.terminal is None,
    {
        ConfigOverride { sphinx: None, python: None, editor: None, terminal: None }
    }
}

/// Partial override of [`SphinxConfig`].
pub struct SphinxConfigOverride {
    pub source_dir: Option<String>,
    pub build_dir: Option<String>,
    pub server: Option<ServerConfigOverride>,
    pub extra_args: Option<Vec<String>>,
}

impl Default for SphinxConfigOverride {
    fn default() -> (r: SphinxConfigOverride)
        ensures
            r.source_dir is None,
            r.build_dir is None,
            r.server is None,
            r.extra_args is None,
    {
        SphinxConfigOverride { source_dir: None, build_dir: None, server: None, extra_args: None }
    }
}

/// Partial override of [`ServerConfig`].
pub struct ServerConfigOverride {
    pub port: Option<u16>,
}

impl Default for ServerConfigOverride {
    fn default() -> (r: ServerConfigOverride)
        ensures
            r.port is None,
    {
        ServerConfigOverride { port: None }
    }
}

/// Partial override of [`PythonConfig`].
pub struct PythonConfigOverride {
    pub interpreter: Option<String>,
}

impl Default for PythonConfigOverride {
    fn default() -> (r: PythonConfigOverride)
        ensures
            r.interpreter is None,
    {
        PythonConfigOverride { interpreter: None }
    }
}

/// Partial override of [`EditorConfig`].
pub struct EditorConfigOverride {
    pub command: Option<String>,
}

impl Default for EditorConfigOverride {
    fn default() -> (r: EditorConfigOverride)
        ensures
            r.command is None,
    {
        EditorConfigOverride { command: None }
    }
}

/// Partial override of [`TerminalConfig`].
pub struct TerminalConfigOverride {
    pub shell: Option<String>,
    pub font_family: Option<String>,
    pub font_size: Option<u16>,
    pub theme_file: Option<String>,
}

impl Default for TerminalConfigOverride {
    fn default() -> (r: TerminalConfigOverride)
        ensures
            r.shell is None,
            r.font_family is None,
            r.font_size is None,
            r.theme_file is None,
    {
        TerminalConfigOverride { shell: None, font_family: None, font_size: None, theme_file: None }
    }
}

} // verus!
