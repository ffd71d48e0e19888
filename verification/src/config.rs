//! The user's config: [editor], [theme], [cache], [provider], [ui],
//! [update]. Loading and saving the file is the binary's job; this is
//! the shape and its defaults.
use vstd::prelude::*;

verus! {

#[derive(Debug, Clone, PartialEq, Eq)]
pub struct Config {
    pub editor: EditorConfig,
    pub theme: ThemeConfig,
    pub cache: CacheConfig,
    pub provider: ProviderConfig,
    pub ui: UiConfig,
    pub update: UpdateConfig,
}

/// Backend selection: built-in GitHub by default, or an external stdio
/// provider, or a declared provider name resolved at startup.
#[derive(Debug, Clone, PartialEq, Eq)]
pub struct ProviderConfig {
    /// "github" | "stdio" | a declared provider name.
    pub kind: String,
    /// argv for kind = "stdio".
    pub command: Vec<String>,
    /// Per-request read deadline in milliseconds.
    pub timeout_ms: u64,
    /// Child stderr for kind = "stdio": "null" or "inherit".
    pub stderr: String,
    /// Short display name for the modeline's forge chip.
    pub name: Option<String>,
    /// Modeline icon override: a builtin name or a single glyph.
    pub icon: Option<String>,
    /// Pin for a declared kind: install exactly this tag.
    pub tag: Option<String>,
    /// Integrity pin for a declared kind (sha256 of the tarball).
    pub sha: Option<String>,
}

#[derive(Debug, Clone, PartialEq, Eq)]
pub struct EditorConfig {
    pub program: Option<String>,
    pub args: Vec<String>,
    pub read_only: bool,
}

#[derive(Debug, Clone, PartialEq, Eq)]
pub struct CacheConfig {
    /// Blob cache size cap in MiB.
    pub max_mb: u64,
}

#[derive(Debug, Clone, PartialEq, Eq)]
pub struct ThemeConfig {
    pub name: String,
    /// An explicit palette file, as the user wrote it.
    pub path: Option<String>,
}

/// Update notice: the cached startup check.
#[derive(Debug, Clone, PartialEq, Eq)]
pub struct UpdateConfig {
    /// Modeline notice when a newer release exists.
    pub check: bool,
}

/// Chrome preferences.
#[derive(Debug, Clone, PartialEq, Eq)]
pub struct UiConfig {
    /// Border corner style: "plain" | "rounded" | "thick" | "double".
    pub border: String,
    /// Nerd Font glyphs in the modeline.
    pub nerd_font: bool,
    /// Chip separator in the modeline: "pipe" or "caret".
    pub separator: String,
}

impl Default for EditorConfig {
    fn default() -> (r: Self)
        ensures
            r.program is None,
            r.args@.len() == 0,
            r.read_only,
    {
        EditorConfig { program: None, args: Vec::new(), read_only: true }
    }
}

impl Default for ThemeConfig {
    fn default() -> (r: Self)
        ensures
            r.name@ == "catppuccin-mocha"@,
            r.path is None,
    {
        ThemeConfig { name: "catppuccin-mocha".to_owned(), path: None }
    }
}

impl Default for CacheConfig {
    fn default() -> (r: Self)
        ensures
            r.max_mb == 512,
    {
        CacheConfig { max_mb: 512 }
    }
}

impl Default for UpdateConfig {
    fn default() -> (r: Self)
        ensures
            r.check,
    {
        UpdateConfig { check: true }
    }
}

impl Default for UiConfig {
    fn default() -> (r: Self)
        ensures
            r.border@ == "plain"@,
            !r.nerd_font,
            r.separator@ == "pipe"@,
    {
        UiConfig { border: "plain".to_owned(), nerd_font: false, separator: "pipe".to_owned() }
    }
}

impl Default for ProviderConfig {
    fn default() -> (r: Self)
        ensures
            r.kind@ == "github"@,
            r.command@.len() == 0,
            r.timeout_ms == 30_000,
            r.stderr@ == "null"@,
            r.name is None,
            r.icon is None,
            r.tag is None,
            r.sha is None,
    {
        ProviderConfig {
            kind: "github".to_owned(),
            command: Vec::new(),
            timeout_ms: 30_000,
            stderr: "null".to_owned(),
            name: None,
            icon: None,
            tag: None,
            sha: None,
        }
    }
}

impl Default for Config {
    fn default() -> (r: Self)
        ensures
            r.editor.program is None,
            r.editor.args@.len() == 0,
            r.editor.read_only,
            r.theme.name@ == "catppuccin-mocha"@,
            r.theme.path is None,
            r.cache.max_mb == 512,
            r.provider.kind@ == "github"@,
            r.provider.command@.len() == 0,
            r.provider.timeout_ms == 30_000,
            r.provider.stderr@ == "null"@,
            r.provider.name is None,
            r.provider.icon is None,
            r.provider.tag is None,
            r.provider.sha is None,
            r.ui.border@ == "plain"@,
            !r.ui.nerd_font,
            r.ui.separator@ == "pipe"@,
            r.update.check,
    {
        Config {
            editor: EditorConfig::default(),
            theme: ThemeConfig::default(),
            cache: CacheConfig::default(),
            provider: ProviderConfig::default(),
            ui: UiConfig::default(),
            update: UpdateConfig::default(),
        }
    }
}


/// Two configs hold the same settings (lists compared by content).
pub open spec fn same_config(a: Config, b: Config) -> bool {
    &&& a.editor.program == b.editor.program
    &&& a.editor.args@ == b.editor.args@
    &&& a.editor.read_only == b.editor.read_only
    &&& a.theme == b.theme
    &&& a.cache == b.cache
    &&& a.provider.kind == b.provider.kind
    &&& a.provider.command@ == b.provider.command@
    &&& a.provider.timeout_ms == b.provider.timeout_ms
    &&& a.provider.stderr == b.provider.stderr
    &&& a.provider.name == b.provider.name
    &&& a.provider.icon == b.provider.icon
    &&& a.provider.tag == b.provider.tag
    &&& a.provider.sha == b.provider.sha
    &&& a.ui == b.ui
    &&& a.update == b.update
}

fn clone_strings_vec(v: &Vec<String>) -> (r: Vec<String>)
    ensures
        r@ == v@,
{
    crate::text::clone_strings(v)
}

fn clone_opt(o: &Option<String>) -> (r: Option<String>)
    ensures
        r == *o,
{
    match o {
        Some(s) => Some(s.clone()),
        None => None,
    }
}

impl Config {
    /// A copy holding the same settings.
    pub fn copy(&self) -> (r: Config)
        ensures
            same_config(r, *self),
    {
        Config {
            editor: EditorConfig {
                program: clone_opt(&self.editor.program),
                args: clone_strings_vec(&self.editor.args),
                read_only: self.editor.read_only,
            },
            theme: ThemeConfig { name: self.theme.name.clone(), path: clone_opt(&self.theme.path) },
            cache: CacheConfig { max_mb: self.cache.max_mb },
            provider: ProviderConfig {
                kind: self.provider.kind.clone(),
                command: clone_strings_vec(&self.provider.command),
                timeout_ms: self.provider.timeout_ms,
                stderr: self.provider.stderr.clone(),
                name: clone_opt(&self.provider.name),
                icon: clone_opt(&self.provider.icon),
                tag: clone_opt(&self.provider.tag),
                sha: clone_opt(&self.provider.sha),
            },
            ui: UiConfig {
                border: self.ui.border.clone(),
                nerd_font: self.ui.nerd_font,
                separator: self.ui.separator.clone(),
            },
            update: UpdateConfig { check: self.update.check },
        }
    }
}
} // verus!
