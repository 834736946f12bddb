//! Watch configuration: the types a `wtch.yml` file describes, their
//! defaults, and the built-in shells.

use vstd::prelude::*;
use crate::strmap::StrMap;

verus! {

/// The type of provider for a watch entry.
#[derive(Debug, Clone, Copy, PartialEq, Eq, Structural)]
pub enum WatchType {
    Script,
    Http,
    Statuspage,
    Adapter,
}

/// How a script's stdout should be interpreted.
#[derive(Debug, Clone, Copy, PartialEq, Eq, Structural)]
pub enum ScriptFormat {
    Json,
    Value,
    ExitCode,
}

/// Visual style used for a display block.
#[derive(Debug, Clone, Copy, PartialEq, Eq, Structural)]
pub enum DisplayStyle {
    Status,
    Progress,
    Value,
    Text,
    List,
}

/// jq-like condition expressions evaluated against the watch data.
#[derive(Debug, Clone)]
pub struct Conditions {
    pub error: Option<String>,
    pub warning: Option<String>,
    pub maintenance: Option<String>,
    pub success: Option<String>,
}

impl Default for Conditions {
    fn default() -> (r: Self)
        ensures
            r.error is None,
            r.warning is None,
            r.maintenance is None,
            r.success is None,
    {
        Conditions { error: None, warning: None, maintenance: None, success: None }
    }
}

/// A display block describing how a watch (or a detail panel) is rendered.
#[derive(Debug, Clone)]
pub struct Display {
    pub style: Option<DisplayStyle>,
    pub title: Option<String>,
    pub description: Option<String>,
    pub content: Option<String>,
    pub value: Option<String>,
    pub min: Option<String>,
    pub max: Option<String>,
    pub items: Option<String>,
    pub item_title: Option<String>,
    pub item_status: Option<String>,
    /// JSON path to an array for dynamic detail generation (e.g. ".components")
    pub details_from: Option<String>,
    /// Field path within each array item for the detail title (e.g. ".name")
    pub detail_title: Option<String>,
    /// Field path within each array item for the status string (e.g. ".status")
    pub detail_status: Option<String>,
    /// Display style for dynamic details: "status" (default) or "progress"
    pub detail_style: Option<DisplayStyle>,
    /// Field path within each array item for the value (progress style)
    pub detail_value: Option<String>,
    /// Literal or field path for the max value (progress style)
    pub detail_max: Option<String>,
    /// Field path within each array item for the description
    pub detail_description: Option<String>,
}

impl Default for Display {
    fn default() -> (r: Self)
        ensures
            r.style is None,
            r.title is None,
            r.description is None,
            r.content is None,
            r.value is None,
            r.min is None,
            r.max is None,
            r.items is None,
            r.item_title is None,
            r.item_status is None,
            r.details_from is None,
            r.detail_title is None,
            r.detail_status is None,
            r.detail_style is None,
            r.detail_value is None,
            r.detail_max is None,
            r.detail_description is None,
    {
        Display {
            style: None,
            title: None,
            description: None,
            content: None,
            value: None,
            min: None,
            max: None,
            items: None,
            item_title: None,
            item_status: None,
            details_from: None,
            detail_title: None,
            detail_status: None,
            detail_style: None,
            detail_value: None,
            detail_max: None,
            detail_description: None,
        }
    }
}

/// A detail panel attached to a watch. Shares the same fields as Display.
pub type Details = Display;

/// Shell profile: the executable and its argument prefix.
#[derive(Debug, Clone, PartialEq)]
pub struct ShellConfig {
    pub command: String,
    pub args: Vec<String>,
}

/// The mathematical value of a [`ShellConfig`].
pub struct SpecShell {
    pub command: Seq<char>,
    pub args: Seq<Seq<char>>,
}

/// The views of a list of strings.
pub open spec fn view_strings(v: Seq<String>) -> Seq<Seq<char>> {
    v.map_values(|s: String| s@)
}

impl View for ShellConfig {
    type V = SpecShell;

    open spec fn view(&self) -> SpecShell {
        SpecShell { command: self.command@, args: view_strings(self.args@) }
    }
}

/// A value of the adapter-specific configuration, as far as adapters read
/// it: a string, a mapping (whose keys and values are kept when they are
/// strings), or anything else.
#[derive(Debug, Clone, PartialEq)]
pub enum ConfigValue {
    Str(String),
    Mapping(Vec<(Option<String>, Option<String>)>),
    Other,
}

/// A single monitored item as declared in the `watch` array.
#[derive(Debug)]
pub struct Watch {
    pub name: Option<String>,
    pub watch_type: Option<WatchType>,
    pub command: Option<String>,
    pub shell: Option<String>,
    pub format: Option<ScriptFormat>,
    pub interval: Option<String>,
    pub url: Option<String>,
    pub link: Option<String>,
    pub expand: bool,
    pub notify: Option<bool>,
    pub preset: Option<String>,
    pub conditions: Conditions,
    pub display: Option<Display>,
    pub details: Vec<Details>,
    pub headers: StrMap<String>,
    /// Adapter URN, e.g. "urn:wtch:adapter:statuspage"
    pub adapter: Option<String>,
    /// Adapter-specific configuration key/value pairs.
    pub adapter_config: Option<StrMap<ConfigValue>>,
}

/// Top-level `general` section.
#[derive(Debug, Clone)]
pub struct General {
    pub poll_interval: String,
    pub default_shell: Option<String>,
    pub notify: bool,
    pub notify_cooldown: String,
    /// Script watches run only when this is on (off by default).
    pub allow_scripts: bool,
    pub debug: bool,
}

/// The default polling interval, `60s`.
pub fn default_poll_interval() -> (r: String)
    ensures
        r@ == "60s"@,
{
    "60s".to_owned()
}

/// Notifications are on by default.
pub fn default_notify() -> (r: bool)
    ensures
        r,
{
    true
}

/// The default notification cooldown, `5m`.
pub fn default_notify_cooldown() -> (r: String)
    ensures
        r@ == "5m"@,
{
    "5m".to_owned()
}

impl Default for General {
    fn default() -> (r: Self)
        ensures
            r.poll_interval@ == "60s"@,
            r.default_shell is None,
            r.notify,
            r.notify_cooldown@ == "5m"@,
            !r.allow_scripts,
            !r.debug,
    {
        General {
            poll_interval: default_poll_interval(),
            default_shell: None,
            notify: default_notify(),
            notify_cooldown: default_notify_cooldown(),
            allow_scripts: false,
            debug: false,
        }
    }
}

/// The full `wtch.yml` configuration.
#[derive(Debug)]
pub struct Config {
    pub general: General,
    pub shells: StrMap<ShellConfig>,
    pub groups: StrMap<Vec<String>>,
    pub watches: Vec<Watch>,
}

/// The shells that are always available unless the user redefines them.
pub open spec fn spec_builtin_shell(name: Seq<char>) -> Option<SpecShell> {
    if name == "bash"@ {
        Some(SpecShell { command: "bash"@, args: seq!["-c"@] })
    } else if name == "sh"@ {
        Some(SpecShell { command: "sh"@, args: seq!["-c"@] })
    } else if name == "cmd"@ {
        Some(SpecShell { command: "cmd.exe"@, args: seq!["/C"@] })
    } else if name == "powershell"@ {
        Some(SpecShell { command: "powershell.exe"@, args: seq!["-NoProfile"@, "-Command"@] })
    } else if name == "wsl"@ {
        Some(SpecShell { command: "wsl.exe"@, args: seq!["-e"@, "bash"@, "-ic"@] })
    } else {
        None
    }
}

fn shell(command: &str, args: Vec<String>) -> (r: ShellConfig)
    ensures
        r.command@ == command@,
        r.args@ == args@,
{
    ShellConfig { command: command.to_owned(), args }
}

fn strings1(a: &str) -> (r: Vec<String>)
    ensures
        view_strings(r@) == seq![a@],
{
    let mut v = Vec::new();
    v.push(a.to_owned());
    assert(view_strings(v@) =~= seq![a@]);
    v
}

fn strings2(a: &str, b: &str) -> (r: Vec<String>)
    ensures
        view_strings(r@) == seq![a@, b@],
{
    let mut v = Vec::new();
    v.push(a.to_owned());
    v.push(b.to_owned());
    assert(view_strings(v@) =~= seq![a@, b@]);
    v
}

fn strings3(a: &str, b: &str, c: &str) -> (r: Vec<String>)
    ensures
        view_strings(r@) == seq![a@, b@, c@],
{
    let mut v = Vec::new();
    v.push(a.to_owned());
    v.push(b.to_owned());
    v.push(c.to_owned());
    assert(view_strings(v@) =~= seq![a@, b@, c@]);
    v
}

/// The names of the built-in shells, in the order they are declared.
pub open spec fn builtin_names() -> Seq<Seq<char>> {
    seq!["bash"@, "sh"@, "cmd"@, "powershell"@, "wsl"@]
}

impl Config {
    /// Returns the built-in shells, as name and profile.
    fn builtin_shells() -> (r: Vec<(String, ShellConfig)>)
        ensures
            r@.len() == 5,
            forall|i: int| 0 <= i < 5 ==> (#[trigger] r@[i]).0@ == builtin_names()[i],
            forall|i: int|
                0 <= i < 5 ==> spec_builtin_shell((#[trigger] r@[i]).0@) == Some(r@[i].1@),
    {
        // Cross-platform: bash is available everywhere
        let bash = ("bash".to_owned(), shell("bash", strings1("-c")));
        let sh = ("sh".to_owned(), shell("sh", strings1("-c")));
        // Windows-specific
        let cmd = ("cmd".to_owned(), shell("cmd.exe", strings1("/C")));
        let powershell = (
            "powershell".to_owned(),
            shell("powershell.exe", strings2("-NoProfile", "-Command")),
        );
        let wsl = ("wsl".to_owned(), shell("wsl.exe", strings3("-e", "bash", "-ic")));
        proof {
            reveal_strlit("bash");
            reveal_strlit("sh");
            reveal_strlit("cmd");
            reveal_strlit("powershell");
            reveal_strlit("wsl");
            reveal_strlit("-c");
            reveal_strlit("cmd.exe");
            reveal_strlit("/C");
            reveal_strlit("powershell.exe");
            reveal_strlit("-NoProfile");
            reveal_strlit("-Command");
            reveal_strlit("wsl.exe");
            reveal_strlit("-e");
            reveal_strlit("-ic");
            assert("bash"@.len() == 4);
            assert("sh"@.len() == 2);
            assert("cmd"@.len() == 3);
            assert("powershell"@.len() == 10);
            assert("wsl"@.len() == 3);
            assert("wsl"@[0] != "cmd"@[0]);
            assert(spec_builtin_shell(cmd.0@) == Some(cmd.1@));
            assert(spec_builtin_shell(powershell.0@) == Some(powershell.1@));
            assert(spec_builtin_shell(wsl.0@) == Some(wsl.1@));
        }
        let v = vec![bash, sh, cmd, powershell, wsl];
        proof {
            reveal_strlit("bash");
            reveal_strlit("sh");
            reveal_strlit("cmd");
            reveal_strlit("powershell");
            reveal_strlit("wsl");
            assert(spec_builtin_shell(v@[0].0@) == Some(v@[0].1@));
            assert(spec_builtin_shell(v@[1].0@) == Some(v@[1].1@));
            assert(spec_builtin_shell(v@[2].0@) == Some(v@[2].1@));
            assert(spec_builtin_shell(v@[3].0@) == Some(v@[3].1@));
            assert(spec_builtin_shell(v@[4].0@) == Some(v@[4].1@));
        }
        v
    }

    /// Inserts built-in shells only where the user has not defined them.
    pub fn apply_builtin_shells(&mut self)
        ensures
            forall|k: Seq<char>|
                #![trigger final(self).shells@.contains_key(k)]
                final(self).shells@.contains_key(k) <==> (old(self).shells@.contains_key(k)
                    || spec_builtin_shell(k) is Some),
            forall|k: Seq<char>|
                old(self).shells@.contains_key(k) ==> #[trigger] final(self).shells@[k]
                    == old(self).shells@[k],
            forall|k: Seq<char>|
                !old(self).shells@.contains_key(k) && spec_builtin_shell(k) is Some ==> Some(
                    (#[trigger] final(self).shells@[k])@,
                ) == spec_builtin_shell(k),
            final(self).general == old(self).general,
            final(self).groups@ == old(self).groups@,
            final(self).watches@ == old(self).watches@,
    {
        let builtin = Self::builtin_shells();
        let ghost old_shells = self.shells@;
        proof {
            reveal_strlit("bash");
            reveal_strlit("sh");
            reveal_strlit("cmd");
            reveal_strlit("powershell");
            reveal_strlit("wsl");
        }
        let mut rest = builtin;
        let mut i: usize = 0;
        while i < 5
            invariant
                i <= 5,
                rest@.len() == 5,
                forall|j: int| 0 <= j < 5 ==> (#[trigger] rest@[j]).0@ == builtin_names()[j],
                forall|j: int|
                    0 <= j < 5 ==> spec_builtin_shell((#[trigger] rest@[j]).0@) == Some(rest@[j].1@),
                forall|k: Seq<char>|
                    #![trigger self.shells@.contains_key(k)]
                    self.shells@.contains_key(k) <==> (old_shells.contains_key(k) || exists|j: int|
                        0 <= j < i && builtin_names()[j] == k),
                forall|k: Seq<char>|
                    old_shells.contains_key(k) ==> #[trigger] self.shells@[k] == old_shells[k],
                forall|k: Seq<char>|
                    !old_shells.contains_key(k) && self.shells@.contains_key(k) ==> Some(
                        (#[trigger] self.shells@[k])@,
                    ) == spec_builtin_shell(k),
                self.general == old(self).general,
                self.groups@ == old(self).groups@,
                self.watches@ == old(self).watches@,
            decreases 5 - i,
        {
            let name = rest[i].0.clone();
            let profile = ShellConfig { command: rest[i].1.command.clone(), args: clone_strings(&rest[i].1.args) };
            if !self.shells.contains_key(name.as_str()) {
                self.shells.insert(name, profile);
            }
            i = i + 1;
        }
        proof {
            assert forall|k: Seq<char>| spec_builtin_shell(k) is Some implies exists|j: int|
                0 <= j < 5 && builtin_names()[j] == k by {
                if k == "bash"@ {
                    assert(builtin_names()[0] == k);
                } else if k == "sh"@ {
                    assert(builtin_names()[1] == k);
                } else if k == "cmd"@ {
                    assert(builtin_names()[2] == k);
                } else if k == "powershell"@ {
                    assert(builtin_names()[3] == k);
                } else {
                    assert(builtin_names()[4] == k);
                }
            }
        }
    }
}

/// A copy of a list of strings.
pub fn clone_strings(v: &Vec<String>) -> (r: Vec<String>)
    ensures
        r@ == v@,
{
    let mut out: Vec<String> = Vec::new();
    let mut i: usize = 0;
    while i < v.len()
        invariant
            i <= v@.len(),
            out@ == v@.take(i as int),
        decreases v.len() - i,
    {
        out.push(v[i].clone());
        assert(v@.take(i + 1) =~= v@.take(i as int).push(v@[i as int]));
        i = i + 1;
    }
    assert(v@.take(v@.len() as int) =~= v@);
    out
}

impl Default for Config {
    fn default() -> (r: Self)
        ensures
            r.general.poll_interval@ == "60s"@,
            r.general.default_shell is None,
            r.general.notify,
            r.general.notify_cooldown@ == "5m"@,
            !r.general.debug,
            forall|k: Seq<char>|
                #![trigger r.shells@.contains_key(k)]
                r.shells@.contains_key(k) <==> spec_builtin_shell(k) is Some,
            forall|k: Seq<char>|
                r.shells@.contains_key(k) ==> Some((#[trigger] r.shells@[k])@)
                    == spec_builtin_shell(k),
            r.groups@ == Map::<Seq<char>, Vec<String>>::empty(),
            r.watches@.len() == 0,
    {
        let mut cfg = Config {
            general: General::default(),
            shells: StrMap::new(),
            groups: StrMap::new(),
            watches: Vec::new(),
        };
        cfg.apply_builtin_shells();
        cfg
    }
}

/// Errors that can occur while loading the configuration.
#[derive(Debug, Clone, PartialEq)]
pub enum ConfigError {
    HomeDirNotFound,
    Io(String),
    Parse(String),
}

/// The message a configuration error is shown with.
pub open spec fn spec_config_error_message(e: ConfigError) -> Seq<char> {
    match e {
        ConfigError::HomeDirNotFound => "could not determine home directory"@,
        ConfigError::Io(m) => "IO error: "@ + m@,
        ConfigError::Parse(m) => "YAML parse error: "@ + m@,
    }
}

impl ConfigError {
    /// The human-readable message for this error.
    pub fn message(&self) -> (r: String)
        ensures
            r@ == spec_config_error_message(*self),
    {
        proof {
            reveal_strlit("");
        }
        match self {
            ConfigError::HomeDirNotFound => "could not determine home directory".to_owned(),
            ConfigError::Io(m) => crate::text::concat3("IO error: ", m.as_str(), ""),
            ConfigError::Parse(m) => crate::text::concat3("YAML parse error: ", m.as_str(), ""),
        }
    }
}

} // verus!
