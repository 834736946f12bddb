//! Status adapters: each turns a service's status payload into an overall
//! status, a description and a list of component statuses.

pub mod google_status;
pub mod json_api;
pub mod html;
pub mod statuspage;

use vstd::prelude::*;
use crate::json::JsonValue;
use crate::state::WatchStatus;
use crate::adapter::html::spec_regex_error;
use crate::json::str_eq;
use crate::config::view_strings;
use crate::pattern::{interleave, regex_groups, regex_split, spec_interleave, spec_regex_groups, spec_regex_split};
use crate::strmap::StrMap;
use crate::text::opt_view;

verus! {

/// Status of a single component reported by an adapter.
#[derive(Debug, Clone, PartialEq)]
pub struct ComponentStatus {
    pub name: String,
    pub status: WatchStatus,
    pub description: String,
}

/// The mathematical value of a [`ComponentStatus`].
pub struct SpecComponent {
    pub name: Seq<char>,
    pub status: WatchStatus,
    pub description: Seq<char>,
}

impl View for ComponentStatus {
    type V = SpecComponent;

    open spec fn view(&self) -> SpecComponent {
        SpecComponent { name: self.name@, status: self.status, description: self.description@ }
    }
}

/// The views of a list of components.
pub open spec fn view_components(v: Seq<ComponentStatus>) -> Seq<SpecComponent> {
    v.map_values(|c: ComponentStatus| c@)
}

/// The result returned by any adapter after a successful fetch and parse.
#[derive(Debug, PartialEq)]
pub struct AdapterResult {
    pub status: WatchStatus,
    pub description: String,
    pub data: JsonValue,
    pub components: Vec<ComponentStatus>,
}

/// Errors that an adapter can produce.
#[derive(Debug, Clone, PartialEq)]
pub enum AdapterError {
    HttpError(String),
    ParseError(String),
    UnsupportedAdapter(String),
}

/// The message an adapter error is shown with.
pub open spec fn spec_adapter_error_message(e: AdapterError) -> Seq<char> {
    match e {
        AdapterError::HttpError(m) => "HTTP error: "@ + m@,
        AdapterError::ParseError(m) => "parse error: "@ + m@,
        AdapterError::UnsupportedAdapter(m) => "unsupported adapter: "@ + m@,
    }
}

impl AdapterError {
    /// The human-readable message for this error.
    pub fn message(&self) -> (r: String)
        ensures
            r@ == spec_adapter_error_message(*self),
    {
        proof {
            reveal_strlit("");
        }
        match self {
            AdapterError::HttpError(m) => crate::text::concat3("HTTP error: ", m.as_str(), ""),
            AdapterError::ParseError(m) => crate::text::concat3("parse error: ", m.as_str(), ""),
            AdapterError::UnsupportedAdapter(m) => crate::text::concat3("unsupported adapter: ", m.as_str(), ""),
        }
    }
}

/// The adapters a watch can name.
#[derive(Debug, Clone, Copy, PartialEq, Eq, Structural)]
pub enum AdapterKind {
    Google,
    Html,
    Json,
    Statuspage,
}

/// The adapter a URN names, if any.
pub open spec fn spec_adapter_kind(urn: Seq<char>) -> Option<AdapterKind> {
    if urn == "urn:wtch:adapter:google"@ {
        Some(AdapterKind::Google)
    } else if urn == "urn:wtch:adapter:html"@ {
        Some(AdapterKind::Html)
    } else if urn == "urn:wtch:adapter:json"@ {
        Some(AdapterKind::Json)
    } else if urn == "urn:wtch:adapter:statuspage"@ {
        Some(AdapterKind::Statuspage)
    } else {
        None
    }
}

/// Chooses the adapter for a watch from its `adapter` URN (an absent URN
/// counts as the empty one); an unknown URN is reported as unsupported.
pub fn adapter_kind(urn: Option<&str>) -> (r: Result<AdapterKind, AdapterError>)
    ensures
        match r {
            Ok(k) => spec_adapter_kind(
                match urn {
                    Some(u) => u@,
                    None => Seq::empty(),
                },
            ) == Some(k),
            Err(e) => e matches AdapterError::UnsupportedAdapter(m) && spec_adapter_kind(m@) is None
                && m@ == match urn {
                Some(u) => u@,
                None => Seq::<char>::empty(),
            },
        },
{
    let u: &str = match urn {
        Some(u) => u,
        None => "",
    };
    proof {
        reveal_strlit("");
        assert(""@ =~= Seq::<char>::empty());
    }
    if str_eq(u, "urn:wtch:adapter:google") {
        Ok(AdapterKind::Google)
    } else if str_eq(u, "urn:wtch:adapter:html") {
        Ok(AdapterKind::Html)
    } else if str_eq(u, "urn:wtch:adapter:json") {
        Ok(AdapterKind::Json)
    } else if str_eq(u, "urn:wtch:adapter:statuspage") {
        Ok(AdapterKind::Statuspage)
    } else {
        Err(AdapterError::UnsupportedAdapter(u.to_owned()))
    }
}

/// The pattern of a braced variable reference, `${NAME}`.
pub open spec fn spec_braced_var_pattern() -> Seq<char> {
    "\\$\\{([^}]+)\\}"@
}

/// The pattern of a bare variable reference, `$NAME` with `NAME` made of
/// capitals, digits and underscores (not starting with a digit).
pub open spec fn spec_simple_var_pattern() -> Seq<char> {
    "\\$([A-Z_][A-Z0-9_]*)"@
}

/// The value a reference to variable `name` is replaced with: the
/// variable's value, or nothing when it is not set.
pub open spec fn spec_env_value(env: Map<Seq<char>, String>, name: Option<Seq<char>>) -> Seq<char> {
    match name {
        Some(n) => if env.contains_key(n) {
            env[n]@
        } else {
            Seq::empty()
        },
        None => Seq::empty(),
    }
}

/// `text` with every match of `pattern` replaced by the value of the
/// variable its group names (a pattern that does not compile leaves the
/// text as it is).
pub open spec fn spec_replace_vars(pattern: Seq<char>, text: Seq<char>, env: Map<Seq<char>, String>) -> Seq<char> {
    if spec_regex_error(pattern) is Some {
        text
    } else {
        spec_interleave(
            spec_regex_split(pattern, text),
            spec_regex_groups(pattern, text).map_values(|g: Option<Seq<char>>| spec_env_value(env, g)),
        )
    }
}

/// `value` with its variable references expanded: `${NAME}` first, then
/// `$NAME`.
pub open spec fn spec_resolve_env_vars(value: Seq<char>, env: Map<Seq<char>, String>) -> Seq<char> {
    spec_replace_vars(
        spec_simple_var_pattern(),
        spec_replace_vars(spec_braced_var_pattern(), value, env),
        env,
    )
}

fn replace_vars(pattern: &str, text: &str, env: &StrMap<String>) -> (r: String)
    ensures
        r@ == spec_replace_vars(pattern@, text@, env@),
{
    let pieces = match regex_split(pattern, text) {
        Ok(p) => p,
        Err(_) => return text.to_owned(),
    };
    let groups = match regex_groups(pattern, text) {
        Ok(g) => g,
        Err(_) => return text.to_owned(),
    };
    let ghost gs = spec_regex_groups(pattern@, text@);
    let mut fills: Vec<String> = Vec::new();
    let mut i: usize = 0;
    while i < groups.len()
        invariant
            i <= groups@.len(),
            fills@.len() == i,
            groups@.map_values(|g: Option<String>| opt_view(g)) == gs,
            forall|j: int| 0 <= j < i ==> #[trigger] fills@[j]@ == spec_env_value(env@, gs[j]),
        decreases groups.len() - i,
    {
        assert(gs[i as int] == opt_view(groups@[i as int]));
        let value = match &groups[i] {
            Some(name) => match env.get(name.as_str()) {
                Some(v) => v.clone(),
                None => String::new(),
            },
            None => String::new(),
        };
        fills.push(value);
        i = i + 1;
    }
    assert(view_strings(fills@) =~= gs.map_values(|g: Option<Seq<char>>| spec_env_value(env@, g)));
    interleave(&pieces, &fills)
}

/// Resolves `$VAR` and `${VAR}` placeholders in a string from the
/// environment `env` (the variables and their values). The braced form is
/// substituted first. Unset variables are replaced with an empty string,
/// matching shell behaviour.
pub fn resolve_env_vars(value: &str, env: &StrMap<String>) -> (r: String)
    ensures
        r@ == spec_resolve_env_vars(value@, env@),
{
    let braced = replace_vars("\\$\\{([^}]+)\\}", value, env);
    replace_vars("\\$([A-Z_][A-Z0-9_]*)", braced.as_str(), env)
}

} // verus!
