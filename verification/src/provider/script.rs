//! The script provider: a command's output read as JSON, as a single value,
//! or only by its exit code.

use vstd::prelude::*;
use crate::config::{view_strings, General, ScriptFormat, ShellConfig, Watch};
use crate::shell::{spec_argv, ShellRunner};
use crate::strmap::StrMap;
use crate::json::{JsonNumber, JsonValue};
use crate::provider::{ProviderError, ProviderResult};
use crate::shell::ShellOutput;
use crate::text::{spec_trim, trim};

verus! {

/// The JSON number of a process exit code.
pub open spec fn spec_code_number(code: i32) -> JsonNumber {
    if code >= 0 {
        JsonNumber::PosInt(code as u64)
    } else {
        JsonNumber::NegInt(code as i64)
    }
}

/// The data of a script run in `value` format: the trimmed output as a
/// number when it reads as one (`number` is what it reads as), else as a
/// string, under the key `value`.
pub open spec fn spec_value_data(data: JsonValue, text: Seq<char>, number: Option<JsonValue>) -> bool {
    data matches JsonValue::Object(fields) && fields@.len() == 1 && fields@[0].0@ == "value"@
        && match number {
        Some(n) => fields@[0].1 == n,
        None => fields@[0].1 matches JsonValue::String(s) && s@ == text,
    }
}

/// The data of a script run in `exit_code` format: `{"exit_code": code}`.
pub open spec fn spec_exit_code_data(data: JsonValue, code: i32) -> bool {
    data matches JsonValue::Object(fields) && fields@.len() == 1 && fields@[0].0@ == "exit_code"@
        && fields@[0].1 == JsonValue::Number(spec_code_number(code))
}

fn single_field(key: &str, v: JsonValue) -> (r: JsonValue)
    ensures
        r matches JsonValue::Object(fields) && fields@.len() == 1 && fields@[0].0@ == key@ && fields@[0].1
            == v,
{
    let mut fields: Vec<(String, JsonValue)> = Vec::new();
    fields.push((key.to_owned(), v));
    JsonValue::Object(fields)
}

/// Parses raw [`ShellOutput`] into a [`ProviderResult`] according to
/// `format`. The output is trimmed first. `parse_json` reads text as a JSON
/// document (its error is the parser's message); `parse_number` reads text
/// as a floating-point number and gives that number's JSON value.
pub fn parse_output<J, N>(output: ShellOutput, format: &ScriptFormat, parse_json: J, parse_number: N) -> (r:
    Result<ProviderResult, ProviderError>)
    where
        J: FnOnce(&str) -> Result<JsonValue, String>,
        N: FnOnce(&str) -> Option<JsonValue>,
    requires
        forall|t: &str| parse_json.requires((t,)),
        forall|t: &str| parse_number.requires((t,)),
    ensures
        match *format {
            ScriptFormat::Json => exists|t: &str, p: Result<JsonValue, String>|
                t@ == spec_trim(output.stdout@) && #[trigger] parse_json.ensures((t,), p) && match p {
                    Ok(v) => r == Ok::<ProviderResult, ProviderError>(
                        ProviderResult { data: v, exit_code: Some(output.exit_code), latency_ms: None },
                    ),
                    Err(m) => (r matches Err(ProviderError::ParseError(m2)) && m2@ == "invalid JSON from script: "@
                        + m@),
                },
            ScriptFormat::Value => exists|t: &str, n: Option<JsonValue>|
                t@ == spec_trim(output.stdout@) && #[trigger] parse_number.ensures((t,), n) && (r matches Ok(
                    res,
                ) && spec_value_data(res.data, t@, n) && res.exit_code == Some(output.exit_code)
                    && res.latency_ms is None),
            ScriptFormat::ExitCode => r matches Ok(res) && spec_exit_code_data(res.data, output.exit_code)
                && res.exit_code == Some(output.exit_code) && res.latency_ms is None,
        },
{
    let exit_code = output.exit_code;
    let trimmed = trim(output.stdout.as_str());
    let data = match format {
        ScriptFormat::Json => {
            match parse_json(trimmed.as_str()) {
                Ok(v) => v,
                Err(m) => {
                    proof {
                        reveal_strlit("");
                    }
                    return Err(
                        ProviderError::ParseError(
                            crate::text::concat3("invalid JSON from script: ", m.as_str(), ""),
                        ),
                    );
                },
            }
        },
        ScriptFormat::Value => {
            match parse_number(trimmed.as_str()) {
                Some(n) => single_field("value", n),
                None => single_field("value", JsonValue::String(trimmed)),
            }
        },
        ScriptFormat::ExitCode => {
            let n = if exit_code >= 0 {
                JsonNumber::PosInt(exit_code as u64)
            } else {
                JsonNumber::NegInt(exit_code as i64)
            };
            single_field("exit_code", JsonValue::Number(n))
        },
    };
    Ok(ProviderResult { data, exit_code: Some(exit_code), latency_ms: None })
}

/// Default timeout in seconds applied to script execution.
pub const DEFAULT_TIMEOUT_SECS: u64 = 10;

/// The message of the error a script watch gives while scripts are not
/// allowed.
pub open spec fn spec_scripts_disabled_message() -> Seq<char> {
    "script execution is disabled (set general.allow_scripts to true)"@
}

/// The shell a script watch runs in: its own `shell`, else
/// `general.default_shell`.
pub open spec fn spec_shell_name(watch: Watch, general: General) -> Option<String> {
    match watch.shell {
        Some(s) => Some(s),
        None => general.default_shell,
    }
}

/// Prepares a script watch for running: the argument vector its command
/// runs with and the format its output is read in (`value` unless
/// configured). Nothing runs while `general.allow_scripts` is off. A watch
/// without a command cannot run; nor can one with no shell of its own and
/// no `general.default_shell`, or whose shell is unknown.
pub fn prepare(watch: &Watch, general: &General, shells: &StrMap<ShellConfig>) -> (r: Result<(Vec<String>, ScriptFormat), ProviderError>)
    ensures
        !general.allow_scripts ==> (r matches Err(ProviderError::ExecutionFailed(m)) && m@ == spec_scripts_disabled_message()),
        general.allow_scripts ==> (match watch.command {
            None => r matches Err(ProviderError::ExecutionFailed(m)) && m@ == "watch has no command field"@,
            Some(command) => match spec_shell_name(*watch, *general) {
                None => r matches Err(ProviderError::ExecutionFailed(m)) && m@ == "watch has no shell field"@,
                Some(shell) => if shells@.contains_key(shell@) {
                    r matches Ok((argv, format)) && view_strings(argv@) == spec_argv(shells@[shell@], command@)
                        && format == match watch.format {
                        Some(f) => f,
                        None => ScriptFormat::Value,
                    }
                } else {
                    r matches Err(ProviderError::ExecutionFailed(m)) && m@ == "unknown shell: "@ + shell@
                },
            },
        }),
{
    if !general.allow_scripts {
        return Err(ProviderError::ExecutionFailed(
            "script execution is disabled (set general.allow_scripts to true)".to_owned(),
        ));
    }
    let command = match &watch.command {
        Some(c) => c,
        None => return Err(ProviderError::ExecutionFailed("watch has no command field".to_owned())),
    };
    let shell_name = match &watch.shell {
        Some(s) => s,
        None => match &general.default_shell {
            Some(s) => s,
            None => return Err(ProviderError::ExecutionFailed("watch has no shell field".to_owned())),
        },
    };
    let format = match watch.format {
        Some(f) => f,
        None => ScriptFormat::Value,
    };
    match ShellRunner::command_line(shell_name.as_str(), command.as_str(), shells) {
        Ok(argv) => Ok((argv, format)),
        Err(e) => Err(e),
    }
}

} // verus!
