//! Configuration keys and values as the command line handles them, and the
//! errors it reports with their exit codes.
use vstd::prelude::*;

use crate::protocol::{HotkeyCombination, TranscriptionMode};

verus! {

/// Exit code of a general failure.
pub const EXIT_GENERAL: i32 = 1;

/// Exit code of a usage or validation failure.
pub const EXIT_USAGE: i32 = 64;

/// An error with the exit code the process ends with.
#[derive(Clone, Debug)]
pub struct CliError {
    pub message: String,
    pub exit_code: i32,
}

impl CliError {
    pub fn new(message: String, exit_code: i32) -> (r: Self)
        ensures
            r.message == message,
            r.exit_code == exit_code,
    {
        CliError { message, exit_code }
    }

    /// A general failure (exit code 1).
    pub fn general(message: String) -> (r: Self)
        ensures
            r.message == message,
            r.exit_code == EXIT_GENERAL,
    {
        Self::new(message, EXIT_GENERAL)
    }

    /// A usage or validation failure (exit code 64).
    pub fn usage(message: String) -> (r: Self)
        ensures
            r.message == message,
            r.exit_code == EXIT_USAGE,
    {
        Self::new(message, EXIT_USAGE)
    }
}

impl From<String> for CliError {
    /// A general failure with this message.
    fn from(message: String) -> (r: Self) {
        Self::general(message)
    }
}

impl vstd::std_specs::convert::FromSpecImpl<String> for CliError {
    open spec fn obeys_from_spec() -> bool {
        true
    }

    open spec fn from_spec(message: String) -> CliError {
        CliError { message, exit_code: EXIT_GENERAL }
    }
}

/// The three pieces one after another.
fn concat3(a: &str, b: &str, c: &str) -> (r: String)
    ensures
        r@ == a@ + b@ + c@,
{
    let mut r = a.to_owned();
    r.append(b);
    r.append(c);
    r
}

/// Whether two strings hold the same characters.
fn same_text(a: &str, b: &str) -> (r: bool)
    ensures
        r == (a@ == b@),
{
    a.to_owned() == b.to_owned()
}

/// Names of the configuration keys, comma separated.
pub open spec fn valid_keys_text() -> Seq<char> {
    "transcription_mode, ptt_hotkeys"@
}

/// Whether `key` names a configuration key.
pub open spec fn is_valid_key(key: Seq<char>) -> bool {
    key == "transcription_mode"@ || key == "ptt_hotkeys"@
}

/// Accepts the known configuration keys; any other is a usage error that
/// names the key and lists the valid ones.
pub fn validate_config_key(key: &str) -> (r: Result<(), CliError>)
    ensures
        is_valid_key(key@) <==> r.is_ok(),
        r matches Err(e) ==> e.exit_code == EXIT_USAGE
            && e.message@ == "Unknown configuration key '"@ + key@ + "'. Valid keys: "@ + valid_keys_text(),
{
    if same_text(key, "transcription_mode") || same_text(key, "ptt_hotkeys") {
        Ok(())
    } else {
        let head = concat3("Unknown configuration key '", key, "'. Valid keys: ");
        let message = concat3(head.as_str(), "transcription_mode, ptt_hotkeys", "");
        proof {
            reveal_strlit("");
            assert(message@ =~= "Unknown configuration key '"@ + key@ + "'. Valid keys: "@ + valid_keys_text());
        }
        Err(CliError::usage(message))
    }
}

/// The name of a transcription mode in configuration values.
pub open spec fn mode_name(mode: TranscriptionMode) -> Seq<char> {
    match mode {
        TranscriptionMode::Automatic => "automatic"@,
        TranscriptionMode::PushToTalk => "push_to_talk"@,
    }
}

/// Name of a transcription mode as configuration values write it.
pub fn transcription_mode_name(mode: TranscriptionMode) -> (r: &'static str)
    ensures
        r@ == mode_name(mode),
{
    match mode {
        TranscriptionMode::Automatic => "automatic",
        TranscriptionMode::PushToTalk => "push_to_talk",
    }
}

/// Reads a transcription mode by name; any other value is a usage error.
pub fn parse_transcription_mode(value: &str) -> (r: Result<TranscriptionMode, CliError>)
    ensures
        value@ == "automatic"@ ==> r == Ok::<TranscriptionMode, CliError>(TranscriptionMode::Automatic),
        value@ == "push_to_talk"@ ==> r == Ok::<TranscriptionMode, CliError>(TranscriptionMode::PushToTalk),
        value@ != "automatic"@ && value@ != "push_to_talk"@ ==> (r matches Err(e) && e.exit_code == EXIT_USAGE
            && e.message@ == "Invalid value '"@ + value@ + "' for transcription_mode. Expected: automatic, push_to_talk"@),
{
    proof {
        reveal_strlit("automatic");
        reveal_strlit("push_to_talk");
        assert("automatic"@[0] != "push_to_talk"@[0]);
        assert("automatic"@ != "push_to_talk"@);
    }
    if same_text(value, "automatic") {
        Ok(TranscriptionMode::Automatic)
    } else if same_text(value, "push_to_talk") {
        Ok(TranscriptionMode::PushToTalk)
    } else {
        let message = concat3("Invalid value '", value, "' for transcription_mode. Expected: automatic, push_to_talk");
        Err(CliError::usage(message))
    }
}

/// `parts` joined with `sep` between neighbours.
pub open spec fn join(parts: Seq<Seq<char>>, sep: Seq<char>) -> Seq<char>
    decreases parts.len(),
{
    if parts.len() == 0 {
        Seq::empty()
    } else if parts.len() == 1 {
        parts[0]
    } else {
        join(parts.drop_last(), sep) + sep + parts.last()
    }
}

/// A chord as shown to people: its keys joined by `+`.
pub open spec fn chord_text(h: HotkeyCombination) -> Seq<char> {
    join(h.keys@.map_values(|k: String| k@), "+"@)
}

/// The chords joined by `, `, or `(none)` when there are none.
pub open spec fn hotkeys_text(hotkeys: Seq<HotkeyCombination>) -> Seq<char> {
    if hotkeys.len() == 0 {
        "(none)"@
    } else {
        join(hotkeys.map_values(|h: HotkeyCombination| chord_text(h)), ", "@)
    }
}

/// Joins `parts` with `sep`.
fn join_strings(parts: &Vec<String>, sep: &str) -> (r: String)
    ensures
        r@ == join(parts@.map_values(|p: String| p@), sep@),
{
    let ghost views = parts@.map_values(|p: String| p@);
    let mut out = String::new();
    let mut i: usize = 0;
    while i < parts.len()
        invariant
            i <= parts@.len(),
            views == parts@.map_values(|p: String| p@),
            out@ == join(views.take(i as int), sep@),
        decreases parts@.len() - i,
    {
        proof {
            assert(views.take(i as int + 1).drop_last() =~= views.take(i as int));
        }
        if i == 0 {
            out = concat3("", parts[i].as_str(), "");
            proof {
                reveal_strlit("");
                assert(out@ =~= views.take(1)[0]);
            }
        } else {
            out = concat3(out.as_str(), sep, parts[i].as_str());
        }
        i = i + 1;
    }
    proof {
        assert(views.take(parts@.len() as int) =~= views);
    }
    out
}

impl HotkeyCombination {
    /// The chord as shown to people: its keys joined by `+`.
    pub fn display(&self) -> (r: String)
        ensures
            r@ == chord_text(*self),
    {
        join_strings(&self.keys, "+")
    }
}

/// The chords as shown to people, joined by `, `; `(none)` when empty.
pub fn format_hotkeys_display(hotkeys: &Vec<HotkeyCombination>) -> (r: String)
    ensures
        r@ == hotkeys_text(hotkeys@),
{
    if hotkeys.len() == 0 {
        return "(none)".to_owned();
    }
    let mut shown: Vec<String> = Vec::new();
    let mut i: usize = 0;
    while i < hotkeys.len()
        invariant
            i <= hotkeys@.len(),
            shown@.len() == i,
            forall|j: int| 0 <= j < i ==> (#[trigger] shown@[j])@ == chord_text(hotkeys@[j]),
        decreases hotkeys@.len() - i,
    {
        shown.push(hotkeys[i].display());
        i = i + 1;
    }
    let r = join_strings(&shown, ", ");
    proof {
        assert(shown@.map_values(|p: String| p@) =~= hotkeys@.map_values(|h: HotkeyCombination| chord_text(h)));
    }
    r
}

} // verus!
