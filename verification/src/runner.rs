//! What running a step leaves behind, and how its end is judged.

use crate::config_model::EffectiveCommand;
use crate::ids::StepAttemptId;
#[allow(unused_imports)]
use crate::scan::begins_with;
use crate::text::{contains_text, split_str, str_equal};
#[allow(unused_imports)]
use crate::text::{split_text, texts};
use vstd::prelude::*;
use vstd::utf8::encode_utf8;

verus! {

/// Why running a step came to nothing.
#[derive(Clone, Debug, PartialEq, Eq)]
pub enum RunnerError {
    Spawn(String),
    LogFrame(String),
    Interrupted(String),
    WorkspaceDirty(String),
    Environment(String),
}

impl RunnerError {
    /// The message shown for the error.
    pub open spec fn text(self) -> Seq<char> {
        match self {
            RunnerError::Spawn(reason) => "could not start command: "@ + reason@,
            RunnerError::LogFrame(reason) => "log serialization failed: "@ + reason@,
            RunnerError::Interrupted(reason) => "command supervision was interrupted: "@ + reason@,
            RunnerError::WorkspaceDirty(reason) => "workspace verification failed: "@ + reason@,
            RunnerError::Environment(reason) => "login-shell environment bootstrap failed: "@
                + reason@,
        }
    }

    /// The message shown for the error.
    pub fn message(&self) -> (r: String)
        ensures
            r@ == self.text(),
    {
        match self {
            RunnerError::Spawn(reason) => {
                "could not start command: ".to_owned().concat(reason.as_str())
            },
            RunnerError::LogFrame(reason) => {
                "log serialization failed: ".to_owned().concat(reason.as_str())
            },
            RunnerError::Interrupted(reason) => {
                "command supervision was interrupted: ".to_owned().concat(reason.as_str())
            },
            RunnerError::WorkspaceDirty(reason) => {
                "workspace verification failed: ".to_owned().concat(reason.as_str())
            },
            RunnerError::Environment(reason) => {
                "login-shell environment bootstrap failed: ".to_owned().concat(reason.as_str())
            },
        }
    }

    /// The error says that supervision was interrupted, for this reason.
    pub open spec fn interrupted_by(self, reason: Seq<char>) -> bool {
        self matches RunnerError::Interrupted(text) && text@ == reason
    }

    /// The error says that supervision was interrupted, for a reason that begins like this.
    pub open spec fn interrupted_with(self, start: Seq<char>) -> bool {
        self matches RunnerError::Interrupted(text) && begins_with(text@, start)
    }

    /// The error says that the workspace is not clean, for this reason.
    pub open spec fn dirtied_by(self, reason: Seq<char>) -> bool {
        self matches RunnerError::WorkspaceDirty(text) && text@ == reason
    }
}

/// Supervision was interrupted.
pub(crate) fn interrupted(reason: &str) -> (r: RunnerError)
    ensures
        r.interrupted_by(reason@),
{
    RunnerError::Interrupted(reason.to_owned())
}

/// An output stream of a step.
#[derive(Clone, Copy, Debug, PartialEq, Eq, Structural)]
pub enum LogStream {
    Stdout,
    Stderr,
}

impl LogStream {
    /// The stream as it is written.
    pub open spec fn wire_name(self) -> Seq<char> {
        match self {
            LogStream::Stdout => "stdout"@,
            LogStream::Stderr => "stderr"@,
        }
    }

    /// The stream as it is written.
    pub fn as_str(self) -> (r: &'static str)
        ensures
            r@ == self.wire_name(),
    {
        match self {
            LogStream::Stdout => "stdout",
            LogStream::Stderr => "stderr",
        }
    }

    /// The stream that is written so.
    pub open spec fn named(text: Seq<char>) -> Option<LogStream> {
        if text == "stdout"@ {
            Some(LogStream::Stdout)
        } else if text == "stderr"@ {
            Some(LogStream::Stderr)
        } else {
            None
        }
    }

    /// Reads what `as_str` writes.
    pub fn parse(text: &str) -> (r: Option<LogStream>)
        ensures
            r == LogStream::named(text@),
    {
        if str_equal(text, "stdout") {
            Some(LogStream::Stdout)
        } else if str_equal(text, "stderr") {
            Some(LogStream::Stderr)
        } else {
            None
        }
    }
}

/// A log that is complete, with the ends of its streams and its digest.
#[derive(Clone, Debug, PartialEq, Eq)]
pub struct SealedLog {
    pub stdout_end: u64,
    pub stderr_end: u64,
    pub broker_sequence_end: u64,
    pub hash: String,
    pub path: String,
}

/// How a step ended.
#[derive(Clone, Copy, Debug, PartialEq, Eq, Structural)]
pub enum StepResultClass {
    Success,
    ExitFailure,
    Timeout,
    Canceled,
    Interrupted,
    SpawnFailure,
}

impl StepResultClass {
    /// The class as it is written.
    pub open spec fn wire_name(self) -> Seq<char> {
        match self {
            StepResultClass::Success => "success"@,
            StepResultClass::ExitFailure => "exit-failure"@,
            StepResultClass::Timeout => "timeout"@,
            StepResultClass::Canceled => "canceled"@,
            StepResultClass::Interrupted => "interrupted"@,
            StepResultClass::SpawnFailure => "spawn-failure"@,
        }
    }

    /// The class as it is written.
    pub fn as_str(self) -> (r: &'static str)
        ensures
            r@ == self.wire_name(),
    {
        match self {
            StepResultClass::Success => "success",
            StepResultClass::ExitFailure => "exit-failure",
            StepResultClass::Timeout => "timeout",
            StepResultClass::Canceled => "canceled",
            StepResultClass::Interrupted => "interrupted",
            StepResultClass::SpawnFailure => "spawn-failure",
        }
    }
}

/// A command that repairs what a diagnostic complains of.
#[derive(Clone, Debug, PartialEq, Eq)]
pub enum RepairCommand {
    Argv { argv: Vec<String> },
}

/// A complaint that a step hands over in structured form.
#[derive(Clone, Debug, PartialEq, Eq)]
pub struct StepDiagnostic {
    pub code: String,
    pub message: String,
    pub paths: Vec<String>,
    pub repair: Option<RepairCommand>,
}

/// What a `StepDiagnostic` says.
pub struct DiagnosticView {
    pub code: Seq<char>,
    pub message: Seq<char>,
    pub paths: Seq<Seq<char>>,
    pub repair: Option<Seq<Seq<char>>>,
}

impl View for StepDiagnostic {
    type V = DiagnosticView;

    open spec fn view(&self) -> DiagnosticView {
        DiagnosticView {
            code: self.code@,
            message: self.message@,
            paths: texts(self.paths@),
            repair: match self.repair {
                Some(RepairCommand::Argv { argv }) => Some(texts(argv@)),
                None => None,
            },
        }
    }
}

/// What running a step came to.
#[derive(Clone, Debug, PartialEq, Eq)]
pub struct StepResult {
    pub attempt_id: StepAttemptId,
    pub class: StepResultClass,
    pub exit_code: Option<i32>,
    pub signal: Option<i32>,
    pub elapsed_ms: u64,
    pub log: SealedLog,
    pub diagnostics: Vec<StepDiagnostic>,
}

/// A signal by which a process is ended from outside: hang-up, interrupt, kill or
/// terminate.
pub open spec fn is_control_signal(signal: int) -> bool {
    signal == 1 || signal == 2 || signal == 9 || signal == 15
}

/// The command was ended from outside: by such a signal, or, within a shell, with the
/// exit code by which a shell reports one.
pub open spec fn ended_from_outside(
    command: EffectiveCommand,
    exit_code: Option<i32>,
    signal: Option<i32>,
) -> bool {
    ||| signal matches Some(value) && is_control_signal(value as int)
    ||| command is Shell && (exit_code matches Some(value) && is_control_signal(value - 128))
}

fn control_signal(signal: i32) -> (r: bool)
    ensures
        r == is_control_signal(signal as int),
{
    signal == 1 || signal == 2 || signal == 9 || signal == 15
}

/// Whether a command was ended from outside.
pub fn externally_terminated(
    command: &EffectiveCommand,
    exit_code: Option<i32>,
    signal: Option<i32>,
) -> (r: bool)
    ensures
        r == ended_from_outside(*command, exit_code, signal),
{
    if let Some(value) = signal {
        if control_signal(value) {
            return true;
        }
    }
    match command {
        EffectiveCommand::Shell { script: _ } => match exit_code {
            Some(value) => match value.checked_sub(128) {
                Some(number) => control_signal(number),
                None => false,
            },
            None => false,
        },
        EffectiveCommand::Argv { argv: _ } => false,
    }
}

/// The diagnostic by which a step that broke out of its session is reported.
pub fn containment_diagnostics(message: Option<String>) -> (r: Vec<StepDiagnostic>)
    ensures
        message is None ==> r@.len() == 0,
        message matches Some(text) ==> {
            &&& r@.len() == 1
            &&& r@[0].code@ == "tollgate.containment-escape"@
            &&& r@[0].message == text
            &&& r@[0].paths@.len() == 0
            &&& r@[0].repair is None
        },
{
    let mut out: Vec<StepDiagnostic> = Vec::new();
    if let Some(message) = message {
        out.push(
            StepDiagnostic {
                code: "tollgate.containment-escape".to_owned(),
                message,
                paths: Vec::new(),
                repair: None,
            },
        );
    }
    out
}

/// A character of a diagnostic code.
pub open spec fn is_code_char(c: char) -> bool {
    ('a' <= c <= 'z') || ('0' <= c <= '9') || c == '.' || c == '-' || c == '_'
}

/// A diagnostic code: up to 128 lower-case letters, digits, dots, hyphens and underscores.
pub open spec fn is_code(code: Seq<char>) -> bool {
    &&& 0 < code.len() <= 128
    &&& forall|i: int| 0 <= i < code.len() ==> is_code_char(#[trigger] code[i])
}

/// A path below the root of the repository that never steps upwards.
pub open spec fn is_inner_path(path: Seq<char>) -> bool {
    &&& path.len() > 0
    &&& path[0] != '/'
    &&& !split_text(path, '/').contains(".."@)
}

/// Every path of a diagnostic lies within the repository.
pub open spec fn all_inner_paths(paths: Seq<Seq<char>>) -> bool {
    forall|i: int| 0 <= i < paths.len() ==> is_inner_path(#[trigger] paths[i])
}

/// A repair command of at most 64 arguments of at most 4096 bytes each.
pub open spec fn is_bounded_argv(argv: Seq<Seq<char>>) -> bool {
    &&& 0 < argv.len() <= 64
    &&& forall|i: int| 0 <= i < argv.len() ==> encode_utf8(#[trigger] argv[i]).len() <= 4096
}

/// Why a diagnostic is refused.
pub open spec fn diagnostic_fault(diagnostic: DiagnosticView) -> Option<Seq<char>> {
    let message = encode_utf8(diagnostic.message);
    if !is_code(diagnostic.code) {
        Some("code must be 1-128 lowercase ASCII letters, digits, '.', '-' or '_'"@)
    } else if message.len() == 0 || message.len() > 4096 {
        Some("message must be 1-4096 bytes"@)
    } else if diagnostic.paths.len() > 128 {
        Some("paths exceeds 128 entries"@)
    } else if !all_inner_paths(diagnostic.paths) {
        Some("paths must be non-empty repository-relative paths without '..'"@)
    } else {
        match diagnostic.repair {
            Some(argv) => if is_bounded_argv(argv) {
                None
            } else {
                Some("repair argv must contain 1-64 bounded arguments"@)
            },
            None => None,
        }
    }
}

fn valid_code(code: &str) -> (r: bool)
    ensures
        r == is_code(code@),
{
    let chars = crate::text::chars_of(code);
    if chars.len() == 0 || chars.len() > 128 {
        return false;
    }
    let mut i: usize = 0;
    while i < chars.len()
        invariant
            chars@ == code@,
            i <= chars@.len(),
            forall|j: int| 0 <= j < i ==> is_code_char(#[trigger] code@[j]),
        decreases chars@.len() - i,
    {
        let c = chars[i];
        if !(('a' <= c && c <= 'z') || ('0' <= c && c <= '9') || c == '.' || c == '-' || c == '_') {
            return false;
        }
        i += 1;
    }
    true
}

/// Whether a path lies within the repository.
pub fn inner_path(path: &str) -> (r: bool)
    ensures
        r == is_inner_path(path@),
{
    let chars = crate::text::chars_of(path);
    if chars.len() == 0 || chars[0] == '/' {
        return false;
    }
    let parts = split_str(path, '/');
    !contains_text(&parts, "..")
}

fn inner_paths(paths: &Vec<String>) -> (r: bool)
    ensures
        r == all_inner_paths(texts(paths@)),
{
    let ghost all = texts(paths@);
    let mut i: usize = 0;
    while i < paths.len()
        invariant
            i <= paths@.len(),
            all == texts(paths@),
            forall|j: int| 0 <= j < i ==> is_inner_path(#[trigger] all[j]),
        decreases paths@.len() - i,
    {
        assert(all[i as int] == paths@[i as int]@);
        if !inner_path(paths[i].as_str()) {
            return false;
        }
        i += 1;
    }
    true
}

fn bounded_argv(argv: &Vec<String>) -> (r: bool)
    ensures
        r == is_bounded_argv(texts(argv@)),
{
    let ghost all = texts(argv@);
    if argv.len() == 0 || argv.len() > 64 {
        return false;
    }
    let mut i: usize = 0;
    while i < argv.len()
        invariant
            i <= argv@.len(),
            all == texts(argv@),
            forall|j: int| 0 <= j < i ==> encode_utf8(#[trigger] all[j]).len() <= 4096,
        decreases argv@.len() - i,
    {
        assert(all[i as int] == argv@[i as int]@);
        if argv[i].as_str().as_bytes().len() > 4096 {
            return false;
        }
        i += 1;
    }
    true
}

/// Accepts a diagnostic, or says why it is refused.
pub fn validate_step_diagnostic(diagnostic: &StepDiagnostic) -> (r: Result<(), String>)
    ensures
        r is Ok <==> diagnostic_fault(diagnostic@) is None,
        r matches Err(message) ==> diagnostic_fault(diagnostic@) == Some(message@),
{
    if !valid_code(diagnostic.code.as_str()) {
        return Err(
            "code must be 1-128 lowercase ASCII letters, digits, '.', '-' or '_'".to_owned(),
        );
    }
    let length: usize = diagnostic.message.as_str().as_bytes().len();
    if length == 0 || length > 4096 {
        return Err("message must be 1-4096 bytes".to_owned());
    }
    if diagnostic.paths.len() > 128 {
        return Err("paths exceeds 128 entries".to_owned());
    }
    if !inner_paths(&diagnostic.paths) {
        return Err("paths must be non-empty repository-relative paths without '..'".to_owned());
    }
    if let Some(RepairCommand::Argv { argv }) = &diagnostic.repair {
        if !bounded_argv(argv) {
            return Err("repair argv must contain 1-64 bounded arguments".to_owned());
        }
    }
    Ok(())
}

} // verus!
