//! The failures of a build or run request.

use vstd::prelude::*;

verus! {

/// Why a request could not be completed. Every failure is final: nothing is
/// retried.
#[derive(Clone, Debug, PartialEq, Eq)]
pub enum Error {
    /// The configuration file at `path` is malformed.
    ConfigParse { path: String },
    /// The configuration file at `path` could not be read.
    ConfigIo { path: String },
    /// The source file's name has no extension.
    MissingExtension,
    /// No language entry is configured for `extension`.
    UnknownLanguage { extension: String },
    /// Placeholder substitution failed on `template`.
    TemplateFormat { template: String },
    /// The shell could not be started for `command`.
    ProcessSpawn { command: String },
    /// The shell ran `command` and did not exit with status zero. `code` is
    /// absent when a signal ended the process. `stdout` and `stderr` hold
    /// what the command had written, for the caller to pass on.
    CommandFailure { command: String, code: Option<i32>, stdout: Vec<u8>, stderr: Vec<u8> },
    /// Feeding input to `command` or collecting its output failed.
    Io { command: String },
}

/// The mathematical content of an [`Error`].
pub ghost enum ErrorView {
    ConfigParse { path: Seq<char> },
    ConfigIo { path: Seq<char> },
    MissingExtension,
    UnknownLanguage { extension: Seq<char> },
    TemplateFormat { template: Seq<char> },
    ProcessSpawn { command: Seq<char> },
    CommandFailure { command: Seq<char>, code: Option<i32>, stdout: Seq<u8>, stderr: Seq<u8> },
    Io { command: Seq<char> },
}

impl View for Error {
    type V = ErrorView;

    open spec fn view(&self) -> ErrorView {
        match self {
            Error::ConfigParse { path } => ErrorView::ConfigParse { path: path@ },
            Error::ConfigIo { path } => ErrorView::ConfigIo { path: path@ },
            Error::MissingExtension => ErrorView::MissingExtension,
            Error::UnknownLanguage { extension } => ErrorView::UnknownLanguage {
                extension: extension@,
            },
            Error::TemplateFormat { template } => ErrorView::TemplateFormat { template: template@ },
            Error::ProcessSpawn { command } => ErrorView::ProcessSpawn { command: command@ },
            Error::CommandFailure { command, code, stdout, stderr } => ErrorView::CommandFailure {
                command: command@,
                code: *code,
                stdout: stdout@,
                stderr: stderr@,
            },
            Error::Io { command } => ErrorView::Io { command: command@ },
        }
    }
}

/// The content of a fallible text result.
pub open spec fn text_result(r: Result<String, Error>) -> Result<Seq<char>, ErrorView> {
    match r {
        Ok(text) => Ok(text@),
        Err(e) => Err(e@),
    }
}

/// The decimal digit for a number below ten.
pub open spec fn digit(d: int) -> char {
    if d == 0 {
        '0'
    } else if d == 1 {
        '1'
    } else if d == 2 {
        '2'
    } else if d == 3 {
        '3'
    } else if d == 4 {
        '4'
    } else if d == 5 {
        '5'
    } else if d == 6 {
        '6'
    } else if d == 7 {
        '7'
    } else if d == 8 {
        '8'
    } else {
        '9'
    }
}

/// The decimal numeral of a natural number, without leading zeros.
pub open spec fn numeral(n: nat) -> Seq<char>
    decreases n,
{
    if n < 10 {
        seq![digit(n as int)]
    } else {
        numeral(n / 10).push(digit((n % 10) as int))
    }
}

/// The decimal numeral of an integer, with a minus sign where it is negative.
pub open spec fn signed_numeral(n: int) -> Seq<char> {
    if n < 0 {
        seq!['-'] + numeral((-n) as nat)
    } else {
        numeral(n as nat)
    }
}

/// How an exit code reads in a message: its numeral, or `unknown` where a
/// signal ended the process.
pub open spec fn code_text(code: Option<i32>) -> Seq<char> {
    match code {
        Some(status) => signed_numeral(status as int),
        None => "unknown"@,
    }
}

/// The one-line description of a failure.
pub open spec fn message_text(error: ErrorView) -> Seq<char> {
    match error {
        ErrorView::ConfigParse { path } => "Failed to parse config file: "@ + path,
        ErrorView::ConfigIo { path } => "Failed to read config file: "@ + path,
        ErrorView::MissingExtension => "No extension on source file"@,
        ErrorView::UnknownLanguage { extension } => "No language config for extension "@
            + extension,
        ErrorView::TemplateFormat { template } => "Invalid format string: "@ + template,
        ErrorView::ProcessSpawn { command } => "Command execution failed: `"@ + command + "`"@,
        ErrorView::CommandFailure { command, code, .. } => "Command failed: `"@ + command
            + "` (exit code "@ + code_text(code) + ")"@,
        ErrorView::Io { command } => "Failed to exchange data with command: `"@ + command + "`"@,
    }
}

/// The text of one decimal digit.
fn digit_text(d: u64) -> (text: &'static str)
    requires
        d < 10,
    ensures
        text@ == seq![digit(d as int)],
{
    proof {
        reveal_strlit("0");
        reveal_strlit("1");
        reveal_strlit("2");
        reveal_strlit("3");
        reveal_strlit("4");
        reveal_strlit("5");
        reveal_strlit("6");
        reveal_strlit("7");
        reveal_strlit("8");
        reveal_strlit("9");
    }
    let text = if d == 0 {
        "0"
    } else if d == 1 {
        "1"
    } else if d == 2 {
        "2"
    } else if d == 3 {
        "3"
    } else if d == 4 {
        "4"
    } else if d == 5 {
        "5"
    } else if d == 6 {
        "6"
    } else if d == 7 {
        "7"
    } else if d == 8 {
        "8"
    } else {
        "9"
    };
    assert(text@ =~= seq![digit(d as int)]);
    text
}

/// Appends the decimal numeral of `n` to `text`.
fn append_numeral(text: &mut String, n: u64)
    ensures
        final(text)@ == old(text)@ + numeral(n as nat),
    decreases n,
{
    if n >= 10 {
        append_numeral(text, n / 10);
    }
    text.append(digit_text(n % 10));
    assert(text@ =~= old(text)@ + numeral(n as nat));
}

/// Appends an exit code as it reads in a message.
fn append_code(text: &mut String, code: Option<i32>)
    ensures
        final(text)@ == old(text)@ + code_text(code),
{
    match code {
        Some(status) => {
            if status < 0 {
                proof {
                    reveal_strlit("-");
                }
                text.append("-");
                let magnitude: u64 = (-(status as i64)) as u64;
                append_numeral(text, magnitude);
                assert(text@ =~= old(text)@ + code_text(code));
            } else {
                append_numeral(text, status as u64);
            }
        },
        None => {
            text.append("unknown");
        },
    }
}

impl Error {
    /// A one-line description of the failure, with the path or command that
    /// it is about.
    pub fn message(&self) -> (text: String)
        ensures
            text@ == message_text(self@),
    {
        match self {
            Error::ConfigParse { path } => {
                let mut text = "Failed to parse config file: ".to_owned();
                text.append(path.as_str());
                text
            },
            Error::ConfigIo { path } => {
                let mut text = "Failed to read config file: ".to_owned();
                text.append(path.as_str());
                text
            },
            Error::MissingExtension => "No extension on source file".to_owned(),
            Error::UnknownLanguage { extension } => {
                let mut text = "No language config for extension ".to_owned();
                text.append(extension.as_str());
                text
            },
            Error::TemplateFormat { template } => {
                let mut text = "Invalid format string: ".to_owned();
                text.append(template.as_str());
                text
            },
            Error::ProcessSpawn { command } => {
                let mut text = "Command execution failed: `".to_owned();
                text.append(command.as_str());
                text.append("`");
                text
            },
            Error::CommandFailure { command, code, .. } => {
                let mut text = "Command failed: `".to_owned();
                text.append(command.as_str());
                text.append("` (exit code ");
                append_code(&mut text, *code);
                text.append(")");
                text
            },
            Error::Io { command } => {
                let mut text = "Failed to exchange data with command: `".to_owned();
                text.append(command.as_str());
                text.append("`");
                text
            },
        }
    }
}

} // verus!
