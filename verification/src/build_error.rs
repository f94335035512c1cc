//! Errors of the build-time steps that prepare a Flutter application.
use vstd::prelude::*;
use vstd::string::StringExecFns;
use yaml_rust::ScanError;

verus! {

/// The file system operation that failed.
#[derive(Clone, Copy, PartialEq, Eq, Structural, Debug)]
pub enum FileOperation {
    CreateDir,
    Copy,
    Move,
    Remove,
    RemoveDir,
    Read,
    Write,
    Open,
    Create,
    SymLink,
    MetaData,
    CopyDir,
    MkDir,
    ReadDir,
    Canonicalize,
    Command,
    Unarchive,
}

/// Why a build step failed.
#[derive(Debug)]
pub enum BuildError {
    /// An external tool ran and reported failure.
    ToolError { command: String, status: Option<i32>, stderr: String, stdout: String },
    FlutterNotFoundError,
    FlutterPathInvalidError { path: String },
    FlutterLocalEngineNotFound,
    /// A file system operation failed; `source` is the system's message.
    FileOperationError {
        operation: FileOperation,
        path: String,
        source_path: Option<String>,
        source: String,
    },
    /// A JSON text could not be read or written; `source` is the reason.
    JsonError { text: Option<String>, source: String },
    /// A YAML text could not be read.
    YamlError { source: ScanError },
    OtherError(String),
}

/// Result of a build step.
pub type BuildResult<T> = Result<T, BuildError>;

/// The name of a file operation, as its message shows it.
pub open spec fn operation_name(op: FileOperation) -> Seq<char> {
    match op {
        FileOperation::CreateDir => "CreateDir"@,
        FileOperation::Copy => "Copy"@,
        FileOperation::Move => "Move"@,
        FileOperation::Remove => "Remove"@,
        FileOperation::RemoveDir => "RemoveDir"@,
        FileOperation::Read => "Read"@,
        FileOperation::Write => "Write"@,
        FileOperation::Open => "Open"@,
        FileOperation::Create => "Create"@,
        FileOperation::SymLink => "SymLink"@,
        FileOperation::MetaData => "MetaData"@,
        FileOperation::CopyDir => "CopyDir"@,
        FileOperation::MkDir => "MkDir"@,
        FileOperation::ReadDir => "ReadDir"@,
        FileOperation::Canonicalize => "Canonicalize"@,
        FileOperation::Command => "Command"@,
        FileOperation::Unarchive => "Unarchive"@,
    }
}

impl FileOperation {
    /// The operation's name.
    pub fn name(&self) -> (r: &'static str)
        ensures
            r@ == operation_name(*self),
    {
        match self {
            FileOperation::CreateDir => "CreateDir",
            FileOperation::Copy => "Copy",
            FileOperation::Move => "Move",
            FileOperation::Remove => "Remove",
            FileOperation::RemoveDir => "RemoveDir",
            FileOperation::Read => "Read",
            FileOperation::Write => "Write",
            FileOperation::Open => "Open",
            FileOperation::Create => "Create",
            FileOperation::SymLink => "SymLink",
            FileOperation::MetaData => "MetaData",
            FileOperation::CopyDir => "CopyDir",
            FileOperation::MkDir => "MkDir",
            FileOperation::ReadDir => "ReadDir",
            FileOperation::Canonicalize => "Canonicalize",
            FileOperation::Command => "Command",
            FileOperation::Unarchive => "Unarchive",
        }
    }
}

/// What the `Debug` format of std makes of a string: the text quoted, with
/// its special characters escaped.
pub uninterp spec fn quoted_text(s: Seq<char>) -> Seq<char>;

/// Formats `s` with the `Debug` format of std (`format!("{:?}", s)`).
///
/// Claimed: the text depends on the string alone; it is named `quoted_text`.
#[verifier::external_body]
fn quoted(s: &str) -> (r: String)
    ensures
        r@ == quoted_text(s@),
{
    format!("{:?}", s)
}

/// What the `Debug` format of std makes of an exit status: `None`, or
/// `Some(`, the code in decimal and `)`.
pub uninterp spec fn status_text(status: Option<i32>) -> Seq<char>;

/// Formats `status` with the `Debug` format of std (`format!("{:?}", status)`).
///
/// Claimed: the text depends on the status alone; it is named `status_text`.
#[verifier::external_body]
fn status_debug(status: Option<i32>) -> (r: String)
    ensures
        r@ == status_text(status),
{
    format!("{:?}", status)
}

/// The `Display` text of the `yaml_rust` scan error `e`. Nothing is claimed
/// of the text.
#[verifier::external_body]
fn scan_error_text(e: &ScanError) -> (r: String) {
    format!("{}", e)
}

/// The message when no Flutter installation is found.
pub open spec fn flutter_not_found_text() -> Seq<char> {
    "Couldn't find Flutter installation. Plase make sure 'flutter' executable is in PATH or specify 'flutter_path' in FlutterOptions"@
}

/// The message when no local engine source is found.
pub open spec fn local_engine_not_found_text() -> Seq<char> {
    "Could not find path for local Flutter engine. Either specify a valid 'local_engine_src_path', or make sure that engine project exists alongside the Flutter project."@
}

/// The message of a build error of any kind but a YAML error, whose text
/// the YAML reader makes.
pub open spec fn message_text(e: &BuildError) -> Seq<char> {
    match e {
        BuildError::ToolError { command, status, stderr, stdout } => "External Tool Failed!\nStatus: "@
            + status_text(*status) + "\nCommand: "@ + command@ + "\nStderr:\n"@ + stderr@
            + "\nStdout:\n"@ + stdout@,
        BuildError::FileOperationError { operation, path, source_path, source } => match source_path {
            Some(sp) => "File operation failed: "@ + operation_name(*operation) + ", target path: "@
                + quoted_text(path@) + ", source path: "@ + quoted_text(sp@) + ", error: "@
                + source@,
            None => "File operation failed: "@ + operation_name(*operation) + ", path: "@
                + quoted_text(path@) + ", error: "@ + source@,
        },
        BuildError::JsonError { text, source } => match text {
            Some(t) => "JSON operation failed: $"@ + source@ + "Text:\n"@ + t@,
            None => "JSON operation failed: $"@ + source@,
        },
        BuildError::YamlError { .. } => Seq::empty(),
        BuildError::OtherError(err) => err@,
        BuildError::FlutterNotFoundError => flutter_not_found_text(),
        BuildError::FlutterPathInvalidError { path } => "Flutter path "@ + quoted_text(path@)
            + " does not point to a valid flutter installation"@,
        BuildError::FlutterLocalEngineNotFound => local_engine_not_found_text(),
    }
}

fn text_of(s: &str) -> (r: String)
    ensures
        r@ == s@,
{
    s.to_string()
}

impl BuildError {
    /// The message that tells what went wrong (see `message_text`; for a
    /// YAML error, the YAML reader's own text).
    pub fn message(&self) -> (r: String)
        ensures
            !(self is YamlError) ==> r@ == message_text(self),
    {
        match self {
            BuildError::ToolError { command, status, stderr, stdout } => {
                let r = text_of("External Tool Failed!\nStatus: ");
                let r = r.concat(status_debug(*status).as_str());
                let r = r.concat("\nCommand: ").concat(command.as_str());
                let r = r.concat("\nStderr:\n").concat(stderr.as_str());
                r.concat("\nStdout:\n").concat(stdout.as_str())
            },
            BuildError::FileOperationError { operation, path, source_path, source } => {
                let r = text_of("File operation failed: ").concat(operation.name());
                match source_path {
                    Some(sp) => {
                        let r = r.concat(", target path: ").concat(quoted(path.as_str()).as_str());
                        let r = r.concat(", source path: ").concat(quoted(sp.as_str()).as_str());
                        r.concat(", error: ").concat(source.as_str())
                    },
                    None => {
                        let r = r.concat(", path: ").concat(quoted(path.as_str()).as_str());
                        r.concat(", error: ").concat(source.as_str())
                    },
                }
            },
            BuildError::JsonError { text, source } => {
                let r = text_of("JSON operation failed: $").concat(source.as_str());
                match text {
                    Some(t) => r.concat("Text:\n").concat(t.as_str()),
                    None => r,
                }
            },
            BuildError::YamlError { source } => scan_error_text(source),
            BuildError::OtherError(err) => err.clone(),
            BuildError::FlutterNotFoundError => text_of(
                "Couldn't find Flutter installation. Plase make sure 'flutter' executable is in PATH or specify 'flutter_path' in FlutterOptions",
            ),
            BuildError::FlutterPathInvalidError { path } => {
                let r = text_of("Flutter path ").concat(quoted(path.as_str()).as_str());
                r.concat(" does not point to a valid flutter installation")
            },
            BuildError::FlutterLocalEngineNotFound => text_of(
                "Could not find path for local Flutter engine. Either specify a valid 'local_engine_src_path', or make sure that engine project exists alongside the Flutter project.",
            ),
        }
    }
}

} // verus!
