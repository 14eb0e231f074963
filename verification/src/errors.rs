//! The error taxonomy of both phases: configuration errors, path errors,
//! unsupported-input errors, encoding errors and use-site coordination
//! errors.  Every variant carries the values its message must name.

use vstd::prelude::*;
use vstd::string::StringExecFns;

verus! {

/// An error arising while preparing assets or resolving a use-site.
#[derive(Debug, Clone, PartialEq, Eq)]
pub enum Error {
    /// A required build-environment variable was absent; holds its name.
    Var(String),
    /// The asset root was not found; holds the requested path and the
    /// current working directory.
    PathNotFound(String, String),
    /// A filesystem entry was neither a regular file nor a directory;
    /// holds its path.
    UnsupportedFileType(String),
    /// The compressor reported a failure; holds its message.
    Io(String),
    /// Object-file synthesis failed; holds the encoder's message.
    Object(String),
    /// An (OS, architecture, endianness) value outside the allow-list;
    /// holds the offending value.
    UnsupportedTarget(String),
    /// A use-site found no length record; holds the expected record file
    /// name and the asset path.
    LenRecordMissing(String, String),
    /// A use-site length record held something besides a decimal length;
    /// holds the record file name.
    LenRecordCorrupt(String),
}

/// The rendered message of each error, naming the values it must name.
pub open spec fn message_chars(e: Error) -> Seq<char> {
    match e {
        Error::Var(name) => "Environment variable '"@ + name@ + "' not set by Cargo"@,
        Error::PathNotFound(path, cwd) => "Path '"@ + path@ + "' not found (current directory is '"@
            + cwd@ + "')"@,
        Error::UnsupportedFileType(path) => "Path '"@ + path@ + "' has unsupported file type"@,
        Error::Io(m) => "I/O error: "@ + m@,
        Error::Object(m) => "Object writing error: "@ + m@,
        Error::UnsupportedTarget(v) => "Unsupported target '"@ + v@ + "'"@,
        Error::LenRecordMissing(record, path) => "Missing length record '"@ + record@
            + "' for asset '"@ + path@ + "'; rerun asset preparation"@,
        Error::LenRecordCorrupt(record) => "Corrupt length record '"@ + record@
            + "'; rerun asset preparation"@,
    }
}

impl Error {
    /// Renders the error message.
    pub fn message(&self) -> (r: String)
        ensures
            r@ == message_chars(*self),
    {
        let mut s: String = String::new();
        match self {
            Error::Var(name) => {
                s.append("Environment variable '");
                s.append(name.as_str());
                s.append("' not set by Cargo");
            },
            Error::PathNotFound(path, cwd) => {
                s.append("Path '");
                s.append(path.as_str());
                s.append("' not found (current directory is '");
                s.append(cwd.as_str());
                s.append("')");
            },
            Error::UnsupportedFileType(path) => {
                s.append("Path '");
                s.append(path.as_str());
                s.append("' has unsupported file type");
            },
            Error::Io(m) => {
                s.append("I/O error: ");
                s.append(m.as_str());
            },
            Error::Object(m) => {
                s.append("Object writing error: ");
                s.append(m.as_str());
            },
            Error::UnsupportedTarget(v) => {
                s.append("Unsupported target '");
                s.append(v.as_str());
                s.append("'");
            },
            Error::LenRecordMissing(record, path) => {
                s.append("Missing length record '");
                s.append(record.as_str());
                s.append("' for asset '");
                s.append(path.as_str());
                s.append("'; rerun asset preparation");
            },
            Error::LenRecordCorrupt(record) => {
                s.append("Corrupt length record '");
                s.append(record.as_str());
                s.append("'; rerun asset preparation");
            },
        }
        proof {
            assert(s@ =~= message_chars(*self));
        }
        s
    }
}

} // verus!
