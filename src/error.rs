use vstd::prelude::*;
use vstd::string::StringExecFns;

verus! {

#[verifier::external_type_specification]
#[verifier::external_body]
pub struct ExIoError(std::io::Error);

/// The result type of the engine.
pub type Result<T> = std::result::Result<T, Error>;

/// Everything that can go wrong while building a context or generating a project.
#[derive(Debug)]
pub enum Error {
    /// A filesystem operation failed.
    IoError(std::io::Error),
    /// A template file could not be rendered.
    TemplateError(String),
    /// The requested template is not in the catalog.
    TemplateNotFound(String),
    /// A template file is not valid text, or the target cannot be used.
    InvalidTemplate(String),
    /// A path could not be formed.
    InvalidPath(String),
    /// The project identifier is not of the form `namespace/name`.
    InvalidProjectName(String),
    /// A concurrent unit of work ended abnormally.
    TaskFailure(String),
}

/// The text shown for an error whose detail is a plain string.
pub open spec fn message_of(prefix: Seq<char>, detail: Seq<char>) -> Seq<char> {
    prefix + detail
}

pub open spec fn error_prefix(e: Error) -> Seq<char> {
    match e {
        Error::IoError(_) => "IO error: "@,
        Error::TemplateError(_) => "Template error: "@,
        Error::TemplateNotFound(_) => "Template not found: "@,
        Error::InvalidTemplate(_) => "Invalid template: "@,
        Error::InvalidPath(_) => "Invalid path: "@,
        Error::InvalidProjectName(_) => "Invalid project name: "@,
        Error::TaskFailure(_) => "Task failed: "@,
    }
}

/// Relies on std::io::Error's `Display`: the operating system's description of the failure.
#[verifier::external_body]
fn io_error_text(e: &std::io::Error) -> (r: String) {
    e.to_string()
}

impl Error {
    /// The human-readable description: a fixed prefix naming the kind, then the detail.
    pub fn to_string(&self) -> (r: String)
        ensures
            error_prefix(*self).is_prefix_of(r@),
            match *self {
                Error::IoError(_) => true,
                Error::TemplateError(d) => r@ == message_of(error_prefix(*self), d@),
                Error::TemplateNotFound(d) => r@ == message_of(error_prefix(*self), d@),
                Error::InvalidTemplate(d) => r@ == message_of(error_prefix(*self), d@),
                Error::InvalidPath(d) => r@ == message_of(error_prefix(*self), d@),
                Error::InvalidProjectName(d) => r@ == message_of(error_prefix(*self), d@),
                Error::TaskFailure(d) => r@ == message_of(error_prefix(*self), d@),
            },
    {
        let (prefix, detail) = match self {
            Error::IoError(e) => ("IO error: ", io_error_text(e)),
            Error::TemplateError(d) => ("Template error: ", d.clone()),
            Error::TemplateNotFound(d) => ("Template not found: ", d.clone()),
            Error::InvalidTemplate(d) => ("Invalid template: ", d.clone()),
            Error::InvalidPath(d) => ("Invalid path: ", d.clone()),
            Error::InvalidProjectName(d) => ("Invalid project name: ", d.clone()),
            Error::TaskFailure(d) => ("Task failed: ", d.clone()),
        };
        let r = String::from_str(prefix).concat(detail.as_str());
        proof {
            assert(error_prefix(*self).is_prefix_of(r@)) by {
                assert(r@.subrange(0, prefix@.len() as int) =~= prefix@);
            }
        }
        r
    }
}

impl From<std::io::Error> for Error {
    fn from(e: std::io::Error) -> (r: Error)
        ensures
            r == Error::IoError(e),
    {
        Error::IoError(e)
    }
}

impl vstd::std_specs::convert::FromSpecImpl<std::io::Error> for Error {
    open spec fn obeys_from_spec() -> bool {
        true
    }

    open spec fn from_spec(e: std::io::Error) -> Error {
        Error::IoError(e)
    }
}

} // verus!
