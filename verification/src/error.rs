use vstd::prelude::*;

verus! {

/// Everything that can go wrong while an address is parsed, chosen or applied.
/// Each variant carries the text that explains the failure.
#[derive(Debug, PartialEq, Eq)]
pub enum MacError {
    ValidationFailed(String),
    PermissionDenied(String),
    SystemError(String),
    InvalidFormat(String),
    NetworkError(String),
    DatabaseError(String),
    VendorNotFound(String),
    IoError(String),
    SerdeError(String),
    ParseError(String),
    UnsupportedPlatform(String),
}

/// The kinds of error, without their texts.
#[derive(Debug, Clone, Copy, PartialEq, Eq, Structural)]
pub enum ErrorKind {
    ValidationFailed,
    PermissionDenied,
    SystemError,
    InvalidFormat,
    NetworkError,
    DatabaseError,
    VendorNotFound,
    IoError,
    SerdeError,
    ParseError,
    UnsupportedPlatform,
}

/// What an error says: its kind and its text.
pub struct Fault {
    pub kind: ErrorKind,
    pub detail: Seq<char>,
}

impl View for MacError {
    type V = Fault;

    open spec fn view(&self) -> Fault {
        Fault { kind: self.spec_kind(), detail: self.detail() }
    }
}

impl Clone for MacError {
    fn clone(&self) -> (copy: MacError)
        ensures
            copy@ == self@,
    {
        match self {
            MacError::ValidationFailed(m) => MacError::ValidationFailed(m.clone()),
            MacError::PermissionDenied(m) => MacError::PermissionDenied(m.clone()),
            MacError::SystemError(m) => MacError::SystemError(m.clone()),
            MacError::InvalidFormat(m) => MacError::InvalidFormat(m.clone()),
            MacError::NetworkError(m) => MacError::NetworkError(m.clone()),
            MacError::DatabaseError(m) => MacError::DatabaseError(m.clone()),
            MacError::VendorNotFound(m) => MacError::VendorNotFound(m.clone()),
            MacError::IoError(m) => MacError::IoError(m.clone()),
            MacError::SerdeError(m) => MacError::SerdeError(m.clone()),
            MacError::ParseError(m) => MacError::ParseError(m.clone()),
            MacError::UnsupportedPlatform(m) => MacError::UnsupportedPlatform(m.clone()),
        }
    }
}

impl MacError {
    /// The kind of the error.
    pub open spec fn spec_kind(&self) -> ErrorKind {
        match self {
            MacError::ValidationFailed(_) => ErrorKind::ValidationFailed,
            MacError::PermissionDenied(_) => ErrorKind::PermissionDenied,
            MacError::SystemError(_) => ErrorKind::SystemError,
            MacError::InvalidFormat(_) => ErrorKind::InvalidFormat,
            MacError::NetworkError(_) => ErrorKind::NetworkError,
            MacError::DatabaseError(_) => ErrorKind::DatabaseError,
            MacError::VendorNotFound(_) => ErrorKind::VendorNotFound,
            MacError::IoError(_) => ErrorKind::IoError,
            MacError::SerdeError(_) => ErrorKind::SerdeError,
            MacError::ParseError(_) => ErrorKind::ParseError,
            MacError::UnsupportedPlatform(_) => ErrorKind::UnsupportedPlatform,
        }
    }

    /// The kind of the error.
    #[verifier::when_used_as_spec(spec_kind)]
    pub fn kind(&self) -> (kind: ErrorKind)
        ensures
            kind == self.spec_kind(),
    {
        match self {
            MacError::ValidationFailed(_) => ErrorKind::ValidationFailed,
            MacError::PermissionDenied(_) => ErrorKind::PermissionDenied,
            MacError::SystemError(_) => ErrorKind::SystemError,
            MacError::InvalidFormat(_) => ErrorKind::InvalidFormat,
            MacError::NetworkError(_) => ErrorKind::NetworkError,
            MacError::DatabaseError(_) => ErrorKind::DatabaseError,
            MacError::VendorNotFound(_) => ErrorKind::VendorNotFound,
            MacError::IoError(_) => ErrorKind::IoError,
            MacError::SerdeError(_) => ErrorKind::SerdeError,
            MacError::ParseError(_) => ErrorKind::ParseError,
            MacError::UnsupportedPlatform(_) => ErrorKind::UnsupportedPlatform,
        }
    }

    /// The text carried by the error.
    pub open spec fn detail(&self) -> Seq<char> {
        match self {
            MacError::ValidationFailed(m) => m@,
            MacError::PermissionDenied(m) => m@,
            MacError::SystemError(m) => m@,
            MacError::InvalidFormat(m) => m@,
            MacError::NetworkError(m) => m@,
            MacError::DatabaseError(m) => m@,
            MacError::VendorNotFound(m) => m@,
            MacError::IoError(m) => m@,
            MacError::SerdeError(m) => m@,
            MacError::ParseError(m) => m@,
            MacError::UnsupportedPlatform(m) => m@,
        }
    }

    /// The text carried by the error.
    pub fn text(&self) -> (text: &String)
        ensures
            text@ == self.detail(),
    {
        match self {
            MacError::ValidationFailed(m) => m,
            MacError::PermissionDenied(m) => m,
            MacError::SystemError(m) => m,
            MacError::InvalidFormat(m) => m,
            MacError::NetworkError(m) => m,
            MacError::DatabaseError(m) => m,
            MacError::VendorNotFound(m) => m,
            MacError::IoError(m) => m,
            MacError::SerdeError(m) => m,
            MacError::ParseError(m) => m,
            MacError::UnsupportedPlatform(m) => m,
        }
    }

    /// The words that introduce each kind of error when it is shown.
    pub open spec fn heading(&self) -> Seq<char> {
        match self {
            MacError::ValidationFailed(_) => "Validation failed: "@,
            MacError::PermissionDenied(_) => "Permission denied: "@,
            MacError::SystemError(_) => "System error: "@,
            MacError::InvalidFormat(_) => "Invalid format: "@,
            MacError::NetworkError(_) => "Network error: "@,
            MacError::DatabaseError(_) => "Database error: "@,
            MacError::VendorNotFound(_) => "Vendor not found: "@,
            MacError::IoError(_) => "IO error: "@,
            MacError::SerdeError(_) => "Serialization error: "@,
            MacError::ParseError(_) => "Parse error: "@,
            MacError::UnsupportedPlatform(_) => "Unsupported platform: "@,
        }
    }

    /// The error as one line of text: its heading followed by its detail.
    pub fn message(&self) -> (text: String)
        ensures
            text@ == self.heading() + self.detail(),
    {
        let head: &str = match self {
            MacError::ValidationFailed(_) => "Validation failed: ",
            MacError::PermissionDenied(_) => "Permission denied: ",
            MacError::SystemError(_) => "System error: ",
            MacError::InvalidFormat(_) => "Invalid format: ",
            MacError::NetworkError(_) => "Network error: ",
            MacError::DatabaseError(_) => "Database error: ",
            MacError::VendorNotFound(_) => "Vendor not found: ",
            MacError::IoError(_) => "IO error: ",
            MacError::SerdeError(_) => "Serialization error: ",
            MacError::ParseError(_) => "Parse error: ",
            MacError::UnsupportedPlatform(_) => "Unsupported platform: ",
        };
        let mut text = head.to_string();
        text.append(self.text().as_str());
        text
    }
}

impl From<String> for MacError {
    /// A bare text is the detail of a failed validation.
    fn from(detail: String) -> (error: MacError)
        ensures
            error@ == (Fault { kind: ErrorKind::ValidationFailed, detail: detail@ }),
    {
        MacError::ValidationFailed(detail)
    }
}

impl vstd::std_specs::convert::FromSpecImpl<String> for MacError {
    open spec fn obeys_from_spec() -> bool {
        true
    }

    open spec fn from_spec(detail: String) -> MacError {
        MacError::ValidationFailed(detail)
    }
}

impl<'a> From<&'a str> for MacError {
    /// A bare text is the detail of a failed validation.
    fn from(detail: &'a str) -> (error: MacError)
        ensures
            error@ == (Fault { kind: ErrorKind::ValidationFailed, detail: detail@ }),
    {
        MacError::ValidationFailed(detail.to_string())
    }
}

impl<'a> vstd::std_specs::convert::FromSpecImpl<&'a str> for MacError {
    open spec fn obeys_from_spec() -> bool {
        false
    }

    open spec fn from_spec(detail: &'a str) -> MacError {
        arbitrary()
    }
}

} // verus!
