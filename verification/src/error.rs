use vstd::prelude::*;
use vstd::string::*;

verus! {

/// `serde_json::Value`, carried through as structured error details.
#[verifier::external_type_specification]
#[verifier::external_body]
pub struct ExJsonValue(serde_json::Value);

/// Crate-wide result type.
pub type Result<T> = std::result::Result<T, HarnessError>;

/// A stable, machine-readable error code with a human-readable message.
#[derive(Debug, Clone)]
pub struct HarnessError {
    pub code: &'static str,
    pub message: String,
    pub details: Option<serde_json::Value>,
}

impl HarnessError {
    /// An error with the given code and message and no details.
    pub fn new(code: &'static str, message: String) -> (e: Self)
        ensures
            e.code == code,
            e.message@ == message@,
            e.details is None,
    {
        HarnessError { code, message, details: None }
    }

    /// The same error with structured details attached.
    pub fn with_details(self, details: serde_json::Value) -> (e: Self)
        ensures
            e.code == self.code,
            e.message@ == self.message@,
            e.details == Some(details),
    {
        let mut this = self;
        this.details = Some(details);
        this
    }

    /// An `INVALID_ARGUMENT` error.
    pub fn invalid(message: String) -> (e: Self)
        ensures
            e.code == "INVALID_ARGUMENT",
            e.message@ == message@,
            e.details is None,
    {
        Self::new("INVALID_ARGUMENT", message)
    }

    /// An error whose message is `"{context}: {error}"`.
    pub fn io(code: &'static str, context: &str, error: &str) -> (e: Self)
        ensures
            e.code == code,
            e.message@ == context@ + ": "@ + error@,
            e.details is None,
    {
        let mut message = String::from_str(context);
        message.append(": ");
        message.append(error);
        Self::new(code, message)
    }

    /// `CODE: message`, the text the error is shown as.
    pub fn to_display_string(&self) -> (s: String)
        ensures
            s@ == self.code@ + ": "@ + self.message@,
    {
        let mut s = String::from_str(self.code);
        s.append(": ");
        s.append(self.message.as_str());
        s
    }
}

} // verus!
