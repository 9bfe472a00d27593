//! The library's error type.

use vstd::prelude::*;

verus! {

/// What can go wrong in the library.
#[derive(Debug)]
pub enum OatsError {
    /// A precondition or an input was refused.
    ValidationError { message: String },
    /// No registered object has this identifier.
    ObjectNotFound { id: String },
    /// No trait of this name was found.
    TraitNotFound { name: String },
    /// An action could not complete.
    ActionFailed { message: String },
    /// A system could not be found, was not ready, or failed.
    SystemError { message: String },
}

/// The text an error describes itself with.
pub open spec fn error_text(e: OatsError) -> Seq<char> {
    match e {
        OatsError::ValidationError { message } => "Validation error: "@ + message@,
        OatsError::ObjectNotFound { id } => "Object not found: "@ + id@,
        OatsError::TraitNotFound { name } => "Trait not found: "@ + name@,
        OatsError::ActionFailed { message } => "Action failed: "@ + message@,
        OatsError::SystemError { message } => "System error: "@ + message@,
    }
}

fn prefixed(prefix: &str, rest: &String) -> (r: String)
    ensures
        r@ == prefix@ + rest@,
{
    let mut r = prefix.to_owned();
    r.append(rest.as_str());
    r
}

impl OatsError {
    /// A validation error carrying `message`.
    pub fn validation_error(message: &str) -> (e: Self)
        ensures
            e matches OatsError::ValidationError { message: m } && m@ == message@,
    {
        OatsError::ValidationError { message: message.to_owned() }
    }

    /// An error naming the identifier that no object has.
    pub fn object_not_found(id: &str) -> (e: Self)
        ensures
            e matches OatsError::ObjectNotFound { id: i } && i@ == id@,
    {
        OatsError::ObjectNotFound { id: id.to_owned() }
    }

    /// An error naming the trait that was not found.
    pub fn trait_not_found(name: &str) -> (e: Self)
        ensures
            e matches OatsError::TraitNotFound { name: n } && n@ == name@,
    {
        OatsError::TraitNotFound { name: name.to_owned() }
    }

    /// An action failure carrying `message`.
    pub fn action_failed(message: &str) -> (e: Self)
        ensures
            e matches OatsError::ActionFailed { message: m } && m@ == message@,
    {
        OatsError::ActionFailed { message: message.to_owned() }
    }

    /// A system error carrying `message`.
    pub fn system_error(message: &str) -> (e: Self)
        ensures
            e matches OatsError::SystemError { message: m } && m@ == message@,
    {
        OatsError::SystemError { message: message.to_owned() }
    }

    /// The text this error describes itself with.
    pub fn describe(&self) -> (r: String)
        ensures
            r@ == error_text(*self),
    {
        match self {
            OatsError::ValidationError { message } => prefixed("Validation error: ", message),
            OatsError::ObjectNotFound { id } => prefixed("Object not found: ", id),
            OatsError::TraitNotFound { name } => prefixed("Trait not found: ", name),
            OatsError::ActionFailed { message } => prefixed("Action failed: ", message),
            OatsError::SystemError { message } => prefixed("System error: ", message),
        }
    }
}

} // verus!
