use vstd::prelude::*;

verus! {

/// The closed error taxonomy of the registry.
///
/// `NotFound` reports an absent id or an absent referenced entity,
/// `ValidationError` an input that fails a business rule. `Unauthorized` is
/// reserved: no operation of the registry raises it.
#[derive(Debug)]
pub enum Error {
    NotFound { msg: String },
    ValidationError { msg: String },
    Unauthorized { msg: String },
}

/// The variant of an [`Error`], without its free-text message. Contracts and
/// laws speak of the variant; the message is display text only.
#[derive(Clone, Copy, PartialEq, Eq, Structural)]
pub enum ErrorKind {
    NotFound,
    ValidationError,
    Unauthorized,
}

impl Error {
    /// The variant of this error.
    pub open spec fn kind(&self) -> ErrorKind {
        match self {
            Error::NotFound { .. } => ErrorKind::NotFound,
            Error::ValidationError { .. } => ErrorKind::ValidationError,
            Error::Unauthorized { .. } => ErrorKind::Unauthorized,
        }
    }

    /// Builds the `NotFound` error carrying the given message.
    pub fn not_found(msg: &str) -> (r: Error)
        ensures
            r.kind() == ErrorKind::NotFound,
            r matches Error::NotFound { msg: m } && m@ == msg@,
    {
        Error::NotFound { msg: msg.to_owned() }
    }

    /// Builds the `ValidationError` error carrying the given message.
    pub fn validation_error(msg: &str) -> (r: Error)
        ensures
            r.kind() == ErrorKind::ValidationError,
            r matches Error::ValidationError { msg: m } && m@ == msg@,
    {
        Error::ValidationError { msg: msg.to_owned() }
    }

    /// The message carried by the error, whatever its variant.
    pub fn message(&self) -> (r: &String)
        ensures
            match self {
                Error::NotFound { msg } => r@ == msg@,
                Error::ValidationError { msg } => r@ == msg@,
                Error::Unauthorized { msg } => r@ == msg@,
            },
    {
        match self {
            Error::NotFound { msg } => msg,
            Error::ValidationError { msg } => msg,
            Error::Unauthorized { msg } => msg,
        }
    }
}

} // verus!
