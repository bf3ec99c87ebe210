use vstd::prelude::*;

verus! {

/// The classes of failure the program distinguishes. Failures coming from
/// collaborators (the filesystem, JSON decoding, a poisoned lock, the
/// notification source) are carried as the collaborator's message text.
#[derive(Debug)]
pub enum CustomErrorKind {
    ErrorMessage(String),
    PanicErrorMessage(String),
    IoError(String),
    JsonError(String),
    PoisonedError(String),
    UserError(String),
    NotifyError(String),
}

impl CustomErrorKind {
    /// The message text carried by the kind, whichever kind it is.
    pub open spec fn message_spec(&self) -> Seq<char> {
        match self {
            CustomErrorKind::ErrorMessage(m) => m@,
            CustomErrorKind::PanicErrorMessage(m) => m@,
            CustomErrorKind::IoError(m) => m@,
            CustomErrorKind::JsonError(m) => m@,
            CustomErrorKind::PoisonedError(m) => m@,
            CustomErrorKind::UserError(m) => m@,
            CustomErrorKind::NotifyError(m) => m@,
        }
    }

    /// Renders the kind as its message text.
    pub fn to_string(&self) -> (r: String)
        ensures
            r@ == self.message_spec(),
    {
        match self {
            CustomErrorKind::ErrorMessage(m) => m.clone(),
            CustomErrorKind::PanicErrorMessage(m) => m.clone(),
            CustomErrorKind::IoError(m) => m.clone(),
            CustomErrorKind::JsonError(m) => m.clone(),
            CustomErrorKind::PoisonedError(m) => m.clone(),
            CustomErrorKind::UserError(m) => m.clone(),
            CustomErrorKind::NotifyError(m) => m.clone(),
        }
    }
}

/// The error type every fallible operation of this crate returns.
#[derive(Debug)]
pub struct CustomError {
    pub kind: CustomErrorKind,
}

impl CustomError {
    /// An error carrying a plain message.
    pub fn from_message(message: &str) -> (r: CustomError)
        ensures
            r.kind matches CustomErrorKind::ErrorMessage(m) && m@ == message@,
    {
        CustomError { kind: CustomErrorKind::ErrorMessage(message.to_owned()) }
    }

    /// An error raised deliberately on behalf of the user.
    pub fn user_error(message: &str) -> (r: CustomError)
        ensures
            r.kind matches CustomErrorKind::UserError(m) && m@ == message@,
    {
        CustomError { kind: CustomErrorKind::UserError(message.to_owned()) }
    }

    /// An error assembled from the message of a caught panic.
    pub fn from_panic_message(message: &str) -> (r: CustomError)
        ensures
            r.kind matches CustomErrorKind::PanicErrorMessage(m) && m@ == message@,
    {
        CustomError { kind: CustomErrorKind::PanicErrorMessage(message.to_owned()) }
    }

    /// An error wrapping a filesystem or stream failure's message.
    pub fn io_error(message: &str) -> (r: CustomError)
        ensures
            r.kind matches CustomErrorKind::IoError(m) && m@ == message@,
    {
        CustomError { kind: CustomErrorKind::IoError(message.to_owned()) }
    }

    /// An error wrapping a JSON decoder failure's message.
    pub fn json_error(message: &str) -> (r: CustomError)
        ensures
            r.kind matches CustomErrorKind::JsonError(m) && m@ == message@,
    {
        CustomError { kind: CustomErrorKind::JsonError(message.to_owned()) }
    }

    /// An error wrapping a poisoned-lock failure's message.
    pub fn poisoned_error(message: &str) -> (r: CustomError)
        ensures
            r.kind matches CustomErrorKind::PoisonedError(m) && m@ == message@,
    {
        CustomError { kind: CustomErrorKind::PoisonedError(message.to_owned()) }
    }

    /// An error wrapping a change-notification-source failure's message.
    pub fn notify_error(message: &str) -> (r: CustomError)
        ensures
            r.kind matches CustomErrorKind::NotifyError(m) && m@ == message@,
    {
        CustomError { kind: CustomErrorKind::NotifyError(message.to_owned()) }
    }

    /// Renders the error as its message text.
    pub fn to_string(&self) -> (r: String)
        ensures
            r@ == self.kind.message_spec(),
    {
        self.kind.to_string()
    }
}

/// Replaces whatever error a result holds by one built on demand.
pub trait ResultExtensionsReplaceError<R, E>: Sized {
    /// The result the contract of `replace_error` speaks about.
    spec fn inner_result(self) -> Result<R, E>;

    fn replace_error<ErrFunc: FnOnce() -> CustomError>(self, err_func: ErrFunc) -> (r: Result<
        R,
        CustomError,
    >)
        requires
            self.inner_result() is Err ==> call_requires(err_func, ()),
        ensures
            self.inner_result() matches Ok(v) ==> (r matches Ok(w) && w == v),
            self.inner_result() is Err ==> (r matches Err(e) && call_ensures(err_func, (), e)),
    ;
}

impl<R, E> ResultExtensionsReplaceError<R, E> for Result<R, E> {
    open spec fn inner_result(self) -> Result<R, E> {
        self
    }

    fn replace_error<ErrFunc: FnOnce() -> CustomError>(self, err_func: ErrFunc) -> (r: Result<
        R,
        CustomError,
    >) {
        match self {
            Ok(res) => Ok(res),
            Err(_) => Err(err_func()),
        }
    }
}

} // verus!
