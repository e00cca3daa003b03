//! The errors that the library reports.
use crate::text::join;
use vstd::prelude::*;
use vstd::string::StringExecFns;

verus! {

/// What can go wrong between the daemon and the kernel side.
#[derive(Clone, Debug)]
pub enum CardwireEbpfError {
    /// The kernel runs without the BPF security module.
    LSMNotEnabled,
    /// The program could not be loaded.
    EbpfLoadError(String),
    /// The loaded object has no program of that name.
    MissingLsm { name: String },
    /// The loaded object has no map of that name.
    MissingMap { name: String },
    /// The kernel refused an operation.
    Aya(String),
}

impl CardwireEbpfError {
    /// The error in words.
    pub open spec fn text(self) -> Seq<char> {
        match self {
            CardwireEbpfError::LSMNotEnabled => "the BPF security module is not enabled"@,
            CardwireEbpfError::EbpfLoadError(reason) => "failed to load the eBPF object: "@
                + reason@,
            CardwireEbpfError::MissingLsm { name } => "missing eBPF program: "@ + name@,
            CardwireEbpfError::MissingMap { name } => "missing eBPF map: "@ + name@,
            CardwireEbpfError::Aya(reason) => reason@,
        }
    }

    /// The error in words.
    pub fn message(&self) -> (message: String)
        ensures
            message@ == self.text(),
    {
        match self {
            CardwireEbpfError::LSMNotEnabled => String::from_str(
                "the BPF security module is not enabled",
            ),
            CardwireEbpfError::EbpfLoadError(reason) => join(
                "failed to load the eBPF object: ",
                reason.as_str(),
            ),
            CardwireEbpfError::MissingLsm { name } => join(
                "missing eBPF program: ",
                name.as_str(),
            ),
            CardwireEbpfError::MissingMap { name } => join("missing eBPF map: ", name.as_str()),
            CardwireEbpfError::Aya(reason) => String::from_str(reason.as_str()),
        }
    }

    /// A map is missing.
    pub fn missing_map(name: &str) -> (err: Self)
        ensures
            err matches CardwireEbpfError::MissingMap { name: n } && n@ == name@,
    {
        CardwireEbpfError::MissingMap { name: String::from_str(name) }
    }

    /// A program is missing.
    pub fn missing_lsm(name: &str) -> (err: Self)
        ensures
            err matches CardwireEbpfError::MissingLsm { name: n } && n@ == name@,
    {
        CardwireEbpfError::MissingLsm { name: String::from_str(name) }
    }

    /// The kernel refused an operation.
    pub fn aya(reason: String) -> (err: Self)
        ensures
            err == CardwireEbpfError::Aya(reason),
    {
        CardwireEbpfError::Aya(reason)
    }
}

/// The errors that a caller on the bus gets.
#[derive(Clone, Debug)]
pub enum FdoError {
    Failed(String),
    NotSupported(String),
    AccessDenied(String),
    InvalidArgs(String),
    IoError(String),
}

impl FdoError {
    /// The text that goes with the error.
    pub open spec fn text(self) -> Seq<char> {
        match self {
            FdoError::Failed(s) => s@,
            FdoError::NotSupported(s) => s@,
            FdoError::AccessDenied(s) => s@,
            FdoError::InvalidArgs(s) => s@,
            FdoError::IoError(s) => s@,
        }
    }

    /// The text that goes with the error.
    pub fn message(&self) -> (text: &String)
        ensures
            text@ == self.text(),
    {
        match self {
            FdoError::Failed(s) => s,
            FdoError::NotSupported(s) => s,
            FdoError::AccessDenied(s) => s,
            FdoError::InvalidArgs(s) => s,
            FdoError::IoError(s) => s,
        }
    }
}

/// Results that can be reported to a caller on the bus.
pub trait FdoResultExt<T>: Sized {
    /// `result` is how this is reported.
    spec fn reported_as(self, result: Result<T, FdoError>) -> bool;

    /// Reports an error in words.
    fn into_fdo(self) -> (result: Result<T, FdoError>)
        ensures
            self.reported_as(result),
    ;
}

impl<T> FdoResultExt<T> for Result<T, String> {
    open spec fn reported_as(self, result: Result<T, FdoError>) -> bool {
        result == match self {
            Ok(value) => Ok::<T, FdoError>(value),
            Err(err) => Err::<T, FdoError>(FdoError::Failed(err)),
        }
    }

    fn into_fdo(self) -> (result: Result<T, FdoError>) {
        match self {
            Ok(value) => Ok(value),
            Err(err) => Err(FdoError::Failed(err)),
        }
    }
}

impl<T> FdoResultExt<T> for Result<T, CardwireEbpfError> {
    open spec fn reported_as(self, result: Result<T, FdoError>) -> bool {
        match self {
            Ok(value) => result == Ok::<T, FdoError>(value),
            Err(err) => result matches Err(FdoError::Failed(text)) && text@ == err.text(),
        }
    }

    fn into_fdo(self) -> (result: Result<T, FdoError>) {
        match self {
            Ok(value) => Ok(value),
            Err(err) => Err(FdoError::Failed(err.message())),
        }
    }
}

} // verus!
