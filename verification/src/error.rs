//! Errors of the contract.
use vstd::prelude::*;

verus! {

/// Why an operation stopped where the arithmetic or a stored value it
/// relies on does not allow it to go on: the transaction is aborted.
#[derive(Clone, Copy, Debug, PartialEq, Eq, Structural)]
pub enum Abort {
    /// An amount, a ratio or a time went out of range.
    Overflow,
    /// A division by zero.
    DivideByZero,
    /// A value that the operation reads was not stored.
    MissingValue,
    /// An element that the operation reads is not in its list.
    OutOfBounds,
    /// The message is not implemented.
    NotImplemented,
}

/// Errors of the storage and of the chain's queries.
#[derive(Clone, Debug, PartialEq, Eq)]
pub enum StdError {
    NotFound { kind: String },
    GenericErr { msg: String },
    /// A checked arithmetic operation overflowed.
    Overflow {},
    /// A checked division had a zero divisor.
    DivideByZero {},
}

pub enum StdErrorModel {
    NotFound(Seq<char>),
    GenericErr(Seq<char>),
    Overflow,
    DivideByZero,
}

impl View for StdError {
    type V = StdErrorModel;

    open spec fn view(&self) -> StdErrorModel {
        match self {
            StdError::NotFound { kind } => StdErrorModel::NotFound(kind@),
            StdError::GenericErr { msg } => StdErrorModel::GenericErr(msg@),
            StdError::Overflow {} => StdErrorModel::Overflow,
            StdError::DivideByZero {} => StdErrorModel::DivideByZero,
        }
    }
}

impl StdError {
    pub fn copy(&self) -> (r: StdError)
        ensures
            r@ == self@,
    {
        match self {
            StdError::NotFound { kind } => StdError::NotFound { kind: kind.clone() },
            StdError::GenericErr { msg } => StdError::GenericErr { msg: msg.clone() },
            StdError::Overflow {} => StdError::Overflow {},
            StdError::DivideByZero {} => StdError::DivideByZero {},
        }
    }

    pub fn not_found(kind: &str) -> (e: StdError)
        ensures
            e@ == StdErrorModel::NotFound(kind@),
    {
        StdError::NotFound { kind: String::from_str(kind) }
    }
}

/// Errors of the admin check.
#[derive(Clone, Copy, Debug, PartialEq, Eq, Structural)]
pub enum AdminError {
    NotAdmin {},
}

#[derive(Clone, Debug, PartialEq, Eq)]
pub enum ContractError {
    Std(StdError),
    Unauthorized {},
    CustomError { val: String },
    NotFound { msg: String },
    InsufficientFunds { funds: u128 },
    FundsNotAllowed {},
    Admin(AdminError),
    Aborted { reason: Abort },
}

pub enum ErrorModel {
    Std(StdErrorModel),
    Unauthorized,
    Custom(Seq<char>),
    NotFound(Seq<char>),
    InsufficientFunds(u128),
    FundsNotAllowed,
    NotAdmin,
    Aborted(Abort),
}

impl View for ContractError {
    type V = ErrorModel;

    open spec fn view(&self) -> ErrorModel {
        match self {
            ContractError::Std(e) => ErrorModel::Std(e@),
            ContractError::Unauthorized {} => ErrorModel::Unauthorized,
            ContractError::CustomError { val } => ErrorModel::Custom(val@),
            ContractError::NotFound { msg } => ErrorModel::NotFound(msg@),
            ContractError::InsufficientFunds { funds } => ErrorModel::InsufficientFunds(*funds),
            ContractError::FundsNotAllowed {} => ErrorModel::FundsNotAllowed,
            ContractError::Admin(_) => ErrorModel::NotAdmin,
            ContractError::Aborted { reason } => ErrorModel::Aborted(*reason),
        }
    }
}

impl ContractError {
    pub fn custom(val: &str) -> (e: ContractError)
        ensures
            e@ == ErrorModel::Custom(val@),
    {
        ContractError::CustomError { val: String::from_str(val) }
    }

    pub fn aborted(reason: Abort) -> (e: ContractError)
        ensures
            e@ == ErrorModel::Aborted(reason),
    {
        ContractError::Aborted { reason }
    }

    pub fn not_found(kind: &str) -> (e: ContractError)
        ensures
            e@ == ErrorModel::Std(StdErrorModel::NotFound(kind@)),
    {
        ContractError::Std(StdError::not_found(kind))
    }
}

/// Model of an error carrying a fixed message.
pub open spec fn custom(msg: &str) -> ErrorModel {
    ErrorModel::Custom(msg@)
}

/// Model of a missing stored value of the named type.
pub open spec fn missing(kind: &str) -> ErrorModel {
    ErrorModel::Std(StdErrorModel::NotFound(kind@))
}

} // verus!
