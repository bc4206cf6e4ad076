use vstd::prelude::*;

verus! {

/// Why a payment attached to a command was refused.
#[derive(Debug, PartialEq, Eq)]
pub enum PaymentError {
    /// The one coin sent was not of the required denomination (named here).
    MissingDenom(String),
    /// A denomination other than the accepted one was sent (named here).
    ExtraDenom(String),
    /// More than one coin was sent.
    MultipleDenoms,
    /// No coin, or a coin of amount zero, was sent.
    NoFunds,
    /// Funds were sent to a command that takes none.
    NonPayable,
}

/// Every way a registry command can fail. A failed command changes nothing.
#[derive(Debug, PartialEq, Eq)]
pub enum ContractError {
    Unauthorized,
    NameTaken { name: String },
    NameOwnershipExpired { name: String },
    InvalidInput,
    InvalidPayment { amount: u128 },
    NameTooShort { length: u64, min_length: u64 },
    NameTooLong { length: u64, max_length: u64 },
    InvalidCharacter { c: char },
    Payment(PaymentError),
    /// A fee or expiration computation left the range of its integer type.
    Overflow,
}

/// A payment failure with its text seen as characters.
pub enum PaymentFailure {
    MissingDenom(Seq<char>),
    ExtraDenom(Seq<char>),
    MultipleDenoms,
    NoFunds,
    NonPayable,
}

/// A command failure with its text seen as characters.
pub enum Failure {
    Unauthorized,
    NameTaken { name: Seq<char> },
    NameOwnershipExpired { name: Seq<char> },
    InvalidInput,
    InvalidPayment { amount: u128 },
    NameTooShort { length: u64, min_length: u64 },
    NameTooLong { length: u64, max_length: u64 },
    InvalidCharacter { c: char },
    Payment(PaymentFailure),
    Overflow,
}

impl View for PaymentError {
    type V = PaymentFailure;

    open spec fn view(&self) -> PaymentFailure {
        match self {
            PaymentError::MissingDenom(d) => PaymentFailure::MissingDenom(d@),
            PaymentError::ExtraDenom(d) => PaymentFailure::ExtraDenom(d@),
            PaymentError::MultipleDenoms => PaymentFailure::MultipleDenoms,
            PaymentError::NoFunds => PaymentFailure::NoFunds,
            PaymentError::NonPayable => PaymentFailure::NonPayable,
        }
    }
}

impl View for ContractError {
    type V = Failure;

    open spec fn view(&self) -> Failure {
        match self {
            ContractError::Unauthorized => Failure::Unauthorized,
            ContractError::NameTaken { name } => Failure::NameTaken { name: name@ },
            ContractError::NameOwnershipExpired { name } => Failure::NameOwnershipExpired {
                name: name@,
            },
            ContractError::InvalidInput => Failure::InvalidInput,
            ContractError::InvalidPayment { amount } => Failure::InvalidPayment { amount: *amount },
            ContractError::NameTooShort { length, min_length } => Failure::NameTooShort {
                length: *length,
                min_length: *min_length,
            },
            ContractError::NameTooLong { length, max_length } => Failure::NameTooLong {
                length: *length,
                max_length: *max_length,
            },
            ContractError::InvalidCharacter { c } => Failure::InvalidCharacter { c: *c },
            ContractError::Payment(p) => Failure::Payment(p@),
            ContractError::Overflow => Failure::Overflow,
        }
    }
}

} // verus!
