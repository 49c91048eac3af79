//! The named failures of the registry.
//!
//! Every operation either fully commits its mutation or reports one of these
//! and leaves the state exactly as it was.

use vstd::prelude::*;

verus! {

/// A named, caller-visible failure of a registry operation.
#[derive(Clone, Copy, Debug, PartialEq, Eq, Structural)]
pub enum ContractError {
    /// Caller lacks the required ownership or approval.
    Unauthorized,
    /// Caller lacks the admin role of the role it tried to manage.
    MissingRole,
    /// The referenced token, domain or record holder does not exist.
    NotFound,
    /// The token or domain name is already taken.
    AlreadyMinted,
    /// The declared parent domain does not exist.
    ParentNotFound,
    /// The declared parent domain exists but is expired.
    ParentNotActive,
    /// A record of that class is already attached to the domain.
    RecordAlreadyMinted,
    /// No record of that class is attached to the domain.
    RecordNotFound,
    /// The domain name fails the format validation.
    InvalidDomain,
    /// The requested subscription duration is zero or unrepresentable.
    InvalidSubscriptionYears,
    /// The domain is a child domain and has no expiration of its own.
    NotRenewable,
    /// No payment asset is registered under the given id.
    PaymentAssetNotConfigured,
    /// The payment-asset configuration is empty, incomplete, or diverges
    /// from the asset originally quoted.
    PaymentInfoNotValid,
    /// The re-derived fee differs from the originally quoted fee.
    PaymentMismatch,
    /// The external ledger reported failure for the payment request.
    PaymentFailed,
    /// The registry is switched off.
    ContractDisabled,
    /// Whitelist enforcement is on and the caller is not whitelisted.
    UserNotWhitelisted,
    /// The caller reached the per-account mint-count cap.
    MintCountLimitReached,
}

impl ContractError {
    /// A human-readable description of the failure.
    pub fn message(&self) -> (r: &'static str) {
        match self {
            ContractError::Unauthorized => "Unauthorized",
            ContractError::MissingRole => "Specified address is missing role",
            ContractError::NotFound => "Not found",
            ContractError::AlreadyMinted => "Already minted",
            ContractError::ParentNotFound => "Parent domain not found",
            ContractError::ParentNotActive => "Parent domain not active",
            ContractError::RecordAlreadyMinted => "Record is already minted",
            ContractError::RecordNotFound => "Record not minted",
            ContractError::InvalidDomain => "Invalid domain name",
            ContractError::InvalidSubscriptionYears => "Invalid subscription years",
            ContractError::NotRenewable => "Domain is not renewable",
            ContractError::PaymentAssetNotConfigured => "Payment asset not configured",
            ContractError::PaymentInfoNotValid => "Payment info is not valid",
            ContractError::PaymentMismatch => "Payment does not match the quoted fee",
            ContractError::PaymentFailed => "Payment failed",
            ContractError::ContractDisabled => "Contract is disabled",
            ContractError::UserNotWhitelisted => "User is not whitelisted",
            ContractError::MintCountLimitReached => "Mint count limit reached",
        }
    }
}

} // verus!
