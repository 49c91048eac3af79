//! Request, callback and outbound-message values of the registry.
//!
//! The two-phase payment protocol is modeled as plain data: a fee-gated
//! mint or renewal emits a [`PaymentRequest`] carrying the transfer to
//! perform on the external asset ledger, the quoted [`PaymentIntent`], and
//! the [`CallbackMsg`] that the environment must deliver back — together
//! with the ledger's verdict — to resume the suspended finalization.

use vstd::prelude::*;

use crate::address::Address;
use crate::config::ContractConfig;

verus! {

/// Parameters of the one-time setup call.
#[derive(Clone, Debug, PartialEq, Eq)]
pub struct InitMsg {
    /// Token collection name.
    pub name: String,
    /// Token collection symbol.
    pub symbol: String,
    /// Template prepended to token URIs by off-chain consumers.
    pub uri_template: String,
    /// Accounts holding the admin role from the start.
    pub admin_addresses: Vec<Address>,
    /// The initial configuration.
    pub config: ContractConfig,
}

/// Parameters of a mint request, also carried by its payment callback.
#[derive(Clone, Debug, PartialEq, Eq)]
pub struct MintMsg {
    /// The name to mint.
    pub domain: String,
    /// The owner of the new domain's token.
    pub to: Address,
    /// The payment asset offered for the fee.
    pub payment_coin_id: u64,
    /// Optional token URI.
    pub token_uri: Option<String>,
    /// Parent name, when a child domain is minted.
    pub parent_id: Option<String>,
    /// Subscription years for a root domain; one year when absent.
    pub subscription_years: Option<u32>,
}

/// Parameters of a renewal request, also carried by its payment callback.
#[derive(Clone, Debug, PartialEq, Eq)]
pub struct RenewDomainMsg {
    /// The domain to renew.
    pub domain: String,
    /// The account paying the fee.
    pub payer: Address,
    /// The payment asset offered for the fee.
    pub payment_coin_id: u64,
    /// How many years to add.
    pub subscription_years: u32,
}

/// The transfer the external asset ledger is asked to perform.
#[derive(Clone, Copy, Debug, PartialEq, Eq, Structural)]
pub struct MPC20TransferFromMsg {
    /// The account paying.
    pub from: Address,
    /// The account collecting.
    pub to: Address,
    /// The amount.
    pub amount: u128,
}

/// The quoted payment backing a pending mint or renewal: asset id,
/// receiver, token contract and total fee.  It is embedded in the payment
/// request and held against the re-derived fee when the confirmation
/// arrives.
#[derive(Clone, Copy, Debug, PartialEq, Eq, Structural)]
pub struct PaymentIntent {
    /// The asset id the quote was made for.
    pub id: u64,
    /// The account collecting the fee.
    pub receiver: Address,
    /// The token contract of the asset.
    pub token: Address,
    /// The quoted total fee.
    pub total_fees: u128,
}

/// Which suspended finalization a payment confirmation resumes, with its
/// original parameters.
#[derive(Clone, Debug, PartialEq, Eq)]
pub enum CallbackMsg {
    /// Resume a mint.
    OnMint(MintMsg),
    /// Resume a renewal.
    OnRenew(RenewDomainMsg),
}

/// An outbound message: the fee transfer to request from the external
/// asset ledger, the quoted intent, and the callback token to deliver back
/// once the ledger settles.
#[derive(Clone, Debug, PartialEq, Eq)]
pub struct PaymentRequest {
    /// The quoted payment.
    pub intent: PaymentIntent,
    /// The transfer to request on the asset's token contract.
    pub transfer: MPC20TransferFromMsg,
    /// What to resume when the ledger reports back.
    pub callback: CallbackMsg,
}

/// The answer of an ownership query: how many domains the account holds
/// and the total supply.
#[derive(Clone, Copy, Debug, PartialEq, Eq, Structural)]
pub struct OwnerInfoEvent {
    /// The account asked about.
    pub owner: Address,
    /// How many domain tokens it holds.
    pub domain_count: u128,
    /// The total token supply.
    pub total_supply: u128,
}

} // verus!
