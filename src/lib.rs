//! Delegated, allowance-capped recurring payments.
//!
//! A payer grants a capped allowance to a delegate authority that belongs to
//! the program and to no key holder; one trusted backend then charges against
//! it, subscription by subscription, until the cap is reached or the payer
//! revokes. Each instruction comes as a handler, which checks and tells what
//! the asset ledger must do, and an entry point, which commits once the ledger
//! has answered.
pub mod address;
pub mod approve_delegate;
pub mod authority;
pub mod charge_subscription;
pub mod derivation;
pub mod errors;
pub mod revoke_delegate;
pub mod state;

pub use address::Address;
pub use approve_delegate::{
    approve_delegate, approve_delegate_handler, Approve, ApproveDelegate, GrantPlan, TokenAccount,
};
pub use authority::{AUTHORIZED_BACKEND, MAX_SUBSCRIPTION_ID_LEN, PROGRAM_ID};
pub use charge_subscription::{
    charge_subscription, charge_subscription_handler, ChargeSubscription, Transfer,
};
pub use errors::ErrorCode;
pub use revoke_delegate::{revoke_delegate, revoke_delegate_handler, RevokeDelegate};
pub use state::{Approvals, DelegateApproval};
