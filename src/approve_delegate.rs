use vstd::prelude::*;

use crate::address::{same_address, Address};
use crate::authority::{
    approval_seeds, authority_seeds, derive_approval_address, derive_authority, id_bytes,
    MAX_SUBSCRIPTION_ID_LEN, PROGRAM_ID,
};
use crate::derivation::derived_address;
use crate::errors::ErrorCode;
use crate::state::{key_of, spent_never_decreases, Approval, Approvals, DelegateApproval};

verus! {

/// A token account as the asset ledger reports it.
#[derive(Debug, Clone, Copy)]
pub struct TokenAccount {
    pub address: Address,
    /// The asset that the account holds.
    pub mint: Address,
    /// The authority that owns the account.
    pub owner: Address,
}

/// The parties and accounts of a grant. The payer has signed the call.
#[derive(Debug, Clone, Copy)]
pub struct ApproveDelegate {
    pub payer: Address,
    pub receiver: Address,
    pub payer_token_account: TokenAccount,
    pub receiver_token_account: TokenAccount,
    pub token_mint: Address,
}

/// The allowance that a grant asks the asset ledger to set: `delegate` may
/// move up to `amount` out of `account`, which `owner` holds.
#[derive(Debug, Clone, Copy)]
pub struct Approve {
    pub account: Address,
    pub delegate: Address,
    pub owner: Address,
    pub amount: u64,
}

/// A grant that passed every check: the record to store, its address, and
/// the allowance to set on the asset ledger before it is stored.
pub struct GrantPlan {
    pub record: DelegateApproval,
    pub address: Address,
    pub approve: Approve,
}

/// The payer's account holds the granted asset and belongs to the payer, and
/// the receiver's account holds the same asset.
pub open spec fn accounts_match(ctx: ApproveDelegate) -> bool {
    &&& ctx.payer_token_account.mint == ctx.token_mint
    &&& ctx.payer_token_account.owner == ctx.payer
    &&& ctx.receiver_token_account.mint == ctx.token_mint
}

/// The seeds of the record that a grant creates.
pub open spec fn grant_seeds(ctx: ApproveDelegate, id: Seq<char>) -> Seq<Seq<u8>> {
    approval_seeds(id_bytes(id), ctx.payer)
}

/// Why a grant is refused, in the order of the checks; `None` where it goes
/// through.
pub open spec fn grant_refusal(
    live: Map<(Address, Seq<u8>), Approval>,
    ctx: ApproveDelegate,
    id: Seq<char>,
) -> Option<ErrorCode> {
    if live.contains_key((ctx.payer, id_bytes(id))) {
        Some(ErrorCode::DuplicateAuthorization)
    } else if id_bytes(id).len() > MAX_SUBSCRIPTION_ID_LEN {
        Some(ErrorCode::SubscriptionIdTooLong)
    } else if !accounts_match(ctx) {
        Some(ErrorCode::InvalidTokenAccount)
    } else if derived_address(grant_seeds(ctx, id), PROGRAM_ID@) is None
        || derived_address(authority_seeds(), PROGRAM_ID@) is None {
        Some(ErrorCode::NoViableAddress)
    } else {
        None
    }
}

/// The record that a grant stores.
pub open spec fn granted(ctx: ApproveDelegate, id: Seq<char>, approved_amount: u64, now: i64) -> Approval {
    Approval {
        payer: ctx.payer,
        receiver: ctx.receiver,
        token_mint: ctx.token_mint,
        payer_token_account: ctx.payer_token_account.address,
        receiver_token_account: ctx.receiver_token_account.address,
        approved_amount,
        spent_amount: 0,
        subscription_id: id,
        created_at: now,
        bump: derived_address(grant_seeds(ctx, id), PROGRAM_ID@)->Some_0.1,
        authority_bump: derived_address(authority_seeds(), PROGRAM_ID@)->Some_0.1,
    }
}

/// Checks a grant against the live records and derives the record's address
/// and the delegate authority. Nothing is stored.
pub fn approve_delegate_handler(
    approvals: &Approvals,
    ctx: &ApproveDelegate,
    subscription_id: &String,
    approved_amount: u64,
    now: i64,
) -> (r: Result<GrantPlan, ErrorCode>)
    requires
        approvals.wf(),
    ensures
        match r {
            Ok(plan) => {
                &&& grant_refusal(approvals@, *ctx, subscription_id@) is None
                &&& plan.record@ == granted(*ctx, subscription_id@, approved_amount, now)
                &&& plan.record@.valid()
                &&& key_of(plan.record@) == (ctx.payer, id_bytes(subscription_id@))
                &&& Some((plan.address@, plan.record.bump)) == derived_address(
                    grant_seeds(*ctx, subscription_id@),
                    PROGRAM_ID@,
                )
                &&& Some((plan.approve.delegate@, plan.record.authority_bump)) == derived_address(
                    authority_seeds(),
                    PROGRAM_ID@,
                )
                &&& plan.approve.account == ctx.payer_token_account.address
                &&& plan.approve.owner == ctx.payer
                &&& plan.approve.amount == approved_amount
            },
            Err(e) => grant_refusal(approvals@, *ctx, subscription_id@) == Some(e),
        },
{
    if approvals.get(&ctx.payer, subscription_id).is_some() {
        return Err(ErrorCode::DuplicateAuthorization);
    }
    if subscription_id.as_str().as_bytes().len() > MAX_SUBSCRIPTION_ID_LEN {
        return Err(ErrorCode::SubscriptionIdTooLong);
    }
    if !(same_address(&ctx.payer_token_account.mint, &ctx.token_mint)
        && same_address(&ctx.payer_token_account.owner, &ctx.payer)
        && same_address(&ctx.receiver_token_account.mint, &ctx.token_mint)) {
        return Err(ErrorCode::InvalidTokenAccount);
    }
    let (address, bump) = match derive_approval_address(subscription_id, &ctx.payer) {
        Some(found) => found,
        None => return Err(ErrorCode::NoViableAddress),
    };
    let (authority, authority_bump) = match derive_authority() {
        Some(found) => found,
        None => return Err(ErrorCode::NoViableAddress),
    };
    let record = DelegateApproval {
        payer: ctx.payer,
        receiver: ctx.receiver,
        token_mint: ctx.token_mint,
        payer_token_account: ctx.payer_token_account.address,
        receiver_token_account: ctx.receiver_token_account.address,
        approved_amount,
        spent_amount: 0,
        subscription_id: subscription_id.clone(),
        created_at: now,
        bump,
        authority_bump,
    };
    let approve = Approve {
        account: ctx.payer_token_account.address,
        delegate: authority,
        owner: ctx.payer,
        amount: approved_amount,
    };
    Ok(GrantPlan { record, address, approve })
}

/// Grants an authorization: stores the record once the asset ledger has set
/// the allowance that `approve_delegate_handler` asked for.
/// `ledger_approved` is whether the ledger accepted it. On any refusal the
/// records stay as they were. Returns the record's address.
pub fn approve_delegate(
    approvals: &mut Approvals,
    ctx: &ApproveDelegate,
    subscription_id: String,
    approved_amount: u64,
    now: i64,
    ledger_approved: bool,
) -> (r: Result<Address, ErrorCode>)
    requires
        old(approvals).wf(),
    ensures
        final(approvals).wf(),
        spent_never_decreases(old(approvals)@, final(approvals)@),
        old(approvals)@.contains_key((ctx.payer, id_bytes(subscription_id@))) ==> {
            &&& r == Err::<Address, ErrorCode>(ErrorCode::DuplicateAuthorization)
            &&& final(approvals)@ == old(approvals)@
        },
        r is Ok <==> grant_refusal(old(approvals)@, *ctx, subscription_id@) is None && ledger_approved,
        match r {
            Ok(address) => {
                &&& final(approvals)@ == old(approvals)@.insert(
                    (ctx.payer, id_bytes(subscription_id@)),
                    granted(*ctx, subscription_id@, approved_amount, now),
                )
                &&& address@ == derived_address(grant_seeds(*ctx, subscription_id@), PROGRAM_ID@)->Some_0.0
            },
            Err(e) => {
                &&& final(approvals)@ == old(approvals)@
                &&& e == match grant_refusal(old(approvals)@, *ctx, subscription_id@) {
                    Some(refusal) => refusal,
                    None => ErrorCode::LedgerRejected,
                }
            },
        },
{
    let plan = match approve_delegate_handler(approvals, ctx, &subscription_id, approved_amount, now) {
        Ok(plan) => plan,
        Err(e) => return Err(e),
    };
    if !ledger_approved {
        return Err(ErrorCode::LedgerRejected);
    }
    let address = plan.address;
    approvals.insert_new(plan.record);
    Ok(address)
}

} // verus!
