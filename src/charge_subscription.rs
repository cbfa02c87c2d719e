use vstd::prelude::*;

use crate::address::{same_address, Address};
use crate::authority::{
    authority_from_bump, authority_seeds, id_bytes, AUTHORIZED_BACKEND, PROGRAM_ID,
};
use crate::derivation::{derived_address, lemma_derived_rebuilds};
use crate::errors::ErrorCode;
use crate::state::{spent_never_decreases, Approval, Approvals};

verus! {

/// The caller and accounts presented to a charge.
#[derive(Debug, Clone, Copy)]
pub struct ChargeSubscription {
    /// The identity that signed the charge.
    pub backend: Address,
    /// The payer whose record is charged.
    pub payer: Address,
    pub payer_token_account: Address,
    pub receiver_token_account: Address,
    pub token_mint: Address,
}

/// The transfer that a charge asks the asset ledger to make, signed by the
/// delegate authority rebuilt from `authority_bump`.
#[derive(Debug, Clone, Copy)]
pub struct Transfer {
    pub from: Address,
    pub to: Address,
    pub mint: Address,
    pub authority: Address,
    pub authority_bump: u8,
    pub amount: u64,
}

/// The presented accounts are the ones frozen in the record.
pub open spec fn frozen_accounts_match(a: Approval, ctx: ChargeSubscription) -> bool {
    &&& ctx.payer_token_account == a.payer_token_account
    &&& ctx.receiver_token_account == a.receiver_token_account
    &&& ctx.token_mint == a.token_mint
}

/// Why a charge is refused, in the order of the checks; `None` where it goes
/// through.
pub open spec fn charge_refusal(
    live: Map<(Address, Seq<u8>), Approval>,
    ctx: ChargeSubscription,
    id: Seq<char>,
    amount: u64,
) -> Option<ErrorCode> {
    let k = (ctx.payer, id_bytes(id));
    if ctx.backend != AUTHORIZED_BACKEND {
        Some(ErrorCode::Unauthorized)
    } else if !live.contains_key(k) {
        Some(ErrorCode::NotFound)
    } else if !frozen_accounts_match(live[k], ctx) {
        Some(ErrorCode::InvalidTokenAccount)
    } else if live[k].spent_amount + amount > u64::MAX {
        Some(ErrorCode::ArithmeticOverflow)
    } else if live[k].spent_amount + amount > live[k].approved_amount {
        Some(ErrorCode::InsufficientAllowance)
    } else {
        None
    }
}

/// Checks a charge: the caller, the record, its frozen accounts and its cap.
/// Returns the transfer to make; nothing is changed.
pub fn charge_subscription_handler(
    approvals: &Approvals,
    ctx: &ChargeSubscription,
    subscription_id: &String,
    amount: u64,
) -> (r: Result<Transfer, ErrorCode>)
    requires
        approvals.wf(),
    ensures
        match r {
            Ok(t) => {
                let a = approvals@[(ctx.payer, id_bytes(subscription_id@))];
                &&& charge_refusal(approvals@, *ctx, subscription_id@, amount) is None
                &&& t.from == a.payer_token_account
                &&& t.to == a.receiver_token_account
                &&& t.mint == a.token_mint
                &&& t.authority_bump == a.authority_bump
                &&& Some((t.authority@, t.authority_bump)) == derived_address(authority_seeds(), PROGRAM_ID@)
                &&& t.amount == amount
            },
            Err(e) => charge_refusal(approvals@, *ctx, subscription_id@, amount) == Some(e),
        },
{
    if !same_address(&ctx.backend, &AUTHORIZED_BACKEND) {
        return Err(ErrorCode::Unauthorized);
    }
    let record = match approvals.get(&ctx.payer, subscription_id) {
        Some(record) => record,
        None => return Err(ErrorCode::NotFound),
    };
    if !(same_address(&ctx.payer_token_account, &record.payer_token_account)
        && same_address(&ctx.receiver_token_account, &record.receiver_token_account)
        && same_address(&ctx.token_mint, &record.token_mint)) {
        return Err(ErrorCode::InvalidTokenAccount);
    }
    let new_spent = match record.spent_amount.checked_add(amount) {
        Some(total) => total,
        None => return Err(ErrorCode::ArithmeticOverflow),
    };
    if new_spent > record.approved_amount {
        return Err(ErrorCode::InsufficientAllowance);
    }
    proof {
        approvals.lemma_cap_invariant();
        lemma_derived_rebuilds(authority_seeds(), PROGRAM_ID@);
    }
    let authority = match authority_from_bump(record.authority_bump) {
        Some(authority) => authority,
        None => vstd::pervasive::unreached(),
    };
    Ok(
        Transfer {
            from: record.payer_token_account,
            to: record.receiver_token_account,
            mint: record.token_mint,
            authority,
            authority_bump: record.authority_bump,
            amount,
        },
    )
}

/// Charges a subscription: advances the record's spent total once the asset
/// ledger has made the transfer that `charge_subscription_handler` asked for.
/// `transferred` is whether it did. On any refusal, a failed transfer
/// included, the records stay as they were.
pub fn charge_subscription(
    approvals: &mut Approvals,
    ctx: &ChargeSubscription,
    subscription_id: String,
    amount: u64,
    transferred: bool,
) -> (r: Result<(), ErrorCode>)
    requires
        old(approvals).wf(),
    ensures
        final(approvals).wf(),
        spent_never_decreases(old(approvals)@, final(approvals)@),
        ctx.backend != AUTHORIZED_BACKEND ==> {
            &&& r == Err::<(), ErrorCode>(ErrorCode::Unauthorized)
            &&& final(approvals)@ == old(approvals)@
        },
        ({
            let k = (ctx.payer, id_bytes(subscription_id@));
            ctx.backend == AUTHORIZED_BACKEND && old(approvals)@.contains_key(k)
                && frozen_accounts_match(old(approvals)@[k], *ctx)
                && old(approvals)@[k].spent_amount + amount > u64::MAX ==> {
                &&& r == Err::<(), ErrorCode>(ErrorCode::ArithmeticOverflow)
                &&& final(approvals)@ == old(approvals)@
            }
        }),
        !transferred ==> r is Err && final(approvals)@ == old(approvals)@,
        r is Ok <==> charge_refusal(old(approvals)@, *ctx, subscription_id@, amount) is None && transferred,
        match r {
            Ok(_) => {
                let k = (ctx.payer, id_bytes(subscription_id@));
                let a = old(approvals)@[k];
                &&& final(approvals)@ == old(approvals)@.insert(
                    k,
                    a.with_spent((a.spent_amount + amount) as u64),
                )
                &&& final(approvals)@[k].spent_amount <= final(approvals)@[k].approved_amount
            },
            Err(e) => {
                &&& final(approvals)@ == old(approvals)@
                &&& e == match charge_refusal(old(approvals)@, *ctx, subscription_id@, amount) {
                    Some(refusal) => refusal,
                    None => ErrorCode::LedgerRejected,
                }
            },
        },
{
    match charge_subscription_handler(approvals, ctx, &subscription_id, amount) {
        Ok(_) => {},
        Err(e) => return Err(e),
    }
    if !transferred {
        return Err(ErrorCode::LedgerRejected);
    }
    let i = match approvals.position(&ctx.payer, &subscription_id) {
        Some(i) => i,
        None => vstd::pervasive::unreached(),
    };
    let new_spent = approvals.records[i].spent_amount + amount;
    approvals.set_spent(i, new_spent);
    Ok(())
}

} // verus!
