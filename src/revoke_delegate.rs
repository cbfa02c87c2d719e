use vstd::prelude::*;

use crate::address::{same_address, Address};
use crate::authority::id_bytes;
use crate::errors::ErrorCode;
use crate::state::{spent_never_decreases, Approval, Approvals, DelegateApproval};

verus! {

/// The caller of a revoke and the payer whose record it names.
#[derive(Debug, Clone, Copy)]
pub struct RevokeDelegate {
    /// The identity that signed the revoke.
    pub signer: Address,
    /// The payer of the record to close.
    pub payer: Address,
}

/// Why a revoke is refused; `None` where it goes through.
pub open spec fn revoke_refusal(
    live: Map<(Address, Seq<u8>), Approval>,
    ctx: RevokeDelegate,
    id: Seq<char>,
) -> Option<ErrorCode> {
    if ctx.signer != ctx.payer {
        Some(ErrorCode::Unauthorized)
    } else if !live.contains_key((ctx.payer, id_bytes(id))) {
        Some(ErrorCode::NotFound)
    } else {
        None
    }
}

/// Checks a revoke: only the payer may close a live record.
pub fn revoke_delegate_handler(
    approvals: &Approvals,
    ctx: &RevokeDelegate,
    subscription_id: &String,
) -> (r: Result<(), ErrorCode>)
    requires
        approvals.wf(),
    ensures
        r == match revoke_refusal(approvals@, *ctx, subscription_id@) {
            Some(e) => Err::<(), ErrorCode>(e),
            None => Ok(()),
        },
{
    if !same_address(&ctx.signer, &ctx.payer) {
        return Err(ErrorCode::Unauthorized);
    }
    match approvals.get(&ctx.payer, subscription_id) {
        Some(_) => Ok(()),
        None => Err(ErrorCode::NotFound),
    }
}

/// Revokes an authorization: closes the payer's record and hands it back, so
/// that its storage deposit can go to the payer. The allowance held by the
/// asset ledger is not touched.
pub fn revoke_delegate(
    approvals: &mut Approvals,
    ctx: &RevokeDelegate,
    subscription_id: String,
) -> (r: Result<DelegateApproval, ErrorCode>)
    requires
        old(approvals).wf(),
    ensures
        final(approvals).wf(),
        spent_never_decreases(old(approvals)@, final(approvals)@),
        ctx.signer != ctx.payer ==> {
            &&& r is Err && r->Err_0 == ErrorCode::Unauthorized
            &&& final(approvals)@ == old(approvals)@
        },
        match r {
            Ok(closed) => {
                let k = (ctx.payer, id_bytes(subscription_id@));
                &&& revoke_refusal(old(approvals)@, *ctx, subscription_id@) is None
                &&& closed@ == old(approvals)@[k]
                &&& final(approvals)@ == old(approvals)@.remove(k)
            },
            Err(e) => {
                &&& revoke_refusal(old(approvals)@, *ctx, subscription_id@) == Some(e)
                &&& final(approvals)@ == old(approvals)@
            },
        },
{
    if !same_address(&ctx.signer, &ctx.payer) {
        return Err(ErrorCode::Unauthorized);
    }
    match approvals.position(&ctx.payer, &subscription_id) {
        Some(i) => Ok(approvals.remove_at(i)),
        None => Err(ErrorCode::NotFound),
    }
}

} // verus!
