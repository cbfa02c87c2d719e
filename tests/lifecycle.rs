use subscription_delegate::{
    approve_delegate, approve_delegate_handler, charge_subscription, charge_subscription_handler,
    revoke_delegate, revoke_delegate_handler, Address, Approvals, ApproveDelegate,
    ChargeSubscription, ErrorCode, RevokeDelegate, TokenAccount, AUTHORIZED_BACKEND,
};

const PAYER: Address = [1; 32];
const RECEIVER: Address = [2; 32];
const MINT: Address = [3; 32];
const PAYER_ACCOUNT: Address = [4; 32];
const RECEIVER_ACCOUNT: Address = [5; 32];
const STRANGER: Address = [9; 32];

fn grant_ctx() -> ApproveDelegate {
    ApproveDelegate {
        payer: PAYER,
        receiver: RECEIVER,
        payer_token_account: TokenAccount { address: PAYER_ACCOUNT, mint: MINT, owner: PAYER },
        receiver_token_account: TokenAccount { address: RECEIVER_ACCOUNT, mint: MINT, owner: RECEIVER },
        token_mint: MINT,
    }
}

fn charge_ctx() -> ChargeSubscription {
    ChargeSubscription {
        backend: AUTHORIZED_BACKEND,
        payer: PAYER,
        payer_token_account: PAYER_ACCOUNT,
        receiver_token_account: RECEIVER_ACCOUNT,
        token_mint: MINT,
    }
}

fn granted(id: &str, approved: u64) -> Approvals {
    let mut approvals = Approvals::new();
    let r = approve_delegate(&mut approvals, &grant_ctx(), id.to_string(), approved, 1_700_000_000, true);
    assert!(r.is_ok());
    approvals
}

fn spent(approvals: &Approvals, id: &str) -> u64 {
    approvals.get(&PAYER, &id.to_string()).unwrap().spent_amount
}

fn charge(approvals: &mut Approvals, id: &str, amount: u64) -> Result<(), ErrorCode> {
    charge_subscription(approvals, &charge_ctx(), id.to_string(), amount, true)
}

#[test]
fn grant_stores_record_with_nothing_spent() {
    let approvals = granted("abc123", 1000);
    let rec = approvals.get(&PAYER, &"abc123".to_string()).unwrap();
    assert_eq!(rec.payer, PAYER);
    assert_eq!(rec.receiver, RECEIVER);
    assert_eq!(rec.token_mint, MINT);
    assert_eq!(rec.payer_token_account, PAYER_ACCOUNT);
    assert_eq!(rec.receiver_token_account, RECEIVER_ACCOUNT);
    assert_eq!(rec.approved_amount, 1000);
    assert_eq!(rec.spent_amount, 0);
    assert_eq!(rec.subscription_id, "abc123");
    assert_eq!(rec.created_at, 1_700_000_000);
}

#[test]
fn charges_up_to_the_cap_and_no_further() {
    let mut approvals = granted("abc123", 1000);
    assert_eq!(charge(&mut approvals, "abc123", 400), Ok(()));
    assert_eq!(spent(&approvals, "abc123"), 400);
    assert_eq!(charge(&mut approvals, "abc123", 700), Err(ErrorCode::InsufficientAllowance));
    assert_eq!(spent(&approvals, "abc123"), 400);
    assert_eq!(charge(&mut approvals, "abc123", 600), Ok(()));
    assert_eq!(spent(&approvals, "abc123"), 1000);
    assert_eq!(charge(&mut approvals, "abc123", 1), Err(ErrorCode::InsufficientAllowance));
    assert_eq!(spent(&approvals, "abc123"), 1000);
}

#[test]
fn revoke_by_payer_then_charge_is_not_found() {
    let mut approvals = granted("abc123", 1000);
    let closed = revoke_delegate(&mut approvals, &RevokeDelegate { signer: PAYER, payer: PAYER }, "abc123".to_string());
    assert_eq!(closed.map(|r| r.approved_amount), Ok(1000));
    assert!(approvals.get(&PAYER, &"abc123".to_string()).is_none());
    assert_eq!(charge(&mut approvals, "abc123", 1), Err(ErrorCode::NotFound));
}

#[test]
fn revoke_by_stranger_is_refused_and_record_kept() {
    let mut approvals = granted("abc123", 1000);
    assert_eq!(charge(&mut approvals, "abc123", 250), Ok(()));
    let ctx = RevokeDelegate { signer: STRANGER, payer: PAYER };
    assert_eq!(revoke_delegate_handler(&approvals, &ctx, &"abc123".to_string()), Err(ErrorCode::Unauthorized));
    let r = revoke_delegate(&mut approvals, &ctx, "abc123".to_string());
    assert_eq!(r.err(), Some(ErrorCode::Unauthorized));
    let rec = approvals.get(&PAYER, &"abc123".to_string()).unwrap();
    assert_eq!(rec.spent_amount, 250);
    assert_eq!(rec.approved_amount, 1000);
}

#[test]
fn revoke_of_missing_record_is_not_found() {
    let mut approvals = Approvals::new();
    let ctx = RevokeDelegate { signer: PAYER, payer: PAYER };
    assert_eq!(revoke_delegate(&mut approvals, &ctx, "nope".to_string()).err(), Some(ErrorCode::NotFound));
}

#[test]
fn duplicate_grant_is_refused_and_record_kept() {
    let mut approvals = granted("abc123", 1000);
    assert_eq!(charge(&mut approvals, "abc123", 100), Ok(()));
    let r = approve_delegate(&mut approvals, &grant_ctx(), "abc123".to_string(), 5, 42, true);
    assert_eq!(r, Err(ErrorCode::DuplicateAuthorization));
    let rec = approvals.get(&PAYER, &"abc123".to_string()).unwrap();
    assert_eq!(rec.approved_amount, 1000);
    assert_eq!(rec.spent_amount, 100);
    assert_eq!(rec.created_at, 1_700_000_000);
}

#[test]
fn same_id_for_another_payer_is_a_separate_record() {
    let mut approvals = granted("abc123", 1000);
    let mut other = grant_ctx();
    other.payer = STRANGER;
    other.payer_token_account.owner = STRANGER;
    assert!(approve_delegate(&mut approvals, &other, "abc123".to_string(), 50, 7, true).is_ok());
    assert_eq!(approvals.get(&STRANGER, &"abc123".to_string()).unwrap().approved_amount, 50);
    assert_eq!(approvals.get(&PAYER, &"abc123".to_string()).unwrap().approved_amount, 1000);
}

#[test]
fn zero_cap_grant_refuses_any_positive_charge() {
    let mut approvals = granted("free", 0);
    assert_eq!(charge(&mut approvals, "free", 1), Err(ErrorCode::InsufficientAllowance));
    assert_eq!(charge(&mut approvals, "free", 0), Ok(()));
    assert_eq!(spent(&approvals, "free"), 0);
}

#[test]
fn overflowing_charge_is_refused_and_spent_kept() {
    let mut approvals = granted("big", u64::MAX);
    assert_eq!(charge(&mut approvals, "big", 10), Ok(()));
    assert_eq!(charge(&mut approvals, "big", u64::MAX), Err(ErrorCode::ArithmeticOverflow));
    assert_eq!(spent(&approvals, "big"), 10);
    assert_eq!(charge(&mut approvals, "big", u64::MAX - 10), Ok(()));
    assert_eq!(spent(&approvals, "big"), u64::MAX);
}

#[test]
fn charge_by_other_than_backend_is_unauthorized() {
    let mut approvals = granted("abc123", 1000);
    let mut ctx = charge_ctx();
    ctx.backend = PAYER;
    assert_eq!(charge_subscription(&mut approvals, &ctx, "abc123".to_string(), 1, true), Err(ErrorCode::Unauthorized));
    // also where the record is missing or the amount is out of reach
    assert_eq!(charge_subscription(&mut approvals, &ctx, "none".to_string(), u64::MAX, true), Err(ErrorCode::Unauthorized));
    assert_eq!(spent(&approvals, "abc123"), 0);
}

#[test]
fn failed_transfer_leaves_spent_unchanged() {
    let mut approvals = granted("abc123", 1000);
    assert!(charge_subscription_handler(&approvals, &charge_ctx(), &"abc123".to_string(), 300).is_ok());
    let r = charge_subscription(&mut approvals, &charge_ctx(), "abc123".to_string(), 300, false);
    assert_eq!(r, Err(ErrorCode::LedgerRejected));
    assert_eq!(spent(&approvals, "abc123"), 0);
    assert_eq!(charge(&mut approvals, "abc123", 300), Ok(()));
    assert_eq!(spent(&approvals, "abc123"), 300);
}

#[test]
fn charge_with_substituted_account_is_refused() {
    let mut approvals = granted("abc123", 1000);
    let mut ctx = charge_ctx();
    ctx.receiver_token_account = STRANGER;
    assert_eq!(charge_subscription(&mut approvals, &ctx, "abc123".to_string(), 1, true), Err(ErrorCode::InvalidTokenAccount));
    let mut ctx = charge_ctx();
    ctx.token_mint = STRANGER;
    assert_eq!(charge_subscription(&mut approvals, &ctx, "abc123".to_string(), 1, true), Err(ErrorCode::InvalidTokenAccount));
    assert_eq!(spent(&approvals, "abc123"), 0);
}

#[test]
fn grant_with_mismatched_accounts_is_refused() {
    let mut approvals = Approvals::new();
    let mut ctx = grant_ctx();
    ctx.payer_token_account.owner = STRANGER;
    assert_eq!(approve_delegate(&mut approvals, &ctx, "a".to_string(), 1, 0, true), Err(ErrorCode::InvalidTokenAccount));
    let mut ctx = grant_ctx();
    ctx.receiver_token_account.mint = STRANGER;
    assert_eq!(approve_delegate(&mut approvals, &ctx, "a".to_string(), 1, 0, true), Err(ErrorCode::InvalidTokenAccount));
    assert!(approvals.get(&PAYER, &"a".to_string()).is_none());
}

#[test]
fn grant_with_long_id_is_refused() {
    let mut approvals = Approvals::new();
    let id = "x".repeat(33);
    assert_eq!(approve_delegate(&mut approvals, &grant_ctx(), id, 1, 0, true), Err(ErrorCode::SubscriptionIdTooLong));
    let id = "x".repeat(32);
    assert!(approve_delegate(&mut approvals, &grant_ctx(), id, 1, 0, true).is_ok());
}

#[test]
fn grant_rejected_by_ledger_stores_nothing() {
    let mut approvals = Approvals::new();
    let r = approve_delegate(&mut approvals, &grant_ctx(), "abc123".to_string(), 1000, 0, false);
    assert_eq!(r, Err(ErrorCode::LedgerRejected));
    assert!(approvals.get(&PAYER, &"abc123".to_string()).is_none());
}

#[test]
fn grant_plan_names_the_delegate_and_the_amount() {
    let approvals = Approvals::new();
    let plan = approve_delegate_handler(&approvals, &grant_ctx(), &"abc123".to_string(), 1000, 3).unwrap();
    assert_eq!(plan.approve.account, PAYER_ACCOUNT);
    assert_eq!(plan.approve.owner, PAYER);
    assert_eq!(plan.approve.amount, 1000);
    assert_eq!(plan.record.spent_amount, 0);
    assert_ne!(plan.approve.delegate, PAYER);
}

#[test]
fn charge_transfer_is_signed_by_the_granted_delegate() {
    let mut approvals = Approvals::new();
    let plan = approve_delegate_handler(&approvals, &grant_ctx(), &"abc123".to_string(), 1000, 3).unwrap();
    let delegate = plan.approve.delegate;
    assert!(approve_delegate(&mut approvals, &grant_ctx(), "abc123".to_string(), 1000, 3, true).is_ok());
    let t = charge_subscription_handler(&approvals, &charge_ctx(), &"abc123".to_string(), 250).unwrap();
    assert_eq!(t.from, PAYER_ACCOUNT);
    assert_eq!(t.to, RECEIVER_ACCOUNT);
    assert_eq!(t.mint, MINT);
    assert_eq!(t.amount, 250);
    assert_eq!(t.authority, delegate);
    assert_eq!(t.authority_bump, plan.record.authority_bump);
}
