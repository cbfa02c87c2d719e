use vstd::prelude::*;

use crate::address::{same_address, Address};
use crate::authority::{authority_seeds, id_bytes, MAX_SUBSCRIPTION_ID_LEN, PROGRAM_ID};
use crate::derivation::derived_address;

verus! {

/// The persisted authorization of one payer for one subscription: a policy cap
/// laid over the allowance that the asset ledger holds for the delegate
/// authority.
pub struct DelegateApproval {
    /// The party who granted the allowance and the only one who may revoke it.
    pub payer: Address,
    /// The intended beneficiary wallet (informational).
    pub receiver: Address,
    /// The asset that this authorization covers.
    pub token_mint: Address,
    /// The account debited on charge.
    pub payer_token_account: Address,
    /// The account credited on charge.
    pub receiver_token_account: Address,
    /// The cap, fixed at grant.
    pub approved_amount: u64,
    /// What has been charged so far.
    pub spent_amount: u64,
    /// The external correlation key; with the payer it addresses the record.
    pub subscription_id: String,
    /// Unix time of the grant.
    pub created_at: i64,
    /// The bump seed of the record's own address.
    pub bump: u8,
    /// The bump seed that rebuilds the delegate authority.
    pub authority_bump: u8,
}

/// The mathematical value of a `DelegateApproval`.
pub struct Approval {
    pub payer: Address,
    pub receiver: Address,
    pub token_mint: Address,
    pub payer_token_account: Address,
    pub receiver_token_account: Address,
    pub approved_amount: u64,
    pub spent_amount: u64,
    pub subscription_id: Seq<char>,
    pub created_at: i64,
    pub bump: u8,
    pub authority_bump: u8,
}

impl View for DelegateApproval {
    type V = Approval;

    open spec fn view(&self) -> Approval {
        Approval {
            payer: self.payer,
            receiver: self.receiver,
            token_mint: self.token_mint,
            payer_token_account: self.payer_token_account,
            receiver_token_account: self.receiver_token_account,
            approved_amount: self.approved_amount,
            spent_amount: self.spent_amount,
            subscription_id: self.subscription_id@,
            created_at: self.created_at,
            bump: self.bump,
            authority_bump: self.authority_bump,
        }
    }
}

/// A record is addressed by its payer and the bytes of its subscription id.
pub type ApprovalKey = (Address, Seq<u8>);

pub open spec fn key_of(a: Approval) -> ApprovalKey {
    (a.payer, id_bytes(a.subscription_id))
}

impl Approval {
    /// What every live record satisfies: the cap holds, the identifier fits a
    /// seed, and the stored bump is the canonical bump of the delegate
    /// authority.
    pub open spec fn valid(self) -> bool {
        &&& self.spent_amount <= self.approved_amount
        &&& id_bytes(self.subscription_id).len() <= MAX_SUBSCRIPTION_ID_LEN
        &&& derived_address(authority_seeds(), PROGRAM_ID@) is Some
        &&& derived_address(authority_seeds(), PROGRAM_ID@)->Some_0.1 == self.authority_bump
    }

    /// This record with its spent total set to `spent`.
    pub open spec fn with_spent(self, spent: u64) -> Approval {
        Approval { spent_amount: spent, ..self }
    }
}

/// Between two states of the records, no live record's spent total went down
/// and no live record's cap changed.
pub open spec fn spent_never_decreases(before: Map<ApprovalKey, Approval>, after: Map<ApprovalKey, Approval>) -> bool {
    forall|k: ApprovalKey| #[trigger] before.contains_key(k) && after.contains_key(k) ==> {
        &&& before[k].spent_amount <= after[k].spent_amount
        &&& before[k].approved_amount == after[k].approved_amount
    }
}

/// No two records share a key.
pub open spec fn keys_unique(s: Seq<Approval>) -> bool {
    forall|i: int, j: int|
        0 <= i < s.len() && 0 <= j < s.len() && #[trigger] key_of(s[i]) == #[trigger] key_of(s[j])
            ==> i == j
}

/// The records of `s` by key.
pub open spec fn map_of(s: Seq<Approval>) -> Map<ApprovalKey, Approval> {
    Map::new(
        |k: ApprovalKey| exists|i: int| 0 <= i < s.len() && key_of(s[i]) == k,
        |k: ApprovalKey| s[choose|i: int| 0 <= i < s.len() && key_of(s[i]) == k],
    )
}

proof fn lemma_map_of_index(s: Seq<Approval>, i: int)
    requires
        keys_unique(s),
        0 <= i < s.len(),
    ensures
        map_of(s).contains_key(key_of(s[i])),
        map_of(s)[key_of(s[i])] == s[i],
{
    let k = key_of(s[i]);
    assert(exists|j: int| 0 <= j < s.len() && key_of(s[j]) == k);
    let j = choose|j: int| 0 <= j < s.len() && key_of(s[j]) == k;
    assert(key_of(s[j]) == key_of(s[i]));
}

proof fn lemma_map_of_push(s: Seq<Approval>, a: Approval)
    requires
        keys_unique(s),
        !map_of(s).contains_key(key_of(a)),
    ensures
        keys_unique(s.push(a)),
        map_of(s.push(a)) == map_of(s).insert(key_of(a), a),
{
    let t = s.push(a);
    assert forall|i: int, j: int|
        0 <= i < t.len() && 0 <= j < t.len() && #[trigger] key_of(t[i]) == #[trigger] key_of(t[j])
            implies i == j by {
        if i < s.len() && j == s.len() {
            assert(key_of(s[i]) == key_of(a));
        } else if j < s.len() && i == s.len() {
            assert(key_of(s[j]) == key_of(a));
        } else if i < s.len() && j < s.len() {
            assert(key_of(s[i]) == key_of(s[j]));
        }
    }
    assert forall|k: ApprovalKey| #[trigger] map_of(t).contains_key(k) == map_of(s).insert(key_of(a), a).contains_key(k) by {
        if map_of(s).contains_key(k) {
            let i = choose|i: int| 0 <= i < s.len() && key_of(s[i]) == k;
            assert(key_of(t[i]) == k);
        }
        if k == key_of(a) {
            assert(key_of(t[s.len() as int]) == k);
        }
        if map_of(t).contains_key(k) {
            let i = choose|i: int| 0 <= i < t.len() && key_of(t[i]) == k;
            if i < s.len() {
                assert(key_of(s[i]) == k);
            }
        }
    }
    assert forall|k: ApprovalKey| #[trigger] map_of(t).contains_key(k) implies map_of(t)[k] == map_of(s).insert(key_of(a), a)[k] by {
        if k == key_of(a) {
            lemma_map_of_index(t, s.len() as int);
        } else {
            let i = choose|i: int| 0 <= i < s.len() && key_of(s[i]) == k;
            assert(key_of(s[i]) == k);
            lemma_map_of_index(s, i);
            lemma_map_of_index(t, i);
        }
    }
    assert(map_of(t) =~= map_of(s).insert(key_of(a), a));
}

proof fn lemma_map_of_update(s: Seq<Approval>, i: int, a: Approval)
    requires
        keys_unique(s),
        0 <= i < s.len(),
        key_of(a) == key_of(s[i]),
    ensures
        keys_unique(s.update(i, a)),
        map_of(s.update(i, a)) == map_of(s).insert(key_of(a), a),
{
    let t = s.update(i, a);
    assert forall|p: int, q: int|
        0 <= p < t.len() && 0 <= q < t.len() && #[trigger] key_of(t[p]) == #[trigger] key_of(t[q])
            implies p == q by {
        assert(key_of(s[p]) == key_of(t[p]));
        assert(key_of(s[q]) == key_of(t[q]));
    }
    assert forall|k: ApprovalKey| #[trigger] map_of(t).contains_key(k) == map_of(s).insert(key_of(a), a).contains_key(k) by {
        if map_of(s).contains_key(k) {
            let j = choose|j: int| 0 <= j < s.len() && key_of(s[j]) == k;
            assert(key_of(t[j]) == k);
        }
        if map_of(t).contains_key(k) {
            let j = choose|j: int| 0 <= j < t.len() && key_of(t[j]) == k;
            assert(key_of(s[j]) == k);
        }
    }
    assert forall|k: ApprovalKey| #[trigger] map_of(t).contains_key(k) implies map_of(t)[k] == map_of(s).insert(key_of(a), a)[k] by {
        let j = choose|j: int| 0 <= j < t.len() && key_of(t[j]) == k;
        assert(key_of(t[j]) == k);
        lemma_map_of_index(t, j);
        if j != i {
            lemma_map_of_index(s, j);
        }
    }
    assert(map_of(t) =~= map_of(s).insert(key_of(a), a));
}

proof fn lemma_map_of_remove(s: Seq<Approval>, i: int)
    requires
        keys_unique(s),
        0 <= i < s.len(),
    ensures
        keys_unique(s.remove(i)),
        map_of(s.remove(i)) == map_of(s).remove(key_of(s[i])),
{
    let t = s.remove(i);
    let gone = key_of(s[i]);
    assert forall|p: int, q: int|
        0 <= p < t.len() && 0 <= q < t.len() && #[trigger] key_of(t[p]) == #[trigger] key_of(t[q])
            implies p == q by {
        let sp = if p < i { p } else { p + 1 };
        let sq = if q < i { q } else { q + 1 };
        assert(t[p] == s[sp]);
        assert(t[q] == s[sq]);
    }
    assert forall|k: ApprovalKey| #[trigger] map_of(t).contains_key(k) == map_of(s).remove(gone).contains_key(k) by {
        if map_of(t).contains_key(k) {
            let p = choose|p: int| 0 <= p < t.len() && key_of(t[p]) == k;
            let sp = if p < i { p } else { p + 1 };
            assert(t[p] == s[sp]);
            assert(key_of(s[sp]) == k);
        }
        if map_of(s).contains_key(k) && k != gone {
            let j = choose|j: int| 0 <= j < s.len() && key_of(s[j]) == k;
            if j < i {
                assert(t[j] == s[j]);
                assert(key_of(t[j]) == k);
            } else {
                assert(j != i);
                assert(t[j - 1] == s[j]);
                assert(key_of(t[j - 1]) == k);
            }
        }
    }
    assert forall|k: ApprovalKey| #[trigger] map_of(t).contains_key(k) implies map_of(t)[k] == map_of(s).remove(gone)[k] by {
        let p = choose|p: int| 0 <= p < t.len() && key_of(t[p]) == k;
        let sp = if p < i { p } else { p + 1 };
        assert(t[p] == s[sp]);
        lemma_map_of_index(t, p);
        lemma_map_of_index(s, sp);
    }
    assert(map_of(t) =~= map_of(s).remove(gone));
}

/// Compares two byte strings.
fn same_bytes(a: &[u8], b: &[u8]) -> (r: bool)
    ensures
        r == (a@ == b@),
{
    if a.len() != b.len() {
        return false;
    }
    let mut i: usize = 0;
    while i < a.len()
        invariant
            a@.len() == b@.len(),
            0 <= i <= a@.len(),
            forall|j: int| 0 <= j < i ==> a@[j] == b@[j],
        decreases a@.len() - i,
    {
        if a[i] != b[i] {
            return false;
        }
        i = i + 1;
    }
    assert(a@ =~= b@);
    true
}

/// The live authorization records, at most one for each payer and
/// subscription.
pub struct Approvals {
    pub(crate) records: Vec<DelegateApproval>,
}

impl View for Approvals {
    type V = Map<ApprovalKey, Approval>;

    closed spec fn view(&self) -> Map<ApprovalKey, Approval> {
        map_of(self.models())
    }
}

impl Approvals {
    spec fn models(&self) -> Seq<Approval> {
        self.records@.map_values(|r: DelegateApproval| r@)
    }

    /// Keys are unique and every record is valid.
    pub closed spec fn wf(&self) -> bool {
        &&& keys_unique(self.models())
        &&& forall|i: int| 0 <= i < self.models().len() ==> (#[trigger] self.models()[i]).valid()
    }

    /// Every record of a well-formed store is valid; in particular none has
    /// spent more than it was approved.
    pub proof fn lemma_cap_invariant(&self)
        requires
            self.wf(),
        ensures
            forall|k: ApprovalKey| #[trigger] self@.contains_key(k) ==> self@[k].valid(),
            forall|k: ApprovalKey| #[trigger] self@.contains_key(k) ==> self@[k].spent_amount <= self@[k].approved_amount,
    {
        assert forall|k: ApprovalKey| #[trigger] self@.contains_key(k) implies self@[k].valid() by {
            let i = choose|i: int| 0 <= i < self.models().len() && key_of(self.models()[i]) == k;
            lemma_map_of_index(self.models(), i);
        }
    }

    /// An empty store.
    pub fn new() -> (r: Approvals)
        ensures
            r.wf(),
            r@ == Map::<ApprovalKey, Approval>::empty(),
    {
        let r = Approvals { records: Vec::new() };
        assert(r.models() =~= Seq::<Approval>::empty());
        assert(r@ =~= Map::<ApprovalKey, Approval>::empty());
        r
    }

    pub(crate) fn position(&self, payer: &Address, subscription_id: &String) -> (r: Option<usize>)
        requires
            self.wf(),
        ensures
            match r {
                Some(i) => {
                    &&& i < self.records@.len()
                    &&& key_of(self.records@[i as int]@) == (*payer, id_bytes(subscription_id@))
                    &&& self@.contains_key((*payer, id_bytes(subscription_id@)))
                    &&& self@[(*payer, id_bytes(subscription_id@))] == self.records@[i as int]@
                },
                None => !self@.contains_key((*payer, id_bytes(subscription_id@))),
            },
    {
        let id = subscription_id.as_str().as_bytes();
        assert(id@ == id_bytes(subscription_id@));
        let ghost k = (*payer, id_bytes(subscription_id@));
        let mut i: usize = 0;
        while i < self.records.len()
            invariant
                self.wf(),
                0 <= i <= self.records@.len(),
                k == (*payer, id_bytes(subscription_id@)),
                id@ == k.1,
                forall|j: int| 0 <= j < i ==> key_of(#[trigger] self.records@[j]@) != k,
            decreases self.records@.len() - i,
        {
            let r = &self.records[i];
            let rid = r.subscription_id.as_str().as_bytes();
            assert(key_of(r@) == (r.payer, rid@));
            if same_address(&r.payer, payer) && same_bytes(rid, id) {
                assert(self.models()[i as int] == self.records@[i as int]@);
                proof {
                    lemma_map_of_index(self.models(), i as int);
                }
                return Some(i);
            }
            i = i + 1;
        }
        assert forall|j: int| 0 <= j < self.models().len() implies key_of(self.models()[j]) != k by {
            assert(self.models()[j] == self.records@[j]@);
        }
        None
    }

    /// The record of `payer` under `subscription_id`, if one is live.
    pub fn get(&self, payer: &Address, subscription_id: &String) -> (r: Option<&DelegateApproval>)
        requires
            self.wf(),
        ensures
            match r {
                Some(a) => self@.contains_key((*payer, id_bytes(subscription_id@)))
                    && self@[(*payer, id_bytes(subscription_id@))] == a@,
                None => !self@.contains_key((*payer, id_bytes(subscription_id@))),
            },
    {
        match self.position(payer, subscription_id) {
            Some(i) => Some(&self.records[i]),
            None => None,
        }
    }

    pub(crate) fn insert_new(&mut self, record: DelegateApproval)
        requires
            old(self).wf(),
            record@.valid(),
            !old(self)@.contains_key(key_of(record@)),
        ensures
            final(self).wf(),
            final(self)@ == old(self)@.insert(key_of(record@), record@),
    {
        let ghost a = record@;
        proof {
            lemma_map_of_push(self.models(), a);
        }
        self.records.push(record);
        assert(self.models() =~= old(self).models().push(a));
    }

    pub(crate) fn set_spent(&mut self, i: usize, spent: u64)
        requires
            old(self).wf(),
            i < old(self).records@.len(),
            spent <= old(self).records@[i as int].approved_amount,
        ensures
            final(self).wf(),
            final(self)@ == old(self)@.insert(
                key_of(old(self).records@[i as int]@),
                old(self).records@[i as int]@.with_spent(spent),
            ),
    {
        let ghost a = self.records@[i as int]@.with_spent(spent);
        proof {
            lemma_map_of_update(self.models(), i as int, a);
        }
        self.records[i].spent_amount = spent;
        assert(self.records@[i as int]@ == a);
        assert(self.models() =~= old(self).models().update(i as int, a));
    }

    pub(crate) fn remove_at(&mut self, i: usize) -> (r: DelegateApproval)
        requires
            old(self).wf(),
            i < old(self).records@.len(),
        ensures
            final(self).wf(),
            r@ == old(self).records@[i as int]@,
            final(self)@ == old(self)@.remove(key_of(r@)),
    {
        proof {
            lemma_map_of_remove(self.models(), i as int);
        }
        let r = self.records.remove(i);
        assert(self.models() =~= old(self).models().remove(i as int));
        r
    }
}

} // verus!
