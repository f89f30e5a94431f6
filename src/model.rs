//! The data that the reconciliation works on: accounts, hashes and transactions.
use vstd::prelude::*;

verus! {

/// A 32-byte account address.
#[derive(Clone, Copy, Debug, PartialEq, Eq)]
pub struct AccountId {
    pub bytes: [u8; 32],
}

/// A 32-byte transaction hash.
#[derive(Clone, Copy, Debug, PartialEq, Eq)]
pub struct TxHash {
    pub bytes: [u8; 32],
}

/// What kind of event a transaction is.
#[derive(Clone, Copy, Debug)]
pub enum Details {
    /// A transfer of funds from one account to another.
    Transfer { from: AccountId, to: AccountId },
    /// A staking or delegation reward issued by the protocol.
    PaydayAccountReward,
    /// A change of delegation settings, not a transfer of value.
    ConfigureDelegation,
    /// Any other kind of event.
    Other,
}

/// One ledger event. Amounts are in micro-CCD, the ledger's smallest unit.
#[derive(Clone, Copy, Debug)]
pub struct Transaction {
    /// Content hash; absent for protocol-generated events.
    pub hash: Option<TxHash>,
    /// Time of the containing block, in milliseconds since the Unix epoch.
    pub block_time_ms: i64,
    pub details: Details,
    /// Fee charged to the sender; absent for protocol-generated events.
    pub cost: Option<u64>,
    /// Net effect on the account excluding the fee.
    pub subtotal: Option<i64>,
    /// Net effect on the account.
    pub total: Option<i64>,
    /// Sequence number assigned by the indexing service; the identity of the event.
    pub id: u64,
}

/// Whether `t` moves funds between two accounts that both lie in `owned`.
pub open spec fn is_self_transfer(t: Transaction, owned: Seq<AccountId>) -> bool {
    match t.details {
        Details::Transfer { from, to } => owned.contains(from) && owned.contains(to),
        _ => false,
    }
}

/// Whether two addresses are the same account.
pub fn same_account(a: &AccountId, b: &AccountId) -> (r: bool)
    ensures
        r == (*a == *b),
{
    broadcast use vstd::array::group_array_axioms;

    let mut i: usize = 0;
    while i < 32
        invariant
            0 <= i <= 32,
            forall|j: int| 0 <= j < i ==> a.bytes[j] == b.bytes[j],
        decreases 32 - i,
    {
        if a.bytes[i] != b.bytes[i] {
            return false;
        }
        i += 1;
    }
    assert(a.bytes =~= b.bytes);
    true
}

/// Whether `a` is one of the accounts in `owned`.
pub fn contains_account(owned: &Vec<AccountId>, a: &AccountId) -> (r: bool)
    ensures
        r == owned@.contains(*a),
{
    let mut i: usize = 0;
    while i < owned.len()
        invariant
            0 <= i <= owned@.len(),
            forall|j: int| 0 <= j < i ==> owned@[j] != *a,
        decreases owned@.len() - i,
    {
        if same_account(&owned[i], a) {
            assert(owned@[i as int] == *a);
            return true;
        }
        i += 1;
    }
    false
}

/// Whether `t` moves funds between two accounts that both lie in `owned`.
pub fn self_transfer(t: &Transaction, owned: &Vec<AccountId>) -> (r: bool)
    ensures
        r == is_self_transfer(*t, owned@),
{
    match &t.details {
        Details::Transfer { from, to } => contains_account(owned, from) && contains_account(owned, to),
        _ => false,
    }
}

} // verus!
