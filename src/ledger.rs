//! The ledger: transactions from any number of pages, kept once per id and
//! ordered by block time.
use vstd::prelude::*;

use crate::model::{is_self_transfer, self_transfer, AccountId, Transaction};

verus! {

/// Entries are in ascending order of block time.
pub open spec fn sorted_by_time(s: Seq<Transaction>) -> bool {
    forall|i: int, j: int| 0 <= i <= j < s.len() ==> s[i].block_time_ms <= s[j].block_time_ms
}

/// No two entries share an id.
pub open spec fn ids_unique(s: Seq<Transaction>) -> bool {
    forall|i: int, j: int| 0 <= i < j < s.len() ==> s[i].id != s[j].id
}

pub open spec fn is_ledger(s: Seq<Transaction>) -> bool {
    sorted_by_time(s) && ids_unique(s)
}

/// Some entry of `s` has the id `id`.
pub open spec fn has_id(s: Seq<Transaction>, id: u64) -> bool {
    exists|i: int| 0 <= i < s.len() && s[i].id == id
}

/// Some transaction of `page` has the id `id`.
pub open spec fn page_has_id(page: Seq<Transaction>, id: u64) -> bool {
    exists|j: int| 0 <= j < page.len() && page[j].id == id
}

/// The index of the first entry of `s` whose block time is later than that of
/// `t`: where `t` goes, after every entry of the same time.
pub open spec fn slot(s: Seq<Transaction>, t: Transaction) -> int
    decreases s.len(),
{
    if s.len() == 0 {
        0
    } else if s[0].block_time_ms > t.block_time_ms {
        0
    } else {
        1 + slot(s.drop_first(), t)
    }
}

/// `s` with `t` added, unless an entry with the same id is already there.
pub open spec fn insert_spec(s: Seq<Transaction>, t: Transaction) -> Seq<Transaction> {
    if has_id(s, t.id) {
        s
    } else {
        s.insert(slot(s, t), t)
    }
}

/// `s` with the transactions of `page` added one after another.
pub open spec fn merge_spec(s: Seq<Transaction>, page: Seq<Transaction>) -> Seq<Transaction>
    decreases page.len(),
{
    if page.len() == 0 {
        s
    } else {
        insert_spec(merge_spec(s, page.drop_last()), page.last())
    }
}

/// `s` without the transfers between two accounts of `owned`.
pub open spec fn without_self_transfers(s: Seq<Transaction>, owned: Seq<AccountId>) -> Seq<Transaction> {
    s.filter(|t: Transaction| !is_self_transfer(t, owned))
}

proof fn lemma_slot(s: Seq<Transaction>, t: Transaction)
    ensures
        0 <= slot(s, t) <= s.len(),
        forall|j: int| 0 <= j < slot(s, t) ==> s[j].block_time_ms <= t.block_time_ms,
        slot(s, t) < s.len() ==> s[slot(s, t)].block_time_ms > t.block_time_ms,
    decreases s.len(),
{
    if s.len() > 0 && s[0].block_time_ms <= t.block_time_ms {
        lemma_slot(s.drop_first(), t);
        assert forall|j: int| 0 <= j < slot(s, t) implies s[j].block_time_ms <= t.block_time_ms by {
            if j > 0 {
                assert(s[j] == s.drop_first()[j - 1]);
            }
        }
    }
}

proof fn lemma_insert_has_id(s: Seq<Transaction>, t: Transaction, id: u64)
    ensures
        has_id(insert_spec(s, t), id) <==> (has_id(s, id) || id == t.id),
{
    if !has_id(s, t.id) {
        lemma_slot(s, t);
        let k = slot(s, t);
        let r = s.insert(k, t);
        if has_id(s, id) {
            let i = choose|i: int| 0 <= i < s.len() && s[i].id == id;
            if i < k {
                assert(r[i].id == id);
            } else {
                assert(r[i + 1].id == id);
            }
        }
        if has_id(r, id) && id != t.id {
            let i = choose|i: int| 0 <= i < r.len() && r[i].id == id;
            if i < k {
                assert(s[i].id == id);
            } else {
                assert(s[i - 1].id == id);
            }
        }
        assert(r[k].id == t.id);
    }
}

proof fn lemma_insert_keeps_ledger(s: Seq<Transaction>, t: Transaction)
    requires
        is_ledger(s),
    ensures
        is_ledger(insert_spec(s, t)),
{
    if !has_id(s, t.id) {
        lemma_slot(s, t);
        let k = slot(s, t);
        let r = s.insert(k, t);
        assert forall|i: int, j: int| 0 <= i <= j < r.len() implies r[i].block_time_ms <= r[j].block_time_ms by {
            if k < s.len() {
                assert(s[k].block_time_ms > t.block_time_ms);
            }
            if i < k && j > k {
                assert(s[i].block_time_ms <= s[j - 1].block_time_ms);
            }
            if i == k && j > k {
                assert(s[k].block_time_ms <= s[j - 1].block_time_ms);
            }
        }
        assert forall|i: int, j: int| 0 <= i < j < r.len() implies r[i].id != r[j].id by {
            if i == k {
                assert(s[j - 1].id == r[j].id);
            } else if j == k {
                assert(s[i].id == r[i].id);
            }
        }
    }
}

proof fn lemma_merge_has_id(s: Seq<Transaction>, page: Seq<Transaction>, id: u64)
    ensures
        has_id(merge_spec(s, page), id) <==> (has_id(s, id) || page_has_id(page, id)),
    decreases page.len(),
{
    if page.len() > 0 {
        let init = page.drop_last();
        lemma_merge_has_id(s, init, id);
        lemma_insert_has_id(merge_spec(s, init), page.last(), id);
        if page_has_id(page, id) {
            let j = choose|j: int| 0 <= j < page.len() && page[j].id == id;
            if j < page.len() - 1 {
                assert(init[j].id == id);
            }
        }
        if page_has_id(init, id) {
            let j = choose|j: int| 0 <= j < init.len() && init[j].id == id;
            assert(page[j].id == id);
        }
    }
}

proof fn lemma_merge_known(s: Seq<Transaction>, page: Seq<Transaction>)
    requires
        forall|j: int| 0 <= j < page.len() ==> has_id(s, #[trigger] page[j].id),
    ensures
        merge_spec(s, page) == s,
    decreases page.len(),
{
    if page.len() > 0 {
        let init = page.drop_last();
        assert forall|j: int| 0 <= j < init.len() implies has_id(s, #[trigger] init[j].id) by {
            assert(init[j] == page[j]);
        }
        lemma_merge_known(s, init);
        assert(has_id(s, page[page.len() - 1].id));
    }
}

/// Merging a page keeps the ledger ordered by block time and free of repeated
/// ids, and afterwards the ledger holds exactly the ids it held before and
/// those of the page, whatever the order of the page.
pub proof fn lemma_merge_ordered_union(s: Seq<Transaction>, page: Seq<Transaction>)
    requires
        is_ledger(s),
    ensures
        is_ledger(merge_spec(s, page)),
        forall|id: u64| #[trigger] has_id(merge_spec(s, page), id) <==> (has_id(s, id) || page_has_id(page, id)),
    decreases page.len(),
{
    if page.len() > 0 {
        lemma_merge_ordered_union(s, page.drop_last());
        lemma_insert_keeps_ledger(merge_spec(s, page.drop_last()), page.last());
    }
    assert forall|id: u64| #[trigger] has_id(merge_spec(s, page), id) <==> (has_id(s, id) || page_has_id(page, id)) by {
        lemma_merge_has_id(s, page, id);
    }
}

/// Merging the same page twice gives the same ledger as merging it once.
pub proof fn lemma_merge_idempotent(s: Seq<Transaction>, page: Seq<Transaction>)
    ensures
        merge_spec(merge_spec(s, page), page) == merge_spec(s, page),
{
    let once = merge_spec(s, page);
    assert forall|j: int| 0 <= j < page.len() implies has_id(once, #[trigger] page[j].id) by {
        lemma_merge_has_id(s, page, page[j].id);
    }
    lemma_merge_known(once, page);
}

proof fn lemma_filter_keeps_ledger(s: Seq<Transaction>, pred: spec_fn(Transaction) -> bool)
    requires
        is_ledger(s),
    ensures
        is_ledger(s.filter(pred)),
    decreases s.len(),
{
    reveal(Seq::filter);
    if s.len() > 0 {
        let init = s.drop_last();
        assert(is_ledger(init));
        lemma_filter_keeps_ledger(init, pred);
        let f = init.filter(pred);
        if pred(s.last()) {
            let r = f.push(s.last());
            assert forall|i: int| 0 <= i < f.len() implies #[trigger] f[i].block_time_ms <= s.last().block_time_ms
                && f[i].id != s.last().id by {
                init.lemma_filter_contains_rev(pred, f[i]);
                let k = choose|k: int| 0 <= k < init.len() && init[k] == f[i];
                assert(s[k] == f[i]);
            }
            assert forall|i: int, j: int| 0 <= i <= j < r.len() implies r[i].block_time_ms <= r[j].block_time_ms by {
                if j == r.len() - 1 && i < j {
                    assert(f[i].block_time_ms <= s.last().block_time_ms);
                }
            }
            assert forall|i: int, j: int| 0 <= i < j < r.len() implies r[i].id != r[j].id by {
                if j == r.len() - 1 {
                    assert(f[i].id != s.last().id);
                }
            }
        }
    }
}

/// A transaction of the ledger survives the removal of self-transfers exactly
/// when it is not a transfer between two owned accounts: one whose sender and
/// receiver are both owned goes, one with an account outside `owned` on
/// either side stays, as does every event that is not a transfer.
pub proof fn lemma_self_transfers_excluded(s: Seq<Transaction>, owned: Seq<AccountId>, t: Transaction)
    requires
        s.contains(t),
    ensures
        without_self_transfers(s, owned).contains(t) <==> !is_self_transfer(t, owned),
{
    let pred = |x: Transaction| !is_self_transfer(x, owned);
    let i = choose|i: int| 0 <= i < s.len() && s[i] == t;
    if pred(t) {
        s.lemma_filter_contains(pred, i);
    }
    if s.filter(pred).contains(t) {
        let j = choose|j: int| 0 <= j < s.filter(pred).len() && s.filter(pred)[j] == t;
        s.lemma_filter_pred(pred, j);
    }
}

/// Transactions kept once per id, in ascending order of block time.
pub struct Ledger {
    txs: Vec<Transaction>,
}

impl View for Ledger {
    type V = Seq<Transaction>;

    closed spec fn view(&self) -> Seq<Transaction> {
        self.txs@
    }
}

impl Ledger {
    pub open spec fn wf(&self) -> bool {
        is_ledger(self@)
    }

    /// An empty ledger.
    pub fn new() -> (r: Ledger)
        ensures
            r@ == Seq::<Transaction>::empty(),
            r.wf(),
    {
        Ledger { txs: Vec::new() }
    }

    pub fn len(&self) -> (r: usize)
        ensures
            r == self@.len(),
    {
        self.txs.len()
    }

    /// The entries, oldest first.
    pub fn transactions(&self) -> (r: &Vec<Transaction>)
        ensures
            r@ == self@,
    {
        &self.txs
    }

    /// Whether an entry has the id `id`.
    pub fn contains_id(&self, id: u64) -> (r: bool)
        ensures
            r == has_id(self@, id),
    {
        let mut i: usize = 0;
        while i < self.txs.len()
            invariant
                0 <= i <= self@.len(),
                forall|j: int| 0 <= j < i ==> self@[j].id != id,
            decreases self@.len() - i,
        {
            if self.txs[i].id == id {
                return true;
            }
            i += 1;
        }
        false
    }

    /// Adds `t` after every entry of the same or an earlier block time, unless
    /// an entry with its id is there already. Returns whether it was added.
    pub fn insert(&mut self, t: Transaction) -> (added: bool)
        requires
            old(self).wf(),
        ensures
            final(self).wf(),
            final(self)@ == insert_spec(old(self)@, t),
            added == !has_id(old(self)@, t.id),
    {
        if self.contains_id(t.id) {
            return false;
        }
        let mut i: usize = 0;
        while i < self.txs.len() && self.txs[i].block_time_ms <= t.block_time_ms
            invariant
                0 <= i <= self@.len(),
                forall|j: int| 0 <= j < i ==> self@[j].block_time_ms <= t.block_time_ms,
            decreases self@.len() - i,
        {
            i += 1;
        }
        proof {
            lemma_slot(self@, t);
            lemma_insert_keeps_ledger(self@, t);
            if slot(self@, t) < i {
                assert(self@[slot(self@, t)].block_time_ms <= t.block_time_ms);
            }
            if slot(self@, t) > i {
                assert(self@[i as int].block_time_ms <= t.block_time_ms);
            }
        }
        self.txs.insert(i, t);
        true
    }

    /// Adds the transactions of `page` in turn; those whose id is already
    /// present are left out.
    pub fn merge(&mut self, page: &Vec<Transaction>)
        requires
            old(self).wf(),
        ensures
            final(self).wf(),
            final(self)@ == merge_spec(old(self)@, page@),
    {
        let mut i: usize = 0;
        while i < page.len()
            invariant
                0 <= i <= page@.len(),
                self.wf(),
                self@ == merge_spec(old(self)@, page@.take(i as int)),
            decreases page@.len() - i,
        {
            let t = page[i];
            self.insert(t);
            assert(page@.take(i as int + 1).drop_last() =~= page@.take(i as int));
            i += 1;
        }
        assert(page@.take(page@.len() as int) =~= page@);
    }

    /// Removes every transfer between two accounts of `owned`.
    pub fn retain_external(&mut self, owned: &Vec<AccountId>)
        requires
            old(self).wf(),
        ensures
            final(self).wf(),
            final(self)@ == without_self_transfers(old(self)@, owned@),
    {
        let ghost pred = |t: Transaction| !is_self_transfer(t, owned@);
        let ghost s = self@;
        let mut kept: Vec<Transaction> = Vec::new();
        let mut i: usize = 0;
        while i < self.txs.len()
            invariant
                0 <= i <= s.len(),
                self@ == s,
                pred == (|t: Transaction| !is_self_transfer(t, owned@)),
                kept@ == s.take(i as int).filter(pred),
            decreases s.len() - i,
        {
            let t = self.txs[i];
            proof {
                reveal(Seq::filter);
                assert(s.take(i as int + 1).drop_last() =~= s.take(i as int));
                assert(s.take(i as int + 1).last() == t);
            }
            if !self_transfer(&t, owned) {
                assert(pred(t));
                kept.push(t);
                assert(kept@ =~= s.take(i as int + 1).filter(pred));
            } else {
                assert(!pred(t));
                assert(kept@ =~= s.take(i as int + 1).filter(pred));
            }
            i += 1;
        }
        proof {
            assert(s.take(s.len() as int) =~= s);
            lemma_filter_keeps_ledger(s, pred);
        }
        self.txs = kept;
    }
}

} // verus!
