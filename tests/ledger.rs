use ccd_tax_export::export::{export_ledger, export_rows};
use ccd_tax_export::ledger::Ledger;
use ccd_tax_export::model::{contains_account, same_account, self_transfer, AccountId, Details, Transaction};

fn at(id: u64, block_time_ms: i64) -> Transaction {
    Transaction {
        hash: None,
        block_time_ms,
        details: Details::Other,
        cost: None,
        subtotal: None,
        total: Some(id as i64),
        id,
    }
}

fn ids(l: &Ledger) -> Vec<u64> {
    l.transactions().iter().map(|t| t.id).collect()
}

fn acct(b: u8) -> AccountId {
    AccountId { bytes: [b; 32] }
}

#[test]
fn merging_twice_equals_merging_once() {
    let page = vec![at(3, 30), at(1, 10), at(2, 20), at(1, 10)];
    let mut once = Ledger::new();
    once.merge(&page);
    let mut twice = Ledger::new();
    twice.merge(&page);
    twice.merge(&page);
    assert_eq!(ids(&once), vec![1, 2, 3]);
    assert_eq!(ids(&twice), ids(&once));
}

#[test]
fn duplicate_id_is_ignored_even_with_other_fields() {
    let mut l = Ledger::new();
    assert!(l.insert(at(5, 100)));
    assert!(!l.insert(at(5, 1)));
    assert_eq!(l.len(), 1);
    assert_eq!(l.transactions()[0].block_time_ms, 100);
    assert!(l.contains_id(5));
    assert!(!l.contains_id(6));
}

#[test]
fn order_is_by_block_time_whatever_the_insertion_order() {
    let pages = [vec![at(9, 90), at(4, 40)], vec![at(7, 70), at(1, 10), at(4, 40)], vec![at(2, 20)]];
    let mut a = Ledger::new();
    for p in pages.iter() {
        a.merge(p);
    }
    let mut b = Ledger::new();
    for p in pages.iter().rev() {
        b.merge(p);
    }
    assert_eq!(ids(&a), vec![1, 2, 4, 7, 9]);
    assert_eq!(ids(&b), vec![1, 2, 4, 7, 9]);
}

#[test]
fn equal_times_keep_insertion_order() {
    let mut l = Ledger::new();
    l.merge(&vec![at(2, 10), at(1, 10), at(3, 5)]);
    assert_eq!(ids(&l), vec![3, 2, 1]);
}

#[test]
fn empty_page_changes_nothing() {
    let mut l = Ledger::new();
    l.merge(&vec![]);
    assert_eq!(l.len(), 0);
}

#[test]
fn self_transfer_between_owned_accounts_is_removed() {
    let owned = vec![acct(1), acct(2)];
    let mut l = Ledger::new();
    let mut inner = at(1, 10);
    inner.details = Details::Transfer { from: acct(1), to: acct(1) };
    let mut between = at(2, 20);
    between.details = Details::Transfer { from: acct(1), to: acct(2) };
    let mut out = at(3, 30);
    out.details = Details::Transfer { from: acct(1), to: acct(9) };
    let mut incoming = at(4, 40);
    incoming.details = Details::Transfer { from: acct(9), to: acct(2) };
    let reward = at(5, 50);
    l.merge(&vec![inner, between, out, incoming, reward]);
    l.retain_external(&owned);
    assert_eq!(ids(&l), vec![3, 4, 5]);
}

#[test]
fn account_lookup() {
    let owned = vec![acct(1), acct(2)];
    assert!(contains_account(&owned, &acct(2)));
    assert!(!contains_account(&owned, &acct(3)));
    assert!(same_account(&acct(4), &acct(4)));
    let mut other = acct(4);
    other.bytes[31] = 0;
    assert!(!same_account(&acct(4), &other));
    let mut t = at(1, 1);
    t.details = Details::Transfer { from: acct(1), to: acct(2) };
    assert!(self_transfer(&t, &owned));
    t.details = Details::PaydayAccountReward;
    assert!(!self_transfer(&t, &owned));
}

#[test]
fn missing_amount_is_skipped_and_siblings_still_transform() {
    let mut missing = at(2, 20);
    missing.total = None;
    let txs = vec![at(1, 10), missing, at(3, 30)];
    let out = export_rows(&txs);
    assert_eq!(out.skipped, 1);
    assert_eq!(out.rows.len(), 2);
    assert_eq!(out.rows[0].amount_micro, 1);
    assert_eq!(out.rows[1].amount_micro, 3);
}

#[test]
fn export_ledger_filters_then_transforms() {
    let owned = vec![acct(1), acct(2)];
    let mut l = Ledger::new();
    let mut inner = at(1, 10);
    inner.details = Details::Transfer { from: acct(1), to: acct(2) };
    inner.cost = Some(10);
    let mut paid = at(2, 20);
    paid.total = Some(-510);
    paid.subtotal = Some(-500);
    paid.cost = Some(10);
    paid.details = Details::Transfer { from: acct(1), to: acct(8) };
    l.merge(&vec![paid, inner]);
    let out = export_ledger(l, &owned);
    assert_eq!(out.skipped, 0);
    assert_eq!(out.rows.len(), 2);
    assert_eq!(out.rows[0].amount_micro, -500);
    assert_eq!(out.rows[1].amount_micro, -10);
}
