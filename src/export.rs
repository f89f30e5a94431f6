//! The last stage: from the reconciled ledger to the rows of the export.
use vstd::prelude::*;

use crate::ledger::{without_self_transfers, Ledger};
use crate::model::{AccountId, Transaction};
use crate::rows::{to_rows, transform, ExportRow, RowModel, TransformError};
use vstd::seq_lib::lemma_flatten_concat;

verus! {

/// The rows of an export, and how many transactions yielded none because
/// they could not be transformed.
#[derive(Debug)]
pub struct ExportOutcome {
    pub rows: Vec<ExportRow>,
    pub skipped: usize,
}

/// The rows of `t`; none when it cannot be transformed.
pub open spec fn rows_or_none(t: Transaction) -> Seq<RowModel> {
    match transform(t) {
        Ok(rows) => rows,
        Err(_) => Seq::empty(),
    }
}

/// The rows of the transactions of `s`, in the order of `s`.
pub open spec fn export_spec(s: Seq<Transaction>) -> Seq<RowModel> {
    s.map_values(|t: Transaction| rows_or_none(t)).flatten()
}

/// The transactions of `s` that cannot be transformed.
pub open spec fn failed(s: Seq<Transaction>) -> Seq<Transaction> {
    s.filter(|t: Transaction| transform(t) is Err)
}

pub open spec fn rows_model(v: Seq<ExportRow>) -> Seq<RowModel> {
    v.map_values(|x: ExportRow| x@)
}

/// A transaction without a `total` yields no rows and is counted as skipped;
/// the rows of the transactions around it are those they would have without
/// it.
pub proof fn lemma_missing_amount_skipped(s: Seq<Transaction>, i: int)
    requires
        0 <= i < s.len(),
        s[i].total is None,
    ensures
        transform(s[i]) == Err::<Seq<RowModel>, TransformError>(TransformError::MissingAmount),
        export_spec(s) == export_spec(s.take(i)) + export_spec(s.skip(i + 1)),
        export_spec(s) == export_spec(s.remove(i)),
        failed(s).len() == failed(s.remove(i)).len() + 1,
{
    let f = |t: Transaction| rows_or_none(t);
    let p = |t: Transaction| transform(t) is Err;
    let a = s.take(i);
    let b = s.skip(i + 1);
    let mid = seq![s[i]];
    assert(s =~= a + mid + b);
    assert(s.remove(i) =~= a + b);
    assert(s.map_values(f) =~= a.map_values(f) + mid.map_values(f) + b.map_values(f));
    assert(s.remove(i).map_values(f) =~= a.map_values(f) + b.map_values(f));
    lemma_flatten_concat(a.map_values(f) + mid.map_values(f), b.map_values(f));
    lemma_flatten_concat(a.map_values(f), mid.map_values(f));
    lemma_flatten_concat(a.map_values(f), b.map_values(f));
    assert(mid.map_values(f) =~= seq![Seq::<RowModel>::empty()]);
    assert(mid.map_values(f).flatten() =~= Seq::<RowModel>::empty()) by {
        reveal_with_fuel(Seq::flatten, 2);
    }
    Seq::filter_distributes_over_add(a + mid, b, p);
    Seq::filter_distributes_over_add(a, mid, p);
    Seq::filter_distributes_over_add(a, b, p);
    assert(mid.filter(p) =~= mid) by {
        reveal_with_fuel(Seq::filter, 2);
    }
}

/// The rows of every transaction of `txs`, in order. A transaction that cannot
/// be transformed is skipped and counted; the others are not affected by it.
pub fn export_rows(txs: &Vec<Transaction>) -> (r: ExportOutcome)
    ensures
        rows_model(r.rows@) == export_spec(txs@),
        r.skipped == failed(txs@).len(),
{
    let ghost s = txs@;
    let ghost fail_pred = |t: Transaction| transform(t) is Err;
    let ghost row_fn = |t: Transaction| rows_or_none(t);
    let mut rows: Vec<ExportRow> = Vec::new();
    let mut skipped: usize = 0;
    let mut i: usize = 0;
    while i < txs.len()
        invariant
            0 <= i <= s.len(),
            s == txs@,
            fail_pred == (|t: Transaction| transform(t) is Err),
            row_fn == (|t: Transaction| rows_or_none(t)),
            rows_model(rows@) == s.take(i as int).map_values(row_fn).flatten(),
            skipped == s.take(i as int).filter(fail_pred).len(),
            skipped <= i,
        decreases s.len() - i,
    {
        let t = txs[i];
        proof {
            reveal(Seq::filter);
            assert(s.take(i as int + 1).drop_last() =~= s.take(i as int));
            assert(s.take(i as int + 1).last() == t);
            assert(s.take(i as int + 1).map_values(row_fn) =~= s.take(i as int).map_values(row_fn).push(rows_or_none(t)));
            s.take(i as int).map_values(row_fn).lemma_flatten_push(rows_or_none(t));
        }
        let ghost before = rows@;
        match to_rows(&t) {
            Ok(mut more) => {
                assert(!fail_pred(t));
                let ghost added = more@;
                rows.append(&mut more);
                assert(rows_model(rows@) =~= rows_model(before) + rows_model(added));
            },
            Err(_) => {
                assert(fail_pred(t));
                assert(rows_or_none(t) =~= Seq::<RowModel>::empty());
                assert(rows_model(rows@) =~= rows_model(before) + rows_or_none(t));
                skipped += 1;
            },
        }
        i += 1;
    }
    assert(s.take(s.len() as int) =~= s);
    ExportOutcome { rows, skipped }
}

/// The export of `ledger`: transfers between two accounts of `owned` are
/// removed, then every remaining transaction is turned into its rows.
pub fn export_ledger(ledger: Ledger, owned: &Vec<AccountId>) -> (r: ExportOutcome)
    requires
        ledger.wf(),
    ensures
        rows_model(r.rows@) == export_spec(without_self_transfers(ledger@, owned@)),
        r.skipped == failed(without_self_transfers(ledger@, owned@)).len(),
{
    let mut ledger = ledger;
    ledger.retain_external(owned);
    export_rows(ledger.transactions())
}

} // verus!
