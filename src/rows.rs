//! Turning one transaction into the rows of the export.
use vstd::prelude::*;

use crate::model::{Details, Transaction, TxHash};

verus! {

/// The tag of an export row.
#[derive(Clone, Copy, Debug, PartialEq, Eq, Structural)]
pub enum Label {
    Fee,
    Mining,
}

/// Why a transaction yields no rows.
#[derive(Clone, Copy, Debug, PartialEq, Eq, Structural)]
pub enum TransformError {
    /// The transaction has no `total`, so it cannot be priced.
    MissingAmount,
    /// The block time cannot be represented as a calendar date.
    TimestampConversion,
}

/// One accounting line. The amount is in micro-CCD; dividing by 1,000,000
/// gives CCD.
#[derive(Clone, Debug)]
pub struct ExportRow {
    /// Minute-precision UTC date.
    pub date: String,
    pub amount_micro: i128,
    pub currency: String,
    pub label: Option<Label>,
    pub tx_hash: Option<TxHash>,
}

/// The mathematical content of an [`ExportRow`].
pub struct RowModel {
    pub date: Seq<char>,
    pub amount: int,
    pub currency: Seq<char>,
    pub label: Option<Label>,
    pub tx_hash: Option<TxHash>,
}

impl View for ExportRow {
    type V = RowModel;

    open spec fn view(&self) -> RowModel {
        RowModel {
            date: self.date@,
            amount: self.amount_micro as int,
            currency: self.currency@,
            label: self.label,
            tx_hash: self.tx_hash,
        }
    }
}

/// The currency code of every row.
pub open spec fn ccd_code() -> Seq<char> {
    seq!['C', 'C', 'D']
}

/// A row in the base currency.
pub open spec fn ccd_row(date: Seq<char>, amount: int, label: Option<Label>, tx_hash: Option<TxHash>) -> RowModel {
    RowModel { date, amount, currency: ccd_code(), label, tx_hash }
}

pub open spec fn abs(x: int) -> int {
    if x < 0 { -x } else { x }
}

/// The rows of `t` when its block time reads `date`: the principal row carries
/// `subtotal` (or `total` when there is none) and, for a reward, the label
/// `Mining`; a fee row carries minus `cost` and the label `Fee`. When the whole
/// net effect is the fee, only the fee row is kept.
pub open spec fn rows_on(t: Transaction, date: Seq<char>) -> Result<Seq<RowModel>, TransformError> {
    match t.total {
        None => Err(TransformError::MissingAmount),
        Some(total) => {
            let amount = match t.subtotal {
                Some(sub) => sub as int,
                None => total as int,
            };
            let label = match t.details {
                Details::PaydayAccountReward => Some(Label::Mining),
                _ => None,
            };
            let principal = ccd_row(date, amount, label, t.hash);
            match t.cost {
                None => Ok(seq![principal]),
                Some(cost) => {
                    let fee = ccd_row(date, -(cost as int), Some(Label::Fee), t.hash);
                    if abs(total as int) == cost as int {
                        Ok(seq![fee])
                    } else {
                        Ok(seq![principal, fee])
                    }
                },
            }
        },
    }
}

/// Minute-precision UTC text of an instant given in milliseconds since the
/// Unix epoch, or `None` where the instant has no calendar date.
pub uninterp spec fn minute_text_of(ms: int) -> Option<Seq<char>>;

/// The rows of `t`, or why there are none.
pub open spec fn transform(t: Transaction) -> Result<Seq<RowModel>, TransformError> {
    match t.total {
        None => Err(TransformError::MissingAmount),
        Some(_) => match minute_text_of(t.block_time_ms as int) {
            None => Err(TransformError::TimestampConversion),
            Some(date) => rows_on(t, date),
        },
    }
}

/// The model of a result of the transformation.
pub open spec fn rows_view(r: Result<Vec<ExportRow>, TransformError>) -> Result<Seq<RowModel>, TransformError> {
    match r {
        Ok(v) => Ok(v@.map_values(|x: ExportRow| x@)),
        Err(e) => Err(e),
    }
}

/// Relies on chrono's `DateTime::<Utc>::from_timestamp_millis` (`None` out of
/// range) and on its `%Y-%m-%d %H:%M UTC` formatting of the naive UTC time.
#[verifier::external_body]
fn format_block_time(ms: i64) -> (r: Option<String>)
    ensures
        match r {
            Some(s) => minute_text_of(ms as int) == Some(s@),
            None => minute_text_of(ms as int) == None::<Seq<char>>,
        },
{
    match chrono::DateTime::from_timestamp_millis(ms) {
        Some(t) => Some(t.naive_utc().format("%Y-%m-%d %H:%M UTC").to_string()),
        None => None,
    }
}

impl ExportRow {
    /// A row in CCD.
    pub fn new_ccd(date: String, amount_micro: i128, label: Option<Label>, tx_hash: Option<TxHash>) -> (r: ExportRow)
        ensures
            r@ == ccd_row(date@, amount_micro as int, label, tx_hash),
    {
        let currency = "CCD".to_owned();
        proof {
            reveal_strlit("CCD");
        }
        assert(currency@ =~= ccd_code());
        ExportRow { date, amount_micro, currency, label, tx_hash }
    }
}

/// The rows of `t` when its block time reads `date`.
pub fn rows_on_date(t: &Transaction, date: String) -> (r: Result<Vec<ExportRow>, TransformError>)
    ensures
        rows_view(r) == rows_on(*t, date@),
{
    let total = match t.total {
        None => {
            return Err(TransformError::MissingAmount);
        },
        Some(total) => total,
    };
    let amount: i128 = match t.subtotal {
        Some(sub) => sub as i128,
        None => total as i128,
    };
    let label = match t.details {
        Details::PaydayAccountReward => Some(Label::Mining),
        _ => None,
    };
    let principal = ExportRow::new_ccd(date.clone(), amount, label, t.hash);
    let cost = match t.cost {
        None => {
            let v = vec![principal];
            assert(v@.map_values(|x: ExportRow| x@) =~= rows_on(*t, date@).unwrap());
            return Ok(v);
        },
        Some(cost) => cost,
    };
    let fee = ExportRow::new_ccd(date, -(cost as i128), Some(Label::Fee), t.hash);
    let signed_total = total as i128;
    let magnitude: i128 = if signed_total < 0 { -signed_total } else { signed_total };
    if magnitude == cost as i128 {
        // Only a fee was paid; no value moved.
        let v = vec![fee];
        assert(v@.map_values(|x: ExportRow| x@) =~= rows_on(*t, date@).unwrap());
        Ok(v)
    } else {
        let v = vec![principal, fee];
        assert(v@.map_values(|x: ExportRow| x@) =~= rows_on(*t, date@).unwrap());
        Ok(v)
    }
}

/// The rows of `t`, or why it yields none.
pub fn to_rows(t: &Transaction) -> (r: Result<Vec<ExportRow>, TransformError>)
    ensures
        rows_view(r) == transform(*t),
{
    if t.total.is_none() {
        return Err(TransformError::MissingAmount);
    }
    match format_block_time(t.block_time_ms) {
        None => Err(TransformError::TimestampConversion),
        Some(date) => rows_on_date(t, date),
    }
}

} // verus!
