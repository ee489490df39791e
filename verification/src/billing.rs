//! Amounts: worked time, line totals, tax and invoice totals.
//!
//! A quantity counts thousandths of a unit and a unit price counts minor
//! currency units, so a line total counts thousandths of a minor unit. Sums,
//! tax and totals are given in that same fine unit and are exact but for the
//! tax, which is rounded down to it.

use vstd::prelude::*;
use crate::model::InvoiceLineItem;

verus! {

/// Thousandths in one unit of quantity.
pub const QUANTITY_SCALE: u64 = 1000;

/// Hundredths of a percent in the whole.
pub const RATE_SCALE: u64 = 10000;

/// Seconds in one hour.
pub const SECONDS_PER_HOUR: u64 = 3600;

/// Largest quantity a line item may carry: a million units.
pub const MAX_QUANTITY: u64 = 1_000_000_000;

/// Largest unit price a line item may carry, in minor units.
pub const MAX_UNIT_PRICE: u64 = 1_000_000_000;

/// Largest tax rate an invoice may carry: a thousand percent.
pub const MAX_TAX_RATE: u32 = 100_000;

/// What an invoice comes to, in thousandths of a minor currency unit.
#[derive(Clone, Copy, Debug, PartialEq, Eq, Structural)]
pub struct InvoiceTotal {
    /// Sum of the line totals.
    pub subtotal: u128,
    /// Tax on the subtotal, rounded down.
    pub tax: u128,
    /// Subtotal plus tax.
    pub total: u128,
}

/// Seconds worked: from start to end, less the pause. Negative where the
/// pause is longer than the stretch itself.
pub open spec fn worked_seconds(start_time: u64, end_time: u64, pause_duration: u64) -> int {
    end_time - start_time - pause_duration
}

/// Hours as a quantity, in thousandths and rounded down.
pub open spec fn hours_of(seconds: u64) -> int {
    seconds * QUANTITY_SCALE / (SECONDS_PER_HOUR as int)
}

/// Whether a quantity and a unit price may stand on a line item.
pub open spec fn amounts_in_range(quantity: u64, unit_price: u64) -> bool {
    0 < quantity <= MAX_QUANTITY && unit_price <= MAX_UNIT_PRICE
}

/// Quantity times unit price.
pub open spec fn line_total(item: InvoiceLineItem) -> nat {
    (item.quantity * item.unit_price) as nat
}

/// The sum of the line totals.
pub open spec fn sum_of_lines(items: Seq<InvoiceLineItem>) -> nat
    decreases items.len(),
{
    if items.len() == 0 {
        0
    } else {
        sum_of_lines(items.drop_last()) + line_total(items.last())
    }
}

/// Tax at `rate` hundredths of a percent on `amount`, rounded down.
pub open spec fn tax_on(amount: nat, rate: nat) -> nat {
    amount * rate / (RATE_SCALE as nat)
}

/// Subtotal, tax and total of the given lines at the given rate.
pub open spec fn total_of(items: Seq<InvoiceLineItem>, rate: nat) -> (nat, nat, nat) {
    let subtotal = sum_of_lines(items);
    (subtotal, tax_on(subtotal, rate), subtotal + tax_on(subtotal, rate))
}

/// Seconds worked between `start_time` and `end_time`, less the pause.
pub fn compute_worked_seconds(start_time: u64, end_time: u64, pause_duration: u64) -> (d: i128)
    ensures
        d == worked_seconds(start_time, end_time, pause_duration),
{
    (end_time as i128) - (start_time as i128) - (pause_duration as i128)
}

/// Turns worked seconds into hours as a line-item quantity.
pub fn hours_quantity(seconds: u64) -> (q: u64)
    ensures
        q == hours_of(seconds),
{
    let scaled: u128 = (seconds as u128) * (QUANTITY_SCALE as u128);
    (scaled / (SECONDS_PER_HOUR as u128)) as u64
}

/// Quantity times unit price of one line.
pub fn compute_line_total(item: &InvoiceLineItem) -> (t: u128)
    ensures
        t == line_total(*item),
{
    assert((item.quantity as int) * (item.unit_price as int) <= 0xFFFF_FFFF_FFFF_FFFF
        * 0xFFFF_FFFF_FFFF_FFFF) by (nonlinear_arith)
        requires
            0 <= item.quantity <= 0xFFFF_FFFF_FFFF_FFFF,
            0 <= item.unit_price <= 0xFFFF_FFFF_FFFF_FFFF,
    ;
    (item.quantity as u128) * (item.unit_price as u128)
}

/// Tax and total for a subtotal that leaves room for them.
pub(crate) fn add_tax(subtotal: u128, rate: u32) -> (t: InvoiceTotal)
    requires
        subtotal <= 0x0FFF_FFFF_FFFF_FFFF_FFFF_FFFF_FFFF_FFFF,
        rate <= MAX_TAX_RATE,
    ensures
        t.subtotal == subtotal,
        t.tax == tax_on(subtotal as nat, rate as nat),
        t.total == subtotal + tax_on(subtotal as nat, rate as nat),
{
    let scale: u128 = RATE_SCALE as u128;
    let whole: u128 = subtotal / scale;
    let rest: u128 = subtotal % scale;
    let r: u128 = rate as u128;
    assert(whole * r <= 0x0FFF_FFFF_FFFF_FFFF_FFFF_FFFF_FFFF_FFFF * 10) by (nonlinear_arith)
        requires
            whole * 10000 <= 0x0FFF_FFFF_FFFF_FFFF_FFFF_FFFF_FFFF_FFFF,
            0 <= r <= 100_000,
            0 <= whole,
    ;
    assert(rest * r <= 10000 * 100_000) by (nonlinear_arith)
        requires
            0 <= rest < 10000,
            0 <= r <= 100_000,
    ;
    assert((subtotal * r) / 10000 == whole * r + (rest * r) / 10000) by (nonlinear_arith)
        requires
            subtotal == whole * 10000 + rest,
            0 <= rest < 10000,
            0 <= r,
            0 <= whole,
    ;
    let tax: u128 = whole * r + (rest * r) / scale;
    InvoiceTotal { subtotal, tax, total: subtotal + tax }
}

/// One more line adds its total to the sum.
pub proof fn lemma_sum_of_lines_push(items: Seq<InvoiceLineItem>, item: InvoiceLineItem)
    ensures
        sum_of_lines(items.push(item)) == sum_of_lines(items) + line_total(item),
{
    assert(items.push(item).drop_last() =~= items);
}

} // verus!
