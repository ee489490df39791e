//! The rules of the repository: for each operation, what refuses it.
//!
//! Each function names the first reason that applies, in the order in which
//! the operation checks, or nothing where the operation goes through.

use vstd::prelude::*;
use crate::billing::amounts_in_range;
use crate::error::StoreError;
use crate::model::{Client, Invoice, InvoiceLineItem, InvoiceStatus, Project};
use crate::tables::{
    billed_entries_of, client_has_dependents, client_valid, entries_billed_against, entries_of,
    has_key, has_running_entry, invoice_valid, line_item_valid, lines_in, may_bill, number_taken,
    number_taken_elsewhere, position_of, project_valid, row_of, some_row, Tables,
};
use crate::text::same_optional;

verus! {

/// What refuses a new client, if anything.
pub open spec fn create_client_refusal(t: Tables, draft: Client) -> Option<StoreError> {
    if !client_valid(draft) {
        Some(StoreError::InvalidArgument)
    } else if has_key(t.clients, draft.id@) {
        Some(StoreError::Conflict)
    } else {
        None
    }
}

/// What refuses a new project, if anything.
pub open spec fn create_project_refusal(t: Tables, draft: Project) -> Option<StoreError> {
    if !project_valid(draft) {
        Some(StoreError::InvalidArgument)
    } else if draft.client_id matches Some(c) && !has_key(t.clients, c@) {
        Some(StoreError::NotFound)
    } else if has_key(t.projects, draft.id@) {
        Some(StoreError::Conflict)
    } else {
        None
    }
}

/// What refuses a new time entry, if anything.
pub open spec fn create_time_entry_refusal(
    t: Tables,
    id: Seq<char>,
    project_id: Seq<char>,
) -> Option<StoreError> {
    if !has_key(t.projects, project_id) {
        Some(StoreError::NotFound)
    } else if has_running_entry(t.time_entries, project_id) {
        Some(StoreError::Conflict)
    } else if has_key(t.time_entries, id) {
        Some(StoreError::Conflict)
    } else {
        None
    }
}

/// What refuses stopping an entry, if anything.
pub open spec fn stop_time_entry_refusal(t: Tables, id: Seq<char>, end_time: u64) -> Option<
    StoreError,
> {
    if !has_key(t.time_entries, id) || !row_of(t.time_entries, id).is_running() {
        Some(StoreError::NotFound)
    } else if end_time < row_of(t.time_entries, id).start_time {
        Some(StoreError::InvalidArgument)
    } else {
        None
    }
}

/// What refuses a change to an entry, if anything: a billed entry never
/// changes again.
pub open spec fn entry_change_refusal(t: Tables, id: Seq<char>) -> Option<StoreError> {
    if !has_key(t.time_entries, id) {
        Some(StoreError::NotFound)
    } else if row_of(t.time_entries, id).is_billed {
        Some(StoreError::Conflict)
    } else {
        None
    }
}

/// What refuses a new invoice, if anything.
pub open spec fn create_invoice_refusal(t: Tables, draft: Invoice) -> Option<StoreError> {
    if !invoice_valid(draft) {
        Some(StoreError::InvalidArgument)
    } else if !has_key(t.clients, draft.client_id@) {
        Some(StoreError::NotFound)
    } else if has_key(t.invoices, draft.id@) || number_taken(
        t.invoices,
        draft.client_id@,
        draft.invoice_number@,
    ) {
        Some(StoreError::Conflict)
    } else {
        None
    }
}

/// What refuses a change of an invoice's status, if anything.
pub open spec fn set_invoice_status_refusal(t: Tables, id: Seq<char>, next: InvoiceStatus) -> Option<
    StoreError,
> {
    if !has_key(t.invoices, id) {
        Some(StoreError::NotFound)
    } else if !row_of(t.invoices, id).status.may_become(next) {
        Some(StoreError::InvalidState)
    } else {
        None
    }
}

/// What refuses a new line item, if anything.
pub open spec fn add_line_item_refusal(t: Tables, item: InvoiceLineItem) -> Option<StoreError> {
    if !line_item_valid(item) {
        Some(StoreError::InvalidArgument)
    } else if !has_key(t.invoices, item.invoice_id@) {
        Some(StoreError::NotFound)
    } else if has_key(t.line_items, item.id@) {
        Some(StoreError::Conflict)
    } else {
        None
    }
}

/// What refuses new amounts for a line item, if anything.
pub open spec fn update_line_item_refusal(
    t: Tables,
    id: Seq<char>,
    quantity: u64,
    unit_price: u64,
) -> Option<StoreError> {
    if !amounts_in_range(quantity, unit_price) {
        Some(StoreError::InvalidArgument)
    } else if !has_key(t.line_items, id) {
        Some(StoreError::NotFound)
    } else {
        None
    }
}

/// What refuses billing a batch of entries, if anything.
pub open spec fn mark_entries_billed_refusal(
    t: Tables,
    ids: Seq<Seq<char>>,
    invoice_id: Seq<char>,
) -> Option<StoreError> {
    if !has_key(t.invoices, invoice_id) {
        Some(StoreError::NotFound)
    } else if exists|k: int| 0 <= k < ids.len() && !has_key(t.time_entries, #[trigger] ids[k]) {
        Some(StoreError::NotFound)
    } else if exists|k: int| 0 <= k < ids.len() && !may_bill(t, #[trigger] ids[k], invoice_id) {
        Some(StoreError::Conflict)
    } else {
        None
    }
}

/// What refuses deleting a client, if anything.
pub open spec fn delete_client_refusal(t: Tables, id: Seq<char>, cascade: bool) -> Option<
    StoreError,
> {
    if !has_key(t.clients, id) {
        Some(StoreError::NotFound)
    } else if !cascade && client_has_dependents(t, id) {
        Some(StoreError::Conflict)
    } else {
        None
    }
}

/// What refuses new values for a client, if anything.
pub open spec fn update_client_refusal(t: Tables, row: Client) -> Option<StoreError> {
    if !client_valid(row) {
        Some(StoreError::InvalidArgument)
    } else if !has_key(t.clients, row.id@) {
        Some(StoreError::NotFound)
    } else {
        None
    }
}

/// What refuses new values for a project, if anything.
pub open spec fn update_project_refusal(t: Tables, row: Project) -> Option<StoreError> {
    if !project_valid(row) {
        Some(StoreError::InvalidArgument)
    } else if !has_key(t.projects, row.id@) {
        Some(StoreError::NotFound)
    } else if row.client_id matches Some(c) && !has_key(t.clients, c@) {
        Some(StoreError::NotFound)
    } else if !same_optional(row.client_id, row_of(t.projects, row.id@).client_id) && some_row(
        t.time_entries,
        billed_entries_of(row.id@),
    ) {
        Some(StoreError::Conflict)
    } else {
        None
    }
}

/// What refuses new values for an invoice, if anything.
pub open spec fn update_invoice_refusal(t: Tables, row: Invoice) -> Option<StoreError> {
    if !invoice_valid(row) {
        Some(StoreError::InvalidArgument)
    } else if !has_key(t.invoices, row.id@) {
        Some(StoreError::NotFound)
    } else if row.client_id@ != row_of(t.invoices, row.id@).client_id@ || number_taken_elsewhere(
        t.invoices,
        position_of(t.invoices, row.id@),
        row.client_id@,
        row.invoice_number@,
    ) {
        Some(StoreError::Conflict)
    } else {
        None
    }
}

/// What refuses deleting a project, if anything.
pub open spec fn delete_project_refusal(t: Tables, id: Seq<char>, cascade: bool) -> Option<
    StoreError,
> {
    if !has_key(t.projects, id) {
        Some(StoreError::NotFound)
    } else if some_row(t.time_entries, billed_entries_of(id)) {
        Some(StoreError::Conflict)
    } else if !cascade && some_row(t.time_entries, entries_of(id)) {
        Some(StoreError::Conflict)
    } else {
        None
    }
}

/// What refuses deleting an invoice, if anything.
pub open spec fn delete_invoice_refusal(t: Tables, id: Seq<char>, cascade: bool) -> Option<
    StoreError,
> {
    if !has_key(t.invoices, id) {
        Some(StoreError::NotFound)
    } else if some_row(t.time_entries, entries_billed_against(id)) {
        Some(StoreError::Conflict)
    } else if !cascade && some_row(t.line_items, lines_in(id)) {
        Some(StoreError::Conflict)
    } else {
        None
    }
}

} // verus!
