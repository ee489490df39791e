//! The rows of the six tables and the small state machines they carry.
//!
//! Ids are opaque texts chosen by whoever writes the row. Points in time are
//! whole seconds since the Unix epoch. Money is counted in minor currency
//! units, quantities in thousandths, and tax rates in hundredths of a percent,
//! so that every amount is an exact integer.

use vstd::prelude::*;
use crate::error::StoreError;
use crate::text::copy_text;

verus! {

/// A row of a table: it is found by a text key and can be copied.
pub trait Keyed: Sized {
    /// The key as a sequence of characters.
    spec fn key(&self) -> Seq<char>;

    /// The key as stored.
    fn key_text(&self) -> (k: &str)
        ensures
            k@ == self.key(),
    ;

    /// A copy of the row, equal to it in every field.
    fn copy_row(&self) -> (r: Self)
        ensures
            r == *self,
    ;
}

/// Where a project stands.
#[derive(Clone, Copy, Debug, PartialEq, Eq, Structural)]
pub enum ProjectStatus {
    Active,
    Archived,
    Completed,
}

/// Where an invoice stands. It moves forward only: a draft is sent or
/// voided, a sent invoice is paid or voided, and paid and void are final.
#[derive(Clone, Copy, Debug, PartialEq, Eq, Structural)]
pub enum InvoiceStatus {
    Draft,
    Sent,
    Paid,
    Void,
}

/// The billing state of a time entry. Nothing leads out of `Billed`.
#[derive(Clone, Copy, Debug, PartialEq, Eq, Structural)]
pub enum BillingState {
    UnbilledBillable,
    UnbilledNonBillable,
    Billed,
}

impl InvoiceStatus {
    /// The transitions that are allowed.
    pub open spec fn may_become(self, next: InvoiceStatus) -> bool {
        match (self, next) {
            (InvoiceStatus::Draft, InvoiceStatus::Sent) => true,
            (InvoiceStatus::Draft, InvoiceStatus::Void) => true,
            (InvoiceStatus::Sent, InvoiceStatus::Paid) => true,
            (InvoiceStatus::Sent, InvoiceStatus::Void) => true,
            _ => false,
        }
    }

    /// Paid and void invoices never change again.
    pub open spec fn is_final(self) -> bool {
        self is Paid || self is Void
    }

    /// Whether an invoice in this status may move to `next`.
    pub fn can_become(self, next: InvoiceStatus) -> (b: bool)
        ensures
            b == self.may_become(next),
    {
        match (self, next) {
            (InvoiceStatus::Draft, InvoiceStatus::Sent) => true,
            (InvoiceStatus::Draft, InvoiceStatus::Void) => true,
            (InvoiceStatus::Sent, InvoiceStatus::Paid) => true,
            (InvoiceStatus::Sent, InvoiceStatus::Void) => true,
            _ => false,
        }
    }

    /// The status after an attempt to move to `next`: `next` where the move is
    /// allowed, `InvalidState` where it is not.
    pub fn transition(self, next: InvoiceStatus) -> (r: Result<InvoiceStatus, StoreError>)
        ensures
            r == if self.may_become(next) {
                Ok::<InvoiceStatus, StoreError>(next)
            } else {
                Err::<InvoiceStatus, StoreError>(StoreError::InvalidState)
            },
    {
        if self.can_become(next) {
            Ok(next)
        } else {
            Err(StoreError::InvalidState)
        }
    }
}

/// A final status has no way out, a draft cannot be paid directly, and every
/// allowed move leads to a different status.
pub proof fn law_invoice_status_forward_only(from: InvoiceStatus, to: InvoiceStatus)
    ensures
        from.is_final() ==> !from.may_become(to),
        !InvoiceStatus::Draft.may_become(InvoiceStatus::Paid),
        from.may_become(to) ==> from != to && !to.may_become(from),
{
}

/// A customer.
#[derive(Debug, PartialEq, Eq)]
pub struct Client {
    pub id: String,
    pub name: String,
    pub email: Option<String>,
    pub address: Option<String>,
    pub phone: Option<String>,
    /// Price of one hour, in minor currency units.
    pub hourly_rate: Option<u64>,
    pub vat_number: Option<String>,
    pub notes: Option<String>,
    pub created_at: u64,
    pub updated_at: u64,
}

/// A piece of work, for a client or for nobody in particular.
#[derive(Debug, PartialEq, Eq)]
pub struct Project {
    pub id: String,
    pub client_id: Option<String>,
    pub name: String,
    pub description: Option<String>,
    pub status: ProjectStatus,
    pub color: Option<String>,
    pub created_at: u64,
    pub updated_at: u64,
}

/// A stretch of tracked time. It is running while `end_time` is absent.
#[derive(Debug, PartialEq, Eq)]
pub struct TimeEntry {
    pub id: String,
    pub project_id: String,
    pub start_time: u64,
    pub end_time: Option<u64>,
    /// Seconds that do not count as worked.
    pub pause_duration: u64,
    pub notes: Option<String>,
    pub is_billable: bool,
    pub is_billed: bool,
    /// The invoice the entry was billed against, once it is billed.
    pub invoice_id: Option<String>,
    pub created_at: u64,
}

/// A bill to a client.
#[derive(Debug, PartialEq, Eq)]
pub struct Invoice {
    pub id: String,
    pub client_id: String,
    pub invoice_number: String,
    pub issue_date: Option<u64>,
    pub due_date: Option<u64>,
    pub status: InvoiceStatus,
    pub notes: Option<String>,
    /// Tax in hundredths of a percent of the sum of the line totals.
    pub tax_rate: u32,
    pub created_at: u64,
    pub updated_at: u64,
}

/// One position of an invoice.
#[derive(Debug, PartialEq, Eq)]
pub struct InvoiceLineItem {
    pub id: String,
    pub invoice_id: String,
    pub description: String,
    /// In thousandths of a unit.
    pub quantity: u64,
    /// Price of one unit, in minor currency units.
    pub unit_price: u64,
}

/// One free-form setting.
#[derive(Debug, PartialEq, Eq)]
pub struct Setting {
    pub key: String,
    pub value: String,
}

impl TimeEntry {
    /// A running entry has no end yet.
    pub open spec fn is_running(self) -> bool {
        self.end_time is None
    }

    /// The billing state that the two flags encode.
    pub open spec fn billing_state_of(self) -> BillingState {
        if self.is_billed {
            BillingState::Billed
        } else if self.is_billable {
            BillingState::UnbilledBillable
        } else {
            BillingState::UnbilledNonBillable
        }
    }

    /// The billing state of the entry.
    pub fn billing_state(&self) -> (s: BillingState)
        ensures
            s == self.billing_state_of(),
    {
        if self.is_billed {
            BillingState::Billed
        } else if self.is_billable {
            BillingState::UnbilledBillable
        } else {
            BillingState::UnbilledNonBillable
        }
    }
}

impl Clone for Client {
    fn clone(&self) -> (r: Self)
        ensures
            r == *self,
    {
        Client {
            id: self.id.clone(),
            name: self.name.clone(),
            email: copy_text(&self.email),
            address: copy_text(&self.address),
            phone: copy_text(&self.phone),
            hourly_rate: self.hourly_rate,
            vat_number: copy_text(&self.vat_number),
            notes: copy_text(&self.notes),
            created_at: self.created_at,
            updated_at: self.updated_at,
        }
    }
}

impl Clone for Project {
    fn clone(&self) -> (r: Self)
        ensures
            r == *self,
    {
        Project {
            id: self.id.clone(),
            client_id: copy_text(&self.client_id),
            name: self.name.clone(),
            description: copy_text(&self.description),
            status: self.status,
            color: copy_text(&self.color),
            created_at: self.created_at,
            updated_at: self.updated_at,
        }
    }
}

impl Clone for TimeEntry {
    fn clone(&self) -> (r: Self)
        ensures
            r == *self,
    {
        TimeEntry {
            id: self.id.clone(),
            project_id: self.project_id.clone(),
            start_time: self.start_time,
            end_time: self.end_time,
            pause_duration: self.pause_duration,
            notes: copy_text(&self.notes),
            is_billable: self.is_billable,
            is_billed: self.is_billed,
            invoice_id: copy_text(&self.invoice_id),
            created_at: self.created_at,
        }
    }
}

impl Clone for Invoice {
    fn clone(&self) -> (r: Self)
        ensures
            r == *self,
    {
        Invoice {
            id: self.id.clone(),
            client_id: self.client_id.clone(),
            invoice_number: self.invoice_number.clone(),
            issue_date: self.issue_date,
            due_date: self.due_date,
            status: self.status,
            notes: copy_text(&self.notes),
            tax_rate: self.tax_rate,
            created_at: self.created_at,
            updated_at: self.updated_at,
        }
    }
}

impl Clone for InvoiceLineItem {
    fn clone(&self) -> (r: Self)
        ensures
            r == *self,
    {
        InvoiceLineItem {
            id: self.id.clone(),
            invoice_id: self.invoice_id.clone(),
            description: self.description.clone(),
            quantity: self.quantity,
            unit_price: self.unit_price,
        }
    }
}

impl Clone for Setting {
    fn clone(&self) -> (r: Self)
        ensures
            r == *self,
    {
        Setting { key: self.key.clone(), value: self.value.clone() }
    }
}

impl Keyed for Client {
    open spec fn key(&self) -> Seq<char> {
        self.id@
    }

    fn key_text(&self) -> (k: &str) {
        self.id.as_str()
    }

    fn copy_row(&self) -> (r: Self) {
        self.clone()
    }
}

impl Keyed for Project {
    open spec fn key(&self) -> Seq<char> {
        self.id@
    }

    fn key_text(&self) -> (k: &str) {
        self.id.as_str()
    }

    fn copy_row(&self) -> (r: Self) {
        self.clone()
    }
}

impl Keyed for TimeEntry {
    open spec fn key(&self) -> Seq<char> {
        self.id@
    }

    fn key_text(&self) -> (k: &str) {
        self.id.as_str()
    }

    fn copy_row(&self) -> (r: Self) {
        self.clone()
    }
}

impl Keyed for Invoice {
    open spec fn key(&self) -> Seq<char> {
        self.id@
    }

    fn key_text(&self) -> (k: &str) {
        self.id.as_str()
    }

    fn copy_row(&self) -> (r: Self) {
        self.clone()
    }
}

impl Keyed for InvoiceLineItem {
    open spec fn key(&self) -> Seq<char> {
        self.id@
    }

    fn key_text(&self) -> (k: &str) {
        self.id.as_str()
    }

    fn copy_row(&self) -> (r: Self) {
        self.clone()
    }
}

impl Keyed for Setting {
    open spec fn key(&self) -> Seq<char> {
        self.key@
    }

    fn key_text(&self) -> (k: &str) {
        self.key.as_str()
    }

    fn copy_row(&self) -> (r: Self) {
        self.clone()
    }
}

} // verus!
