//! The mathematical model of the store: six tables as sequences of rows, and
//! what it means for them to be consistent.

use vstd::prelude::*;
use crate::billing::{amounts_in_range, MAX_TAX_RATE};
use crate::model::{Client, Invoice, InvoiceLineItem, Keyed, Project, Setting, TimeEntry};

verus! {

/// The content of a store, each table in the order its rows were written.
pub struct Tables {
    pub clients: Seq<Client>,
    pub projects: Seq<Project>,
    pub time_entries: Seq<TimeEntry>,
    pub invoices: Seq<Invoice>,
    pub line_items: Seq<InvoiceLineItem>,
    pub settings: Seq<Setting>,
}

/// Some row of `rows` has the key `k`.
pub open spec fn has_key<T: Keyed>(rows: Seq<T>, k: Seq<char>) -> bool {
    exists|i: int| 0 <= i < rows.len() && (#[trigger] rows[i]).key() == k
}

/// No two rows of `rows` share a key.
pub open spec fn keys_unique<T: Keyed>(rows: Seq<T>) -> bool {
    forall|i: int, j: int|
        0 <= i < j < rows.len() ==> (#[trigger] rows[i]).key() != (#[trigger] rows[j]).key()
}

/// The position of a row with key `k`.
pub open spec fn position_of<T: Keyed>(rows: Seq<T>, k: Seq<char>) -> int {
    choose|i: int| 0 <= i < rows.len() && (#[trigger] rows[i]).key() == k
}

/// The row with key `k`.
pub open spec fn row_of<T: Keyed>(rows: Seq<T>, k: Seq<char>) -> T {
    rows[position_of(rows, k)]
}

/// A client has a name.
pub open spec fn client_valid(c: Client) -> bool {
    c.name@.len() > 0
}

/// A project has a name.
pub open spec fn project_valid(p: Project) -> bool {
    p.name@.len() > 0
}

/// A time entry does not end before it starts, and it names an invoice
/// exactly when it is billed.
pub open spec fn entry_valid(e: TimeEntry) -> bool {
    &&& e.end_time matches Some(end) ==> end >= e.start_time
    &&& e.is_billed <==> e.invoice_id is Some
}

/// Where both dates are set, the invoice is not due before it is issued.
pub open spec fn dates_in_order(issue_date: Option<u64>, due_date: Option<u64>) -> bool {
    match (issue_date, due_date) {
        (Some(issued), Some(due)) => due >= issued,
        _ => true,
    }
}

/// An invoice has a number, is not due before it is issued, and keeps its tax
/// rate in range.
pub open spec fn invoice_valid(v: Invoice) -> bool {
    &&& v.invoice_number@.len() > 0
    &&& dates_in_order(v.issue_date, v.due_date)
    &&& v.tax_rate <= MAX_TAX_RATE
}

/// A line item has a description, a positive quantity, and amounts in range.
pub open spec fn line_item_valid(l: InvoiceLineItem) -> bool {
    &&& l.description@.len() > 0
    &&& amounts_in_range(l.quantity, l.unit_price)
}

/// The project belongs to the client `client_id`.
pub open spec fn project_is_of(p: Project, client_id: Seq<char>) -> bool {
    p.client_id matches Some(c) && c@ == client_id
}

/// Every row is valid by itself.
pub open spec fn rows_valid(t: Tables) -> bool {
    &&& forall|i: int| 0 <= i < t.clients.len() ==> client_valid(#[trigger] t.clients[i])
    &&& forall|i: int| 0 <= i < t.projects.len() ==> project_valid(#[trigger] t.projects[i])
    &&& forall|i: int| 0 <= i < t.time_entries.len() ==> entry_valid(#[trigger] t.time_entries[i])
    &&& forall|i: int| 0 <= i < t.invoices.len() ==> invoice_valid(#[trigger] t.invoices[i])
    &&& forall|i: int| 0 <= i < t.line_items.len() ==> line_item_valid(#[trigger] t.line_items[i])
}

/// No table holds a key twice.
pub open spec fn primary_keys_unique(t: Tables) -> bool {
    &&& keys_unique(t.clients)
    &&& keys_unique(t.projects)
    &&& keys_unique(t.time_entries)
    &&& keys_unique(t.invoices)
    &&& keys_unique(t.line_items)
    &&& keys_unique(t.settings)
}

/// A project that names a client names one that exists.
pub open spec fn projects_refer(projects: Seq<Project>, clients: Seq<Client>) -> bool {
    forall|i: int|
        0 <= i < projects.len() ==> ((#[trigger] projects[i]).client_id matches Some(c) ==> has_key(
            clients,
            c@,
        ))
}

/// Every time entry names a project that exists.
pub open spec fn entries_refer(entries: Seq<TimeEntry>, projects: Seq<Project>) -> bool {
    forall|i: int| 0 <= i < entries.len() ==> has_key(projects, (#[trigger] entries[i]).project_id@)
}

/// Every invoice names a client that exists.
pub open spec fn invoices_refer(invoices: Seq<Invoice>, clients: Seq<Client>) -> bool {
    forall|i: int| 0 <= i < invoices.len() ==> has_key(clients, (#[trigger] invoices[i]).client_id@)
}

/// Every line item names an invoice that exists.
pub open spec fn line_items_refer(items: Seq<InvoiceLineItem>, invoices: Seq<Invoice>) -> bool {
    forall|i: int| 0 <= i < items.len() ==> has_key(invoices, (#[trigger] items[i]).invoice_id@)
}

/// No project has two running entries.
pub open spec fn one_running_per_project(entries: Seq<TimeEntry>) -> bool {
    forall|i: int, j: int|
        0 <= i < j < entries.len() && (#[trigger] entries[i]).is_running() && (
        #[trigger] entries[j]).is_running() ==> entries[i].project_id@ != entries[j].project_id@
}

/// The project `project_id` has a running entry.
pub open spec fn has_running_entry(entries: Seq<TimeEntry>, project_id: Seq<char>) -> bool {
    exists|i: int|
        0 <= i < entries.len() && (#[trigger] entries[i]).project_id@ == project_id
            && entries[i].is_running()
}

/// The client `client_id` has an invoice with the number `number`.
pub open spec fn number_taken(invoices: Seq<Invoice>, client_id: Seq<char>, number: Seq<char>) -> bool {
    exists|i: int|
        0 <= i < invoices.len() && (#[trigger] invoices[i]).client_id@ == client_id
            && invoices[i].invoice_number@ == number
}

/// The line items of the invoice `invoice_id`, in stored order.
pub open spec fn lines_of(items: Seq<InvoiceLineItem>, invoice_id: Seq<char>) -> Seq<
    InvoiceLineItem,
> {
    items.filter(lines_in(invoice_id))
}

/// No client has two invoices with the same number.
pub open spec fn numbers_unique_per_client(invoices: Seq<Invoice>) -> bool {
    forall|i: int, j: int|
        0 <= i < j < invoices.len() && (#[trigger] invoices[i]).client_id@ == (
        #[trigger] invoices[j]).client_id@ ==> invoices[i].invoice_number@
            != invoices[j].invoice_number@
}

/// The entry's project belongs to the client that the invoice `invoice_id`
/// is made out to.
pub open spec fn entry_matches_invoice(
    e: TimeEntry,
    invoice_id: Seq<char>,
    projects: Seq<Project>,
    invoices: Seq<Invoice>,
) -> bool {
    exists|p: int, v: int|
        0 <= p < projects.len() && 0 <= v < invoices.len() && (#[trigger] projects[p]).id@
            == e.project_id@ && (#[trigger] invoices[v]).id@ == invoice_id && project_is_of(
            projects[p],
            invoices[v].client_id@,
        )
}

/// A billed entry names an invoice that exists and is made out to the client
/// of the entry's project.
pub open spec fn billed_entries_invoiced(
    entries: Seq<TimeEntry>,
    projects: Seq<Project>,
    invoices: Seq<Invoice>,
) -> bool {
    forall|i: int|
        0 <= i < entries.len() ==> ((#[trigger] entries[i]).invoice_id matches Some(v)
            ==> entry_matches_invoice(entries[i], v@, projects, invoices))
}

/// A time entry as it is when it starts: running, without pause or notes,
/// and not billed.
pub open spec fn started_entry(
    id: String,
    project_id: String,
    start_time: u64,
    is_billable: bool,
    now: u64,
) -> TimeEntry {
    TimeEntry {
        id,
        project_id,
        start_time,
        end_time: None,
        pause_duration: 0,
        notes: None,
        is_billable,
        is_billed: false,
        invoice_id: None,
        created_at: now,
    }
}

/// The tables with one more time entry at the end.
pub open spec fn with_entry(t: Tables, e: TimeEntry) -> Tables {
    Tables { time_entries: t.time_entries.push(e), ..t }
}

/// The tables once the entry `id` has ended at `end_time`.
pub open spec fn with_entry_stopped(t: Tables, id: Seq<char>, end_time: u64) -> Tables {
    let at = position_of(t.time_entries, id);
    Tables {
        time_entries: t.time_entries.update(
            at,
            TimeEntry { end_time: Some(end_time), ..t.time_entries[at] },
        ),
        ..t
    }
}

/// The characters of each text of a list.
pub open spec fn texts(list: Seq<String>) -> Seq<Seq<char>> {
    list.map_values(|s: String| s@)
}

/// The entry as it stands once it is billed against `invoice`.
pub open spec fn billed(e: TimeEntry, invoice: String) -> TimeEntry {
    TimeEntry { is_billed: true, invoice_id: Some(invoice), ..e }
}

/// The entry `entry_id` is not billed yet and its project belongs to the
/// client that the invoice `invoice_id` is made out to.
pub open spec fn may_bill(t: Tables, entry_id: Seq<char>, invoice_id: Seq<char>) -> bool {
    let e = row_of(t.time_entries, entry_id);
    !e.is_billed && entry_matches_invoice(e, invoice_id, t.projects, t.invoices)
}

/// The tables once every entry named in `ids` is billed against the invoice
/// `invoice_id`.
pub open spec fn with_entries_billed(t: Tables, ids: Seq<Seq<char>>, invoice_id: Seq<char>) -> Tables {
    let invoice = row_of(t.invoices, invoice_id).id;
    Tables {
        time_entries: t.time_entries.map_values(
            |e: TimeEntry|
                if ids.contains(e.id@) {
                    billed(e, invoice)
                } else {
                    e
                },
        ),
        ..t
    }
}

/// Keeps every project that does not belong to the client `id`.
pub open spec fn projects_of_others(id: Seq<char>) -> spec_fn(Project) -> bool {
    |p: Project| !project_is_of(p, id)
}

/// Keeps every invoice that is not made out to the client `id`.
pub open spec fn invoices_of_others(id: Seq<char>) -> spec_fn(Invoice) -> bool {
    |v: Invoice| v.client_id@ != id
}

/// Keeps every time entry whose project is among `projects`.
pub open spec fn entries_within(projects: Seq<Project>) -> spec_fn(TimeEntry) -> bool {
    |e: TimeEntry| has_key(projects, e.project_id@)
}

/// Keeps every line item whose invoice is among `invoices`.
pub open spec fn lines_within(invoices: Seq<Invoice>) -> spec_fn(InvoiceLineItem) -> bool {
    |l: InvoiceLineItem| has_key(invoices, l.invoice_id@)
}

/// Keeps the projects of the client `id`.
pub open spec fn projects_of(id: Seq<char>) -> spec_fn(Project) -> bool {
    |p: Project| project_is_of(p, id)
}

/// Keeps the invoices made out to the client `id`.
pub open spec fn invoices_of(id: Seq<char>) -> spec_fn(Invoice) -> bool {
    |v: Invoice| v.client_id@ == id
}

/// Keeps the time entries of the project `id`.
pub open spec fn entries_of(id: Seq<char>) -> spec_fn(TimeEntry) -> bool {
    |e: TimeEntry| e.project_id@ == id
}

/// Keeps the time entries of the projects of the client `id`, those projects
/// taken from `projects`.
pub open spec fn entries_of_client(projects: Seq<Project>, id: Seq<char>) -> spec_fn(
    TimeEntry,
) -> bool {
    entries_within(projects.filter(projects_of(id)))
}

/// Keeps the time entries that start between `from` and `to`, both included.
pub open spec fn entries_between(from: u64, to: u64) -> spec_fn(TimeEntry) -> bool {
    |e: TimeEntry| from <= e.start_time <= to
}

/// Keeps the time entries that are billed, or those that are not.
pub open spec fn entries_billed(is_billed: bool) -> spec_fn(TimeEntry) -> bool {
    |e: TimeEntry| e.is_billed == is_billed
}

/// Keeps every row but the one with the key `id`.
pub open spec fn all_but<T: Keyed>(id: Seq<char>) -> spec_fn(T) -> bool {
    |row: T| row.key() != id
}

/// Keeps the time entries of every project but `id`.
pub open spec fn entries_outside(id: Seq<char>) -> spec_fn(TimeEntry) -> bool {
    |e: TimeEntry| e.project_id@ != id
}

/// Keeps the line items of every invoice but `id`.
pub open spec fn lines_outside(id: Seq<char>) -> spec_fn(InvoiceLineItem) -> bool {
    |l: InvoiceLineItem| l.invoice_id@ != id
}

/// Keeps the billed time entries of the project `id`.
pub open spec fn billed_entries_of(id: Seq<char>) -> spec_fn(TimeEntry) -> bool {
    |e: TimeEntry| e.is_billed && e.project_id@ == id
}

/// Keeps the time entries billed against the invoice `id`.
pub open spec fn entries_billed_against(id: Seq<char>) -> spec_fn(TimeEntry) -> bool {
    |e: TimeEntry| e.invoice_id matches Some(v) && v@ == id
}

/// Keeps the line items of the invoice `id`.
pub open spec fn lines_in(id: Seq<char>) -> spec_fn(InvoiceLineItem) -> bool {
    |l: InvoiceLineItem| l.invoice_id@ == id
}

/// Some row of `rows` is one that `pred` keeps.
pub open spec fn some_row<T>(rows: Seq<T>, pred: spec_fn(T) -> bool) -> bool {
    exists|i: int| 0 <= i < rows.len() && pred(#[trigger] rows[i])
}

/// An invoice of the client at another position than `at` has the number.
pub open spec fn number_taken_elsewhere(
    invoices: Seq<Invoice>,
    at: int,
    client_id: Seq<char>,
    number: Seq<char>,
) -> bool {
    exists|j: int|
        0 <= j < invoices.len() && j != at && (#[trigger] invoices[j]).client_id@ == client_id
            && invoices[j].invoice_number@ == number
}

/// The tables without the line item `id`.
pub open spec fn without_line_item(t: Tables, id: Seq<char>) -> Tables {
    Tables { line_items: t.line_items.filter(all_but(id)), ..t }
}

/// The tables without the time entry `id`.
pub open spec fn without_entry(t: Tables, id: Seq<char>) -> Tables {
    Tables { time_entries: t.time_entries.filter(all_but(id)), ..t }
}

/// The tables without the project `id` and its time entries.
pub open spec fn without_project(t: Tables, id: Seq<char>) -> Tables {
    Tables {
        projects: t.projects.filter(all_but(id)),
        time_entries: t.time_entries.filter(entries_outside(id)),
        ..t
    }
}

/// The tables without the invoice `id` and its line items.
pub open spec fn without_invoice(t: Tables, id: Seq<char>) -> Tables {
    Tables {
        invoices: t.invoices.filter(all_but(id)),
        line_items: t.line_items.filter(lines_outside(id)),
        ..t
    }
}

/// The client `id` has a project or an invoice.
pub open spec fn client_has_dependents(t: Tables, id: Seq<char>) -> bool {
    ||| exists|i: int| 0 <= i < t.projects.len() && project_is_of(#[trigger] t.projects[i], id)
    ||| exists|i: int| 0 <= i < t.invoices.len() && (#[trigger] t.invoices[i]).client_id@ == id
}

/// The tables without the client `id` and without everything that hangs on
/// it: its projects and their time entries, its invoices and their line
/// items. Rows of other clients stay as they are, in their order.
pub open spec fn without_client(t: Tables, id: Seq<char>) -> Tables {
    let projects = t.projects.filter(projects_of_others(id));
    let invoices = t.invoices.filter(invoices_of_others(id));
    Tables {
        clients: t.clients.filter(all_but::<Client>(id)),
        projects,
        time_entries: t.time_entries.filter(entries_within(projects)),
        invoices,
        line_items: t.line_items.filter(lines_within(invoices)),
        settings: t.settings,
    }
}

/// The tables once the setting `key` holds `value`: the row is changed where
/// the key is present and added where it is not.
pub open spec fn with_setting(t: Tables, key: String, value: String) -> Tables {
    if has_key(t.settings, key@) {
        let at = position_of(t.settings, key@);
        Tables { settings: t.settings.update(at, Setting { value, ..t.settings[at] }), ..t }
    } else {
        Tables { settings: t.settings.push(Setting { key, value }), ..t }
    }
}

impl Tables {
    /// Nothing stored yet.
    pub open spec fn empty() -> Tables {
        Tables {
            clients: Seq::empty(),
            projects: Seq::empty(),
            time_entries: Seq::empty(),
            invoices: Seq::empty(),
            line_items: Seq::empty(),
            settings: Seq::empty(),
        }
    }

    /// The tables are consistent: keys are unique, rows are valid, references
    /// hold, no project has two running entries, no client has two invoices
    /// with one number, and billed entries are tied to an invoice of their
    /// client.
    pub open spec fn wf(self) -> bool {
        &&& primary_keys_unique(self)
        &&& rows_valid(self)
        &&& projects_refer(self.projects, self.clients)
        &&& entries_refer(self.time_entries, self.projects)
        &&& invoices_refer(self.invoices, self.clients)
        &&& line_items_refer(self.line_items, self.invoices)
        &&& one_running_per_project(self.time_entries)
        &&& numbers_unique_per_client(self.invoices)
        &&& billed_entries_invoiced(self.time_entries, self.projects, self.invoices)
    }
}

/// With unique keys, a row found at a position is the row of its key.
pub proof fn lemma_row_at<T: Keyed>(rows: Seq<T>, i: int)
    requires
        keys_unique(rows),
        0 <= i < rows.len(),
    ensures
        has_key(rows, rows[i].key()),
        position_of(rows, rows[i].key()) == i,
        row_of(rows, rows[i].key()) == rows[i],
{
    let k = rows[i].key();
    let j = position_of(rows, k);
    assert(0 <= j < rows.len() && rows[j].key() == k);
    if j < i {
        assert(rows[j].key() != rows[i].key());
    } else if i < j {
        assert(rows[i].key() != rows[j].key());
    }
}

/// A key that is present has a position, and the row there carries the key.
pub proof fn lemma_position<T: Keyed>(rows: Seq<T>, k: Seq<char>)
    requires
        has_key(rows, k),
    ensures
        0 <= position_of(rows, k) < rows.len(),
        rows[position_of(rows, k)].key() == k,
        row_of(rows, k).key() == k,
{
}

/// With unique keys, two positions that hold the same key are one position.
pub proof fn lemma_same_key<T: Keyed>(rows: Seq<T>, a: int, b: int)
    requires
        keys_unique(rows),
        0 <= a < rows.len(),
        0 <= b < rows.len(),
        rows[a].key() == rows[b].key(),
    ensures
        a == b,
{
    if a < b {
        assert(rows[a].key() != rows[b].key());
    } else if b < a {
        assert(rows[b].key() != rows[a].key());
    }
}

/// What one more row does to the keys.
pub proof fn lemma_push_keys<T: Keyed>(rows: Seq<T>, row: T)
    ensures
        forall|k: Seq<char>| #[trigger]
            has_key(rows.push(row), k) <==> has_key(rows, k) || row.key() == k,
        keys_unique(rows) && !has_key(rows, row.key()) ==> keys_unique(rows.push(row)),
{
    let after = rows.push(row);
    assert forall|k: Seq<char>| #[trigger]
        has_key(after, k) <==> has_key(rows, k) || row.key() == k by {
        if has_key(rows, k) {
            let i = position_of(rows, k);
            assert(after[i].key() == k);
        }
        if row.key() == k {
            assert(after[rows.len() as int].key() == k);
        }
        if has_key(after, k) {
            let i = position_of(after, k);
            if i < rows.len() {
                assert(rows[i].key() == k);
            }
        }
    }
    if keys_unique(rows) && !has_key(rows, row.key()) {
        assert forall|i: int, j: int| 0 <= i < j < after.len() implies (#[trigger] after[i]).key()
            != (#[trigger] after[j]).key() by {
            if j == rows.len() {
                assert(rows[i].key() == after[i].key());
            } else {
                assert(rows[i].key() != rows[j].key());
            }
        }
    }
}

/// Replacing a row by one with the same key changes neither which keys are
/// present nor that they are unique.
pub proof fn lemma_update_keys<T: Keyed>(rows: Seq<T>, i: int, row: T)
    requires
        0 <= i < rows.len(),
        row.key() == rows[i].key(),
    ensures
        forall|k: Seq<char>| #[trigger] has_key(rows.update(i, row), k) <==> has_key(rows, k),
        keys_unique(rows) ==> keys_unique(rows.update(i, row)),
{
    let after = rows.update(i, row);
    assert forall|k: Seq<char>| #[trigger] has_key(after, k) <==> has_key(rows, k) by {
        if has_key(rows, k) {
            let j = position_of(rows, k);
            assert(after[j].key() == k);
        }
        if has_key(after, k) {
            let j = position_of(after, k);
            assert(rows[j].key() == k);
        }
    }
    if keys_unique(rows) {
        assert forall|a: int, b: int| 0 <= a < b < after.len() implies (#[trigger] after[a]).key()
            != (#[trigger] after[b]).key() by {
            assert(rows[a].key() != rows[b].key());
        }
    }
}

} // verus!
