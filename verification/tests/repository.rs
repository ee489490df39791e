use flowforge::billing::{hours_quantity, InvoiceTotal, MAX_QUANTITY, MAX_TAX_RATE, MAX_UNIT_PRICE};
use flowforge::error::StoreError;
use flowforge::model::{
    BillingState, Client, Invoice, InvoiceLineItem, InvoiceStatus, Project, ProjectStatus,
};
use flowforge::store::Store;

fn client(id: &str, name: &str) -> Client {
    Client {
        id: id.to_string(),
        name: name.to_string(),
        email: None,
        address: None,
        phone: None,
        hourly_rate: None,
        vat_number: None,
        notes: None,
        created_at: 0,
        updated_at: 0,
    }
}

fn project(id: &str, client_id: Option<&str>, name: &str) -> Project {
    Project {
        id: id.to_string(),
        client_id: client_id.map(|c| c.to_string()),
        name: name.to_string(),
        description: None,
        status: ProjectStatus::Active,
        color: None,
        created_at: 0,
        updated_at: 0,
    }
}

fn invoice(id: &str, client_id: &str, number: &str, tax_rate: u32) -> Invoice {
    Invoice {
        id: id.to_string(),
        client_id: client_id.to_string(),
        invoice_number: number.to_string(),
        issue_date: None,
        due_date: None,
        status: InvoiceStatus::Draft,
        notes: None,
        tax_rate,
        created_at: 0,
        updated_at: 0,
    }
}

fn line(id: &str, invoice_id: &str, quantity: u64, unit_price: u64) -> InvoiceLineItem {
    InvoiceLineItem {
        id: id.to_string(),
        invoice_id: invoice_id.to_string(),
        description: "work".to_string(),
        quantity,
        unit_price,
    }
}

fn entry(store: &mut Store, id: &str, project_id: &str, start: u64) -> Result<String, StoreError> {
    store.create_time_entry(id.to_string(), project_id.to_string(), start, true, start)
}

/// Two clients, each with a project, a stopped time entry and an invoice with
/// one line item; a third project without a client.
fn two_clients() -> Store {
    let mut store = Store::new();
    store.create_client(client("c1", "Acme"), 1).unwrap();
    store.create_client(client("c2", "Globex"), 1).unwrap();
    store.create_project(project("p1", Some("c1"), "Website"), 2).unwrap();
    store.create_project(project("p2", Some("c2"), "Audit"), 2).unwrap();
    store.create_project(project("p3", None, "Garden"), 2).unwrap();
    entry(&mut store, "e1", "p1", 100).unwrap();
    store.stop_time_entry("e1", 200).unwrap();
    entry(&mut store, "e2", "p2", 100).unwrap();
    store.stop_time_entry("e2", 300).unwrap();
    entry(&mut store, "e3", "p3", 150).unwrap();
    store.create_invoice(invoice("i1", "c1", "2024-001", 0), 3).unwrap();
    store.create_invoice(invoice("i2", "c2", "2024-001", 0), 3).unwrap();
    store.add_line_item(line("l1", "i1", 1000, 500)).unwrap();
    store.add_line_item(line("l2", "i2", 2000, 700)).unwrap();
    store
}

#[test]
fn client_is_created_with_its_id_and_the_time_of_writing() {
    let mut store = Store::new();
    let mut draft = client("c1", "Acme");
    draft.hourly_rate = Some(8000);
    draft.created_at = 77;
    assert_eq!(store.create_client(draft, 10), Ok("c1".to_string()));
    let stored = store.get_client("c1").unwrap();
    assert_eq!(stored.name, "Acme");
    assert_eq!(stored.hourly_rate, Some(8000));
    assert_eq!(stored.created_at, 10);
    assert_eq!(stored.updated_at, 10);
    assert_eq!(store.get_client("c2"), None);
    assert_eq!(store.list_clients(), vec![stored]);
}

#[test]
fn client_without_a_name_is_refused() {
    let mut store = Store::new();
    assert_eq!(store.create_client(client("c1", ""), 1), Err(StoreError::InvalidArgument));
    assert_eq!(store.get_client("c1"), None);
}

#[test]
fn client_under_a_taken_id_is_refused() {
    let mut store = Store::new();
    store.create_client(client("c1", "Acme"), 1).unwrap();
    assert_eq!(store.create_client(client("c1", "Other"), 2), Err(StoreError::Conflict));
    assert_eq!(store.get_client("c1").unwrap().name, "Acme");
    assert_eq!(store.list_clients().len(), 1);
}

#[test]
fn updating_a_client_keeps_its_creation_time() {
    let mut store = Store::new();
    store.create_client(client("c1", "Acme"), 5).unwrap();
    let mut next = client("c1", "Acme Ltd");
    next.email = Some("office@acme.example".to_string());
    next.created_at = 999;
    assert_eq!(store.update_client(next, 9), Ok(()));
    let stored = store.get_client("c1").unwrap();
    assert_eq!(stored.name, "Acme Ltd");
    assert_eq!(stored.email, Some("office@acme.example".to_string()));
    assert_eq!(stored.created_at, 5);
    assert_eq!(stored.updated_at, 9);
    assert_eq!(store.update_client(client("zz", "Nobody"), 9), Err(StoreError::NotFound));
    assert_eq!(store.update_client(client("c1", ""), 9), Err(StoreError::InvalidArgument));
    assert_eq!(store.get_client("c1").unwrap().name, "Acme Ltd");
}

#[test]
fn project_needs_a_name_an_existing_client_and_a_fresh_id() {
    let mut store = Store::new();
    store.create_client(client("c1", "Acme"), 1).unwrap();
    assert_eq!(
        store.create_project(project("p1", Some("c1"), ""), 2),
        Err(StoreError::InvalidArgument)
    );
    assert_eq!(
        store.create_project(project("p1", Some("nobody"), "Website"), 2),
        Err(StoreError::NotFound)
    );
    assert_eq!(store.create_project(project("p1", Some("c1"), "Website"), 2), Ok("p1".to_string()));
    assert_eq!(store.create_project(project("p1", None, "Again"), 3), Err(StoreError::Conflict));
    assert_eq!(store.create_project(project("p2", None, "Garden"), 3), Ok("p2".to_string()));
    let stored = store.get_project("p1").unwrap();
    assert_eq!(stored.client_id, Some("c1".to_string()));
    assert_eq!(stored.created_at, 2);
    assert_eq!(stored.updated_at, 2);
    assert_eq!(store.get_project("p9"), None);
}

#[test]
fn project_status_changes_and_is_stamped() {
    let mut store = two_clients();
    assert_eq!(store.set_project_status("p1", ProjectStatus::Archived, 8), Ok(()));
    let stored = store.get_project("p1").unwrap();
    assert_eq!(stored.status, ProjectStatus::Archived);
    assert_eq!(stored.updated_at, 8);
    assert_eq!(stored.created_at, 2);
    assert_eq!(
        store.set_project_status("p9", ProjectStatus::Completed, 8),
        Err(StoreError::NotFound)
    );
}

#[test]
fn time_entry_for_an_unknown_project_is_refused() {
    let mut store = Store::new();
    assert_eq!(entry(&mut store, "e1", "p1", 10), Err(StoreError::NotFound));
    assert_eq!(store.get_time_entry("e1"), None);
}

#[test]
fn second_running_entry_is_refused_until_the_first_is_stopped() {
    let mut store = Store::new();
    store.create_project(project("p1", None, "Website"), 1).unwrap();
    store.create_project(project("p2", None, "Other"), 1).unwrap();
    assert_eq!(entry(&mut store, "e1", "p1", 10), Ok("e1".to_string()));
    assert_eq!(entry(&mut store, "e2", "p1", 20), Err(StoreError::Conflict));
    assert_eq!(store.get_time_entry("e2"), None);
    assert_eq!(entry(&mut store, "e3", "p2", 20), Ok("e3".to_string()));
    assert_eq!(store.stop_time_entry("e1", 30), Ok(20));
    assert_eq!(entry(&mut store, "e2", "p1", 40), Ok("e2".to_string()));
    assert_eq!(entry(&mut store, "e2", "p2", 40), Err(StoreError::Conflict));
}

#[test]
fn new_time_entry_is_running_and_unbilled() {
    let mut store = Store::new();
    store.create_project(project("p1", None, "Website"), 1).unwrap();
    store.create_time_entry("e1".to_string(), "p1".to_string(), 10, false, 11).unwrap();
    let stored = store.get_time_entry("e1").unwrap();
    assert_eq!(stored.project_id, "p1");
    assert_eq!(stored.start_time, 10);
    assert_eq!(stored.end_time, None);
    assert_eq!(stored.pause_duration, 0);
    assert!(!stored.is_billable);
    assert!(!stored.is_billed);
    assert_eq!(stored.invoice_id, None);
    assert_eq!(stored.created_at, 11);
    assert_eq!(stored.billing_state(), BillingState::UnbilledNonBillable);
}

#[test]
fn stopping_before_the_start_is_refused_and_the_entry_keeps_running() {
    let mut store = Store::new();
    store.create_project(project("p1", None, "Website"), 1).unwrap();
    entry(&mut store, "e1", "p1", 100).unwrap();
    assert_eq!(store.stop_time_entry("e1", 99), Err(StoreError::InvalidArgument));
    assert_eq!(store.get_time_entry("e1").unwrap().end_time, None);
    assert_eq!(entry(&mut store, "e2", "p1", 120), Err(StoreError::Conflict));
    assert_eq!(store.stop_time_entry("e1", 100), Ok(0));
    assert_eq!(store.get_time_entry("e1").unwrap().end_time, Some(100));
}

#[test]
fn stopping_returns_end_less_start_less_pause() {
    let mut store = Store::new();
    store.create_project(project("p1", None, "Website"), 1).unwrap();
    entry(&mut store, "e1", "p1", 1000).unwrap();
    store.set_pause_duration("e1", 100).unwrap();
    assert_eq!(store.stop_time_entry("e1", 1600), Ok(500));
    entry(&mut store, "e2", "p1", 2000).unwrap();
    store.set_pause_duration("e2", 50).unwrap();
    assert_eq!(store.stop_time_entry("e2", 2010), Ok(-40));
}

#[test]
fn stopping_an_unknown_or_stopped_entry_is_not_found() {
    let mut store = Store::new();
    store.create_project(project("p1", None, "Website"), 1).unwrap();
    assert_eq!(store.stop_time_entry("e1", 10), Err(StoreError::NotFound));
    entry(&mut store, "e1", "p1", 5).unwrap();
    assert_eq!(store.stop_time_entry("e1", 10), Ok(5));
    assert_eq!(store.stop_time_entry("e1", 20), Err(StoreError::NotFound));
    assert_eq!(store.get_time_entry("e1").unwrap().end_time, Some(10));
}

#[test]
fn pause_of_a_billed_entry_cannot_change() {
    let mut store = two_clients();
    assert_eq!(store.set_pause_duration("e1", 30), Ok(()));
    assert_eq!(store.get_time_entry("e1").unwrap().pause_duration, 30);
    assert_eq!(store.set_pause_duration("zz", 30), Err(StoreError::NotFound));
    store.mark_entries_billed(&vec!["e1".to_string()], "i1").unwrap();
    assert_eq!(store.set_pause_duration("e1", 60), Err(StoreError::Conflict));
    assert_eq!(store.get_time_entry("e1").unwrap().pause_duration, 30);
}

#[test]
fn billing_a_batch_marks_every_entry_and_ties_it_to_the_invoice() {
    let mut store = two_clients();
    entry(&mut store, "e4", "p1", 400).unwrap();
    let batch = vec!["e4".to_string(), "e1".to_string(), "e4".to_string()];
    assert_eq!(store.mark_entries_billed(&batch, "i1"), Ok(()));
    for id in ["e1", "e4"] {
        let stored = store.get_time_entry(id).unwrap();
        assert!(stored.is_billed);
        assert_eq!(stored.invoice_id, Some("i1".to_string()));
        assert_eq!(stored.billing_state(), BillingState::Billed);
    }
    let untouched = store.get_time_entry("e2").unwrap();
    assert!(!untouched.is_billed);
    assert_eq!(untouched.invoice_id, None);
    assert_eq!(untouched.billing_state(), BillingState::UnbilledBillable);
}

#[test]
fn billing_is_all_or_nothing_when_one_entry_is_already_billed() {
    let mut store = two_clients();
    entry(&mut store, "e4", "p1", 400).unwrap();
    entry(&mut store, "e5", "p1", 500).unwrap_err();
    store.stop_time_entry("e4", 450).unwrap();
    entry(&mut store, "e5", "p1", 500).unwrap();
    store.mark_entries_billed(&vec!["e1".to_string()], "i1").unwrap();
    let before = store.list_time_entries_by_project("p1");
    let batch = vec!["e4".to_string(), "e1".to_string(), "e5".to_string()];
    assert_eq!(store.mark_entries_billed(&batch, "i1"), Err(StoreError::Conflict));
    assert_eq!(store.list_time_entries_by_project("p1"), before);
    assert!(!store.get_time_entry("e4").unwrap().is_billed);
    assert!(!store.get_time_entry("e5").unwrap().is_billed);
}

#[test]
fn billing_against_another_clients_invoice_is_refused() {
    let mut store = two_clients();
    let batch = vec!["e1".to_string(), "e2".to_string()];
    assert_eq!(store.mark_entries_billed(&batch, "i1"), Err(StoreError::Conflict));
    assert!(!store.get_time_entry("e1").unwrap().is_billed);
    assert!(!store.get_time_entry("e2").unwrap().is_billed);
    assert_eq!(
        store.mark_entries_billed(&vec!["e3".to_string()], "i1"),
        Err(StoreError::Conflict)
    );
    assert!(!store.get_time_entry("e3").unwrap().is_billed);
}

#[test]
fn billing_unknown_entries_or_invoices_is_not_found() {
    let mut store = two_clients();
    let batch = vec!["e1".to_string(), "zz".to_string()];
    assert_eq!(store.mark_entries_billed(&batch, "i1"), Err(StoreError::NotFound));
    assert!(!store.get_time_entry("e1").unwrap().is_billed);
    assert_eq!(
        store.mark_entries_billed(&vec!["e1".to_string()], "i9"),
        Err(StoreError::NotFound)
    );
    let mixed = vec!["e2".to_string(), "zz".to_string()];
    assert_eq!(store.mark_entries_billed(&mixed, "i1"), Err(StoreError::NotFound));
    assert_eq!(store.mark_entries_billed(&Vec::new(), "i1"), Ok(()));
    assert!(!store.get_time_entry("e1").unwrap().is_billed);
}

#[test]
fn invoice_is_created_as_a_draft() {
    let mut store = Store::new();
    store.create_client(client("c1", "Acme"), 1).unwrap();
    let mut draft = invoice("i1", "c1", "2024-001", 1900);
    draft.status = InvoiceStatus::Paid;
    draft.issue_date = Some(100);
    draft.due_date = Some(100);
    assert_eq!(store.create_invoice(draft, 7), Ok("i1".to_string()));
    let stored = store.get_invoice("i1").unwrap();
    assert_eq!(stored.status, InvoiceStatus::Draft);
    assert_eq!(stored.tax_rate, 1900);
    assert_eq!(stored.created_at, 7);
    assert_eq!(stored.updated_at, 7);
    assert_eq!(store.get_invoice("i2"), None);
}

#[test]
fn invoice_with_malformed_values_is_refused() {
    let mut store = Store::new();
    store.create_client(client("c1", "Acme"), 1).unwrap();
    assert_eq!(
        store.create_invoice(invoice("i1", "c1", "", 0), 2),
        Err(StoreError::InvalidArgument)
    );
    let mut early = invoice("i1", "c1", "2024-001", 0);
    early.issue_date = Some(200);
    early.due_date = Some(199);
    assert_eq!(store.create_invoice(early, 2), Err(StoreError::InvalidArgument));
    assert_eq!(
        store.create_invoice(invoice("i1", "c1", "2024-001", MAX_TAX_RATE + 1), 2),
        Err(StoreError::InvalidArgument)
    );
    assert_eq!(
        store.create_invoice(invoice("i1", "c1", "2024-001", MAX_TAX_RATE), 2),
        Ok("i1".to_string())
    );
}

#[test]
fn invoice_needs_an_existing_client_a_fresh_id_and_a_fresh_number() {
    let mut store = Store::new();
    store.create_client(client("c1", "Acme"), 1).unwrap();
    store.create_client(client("c2", "Globex"), 1).unwrap();
    assert_eq!(
        store.create_invoice(invoice("i1", "c9", "2024-001", 0), 2),
        Err(StoreError::NotFound)
    );
    store.create_invoice(invoice("i1", "c1", "2024-001", 0), 2).unwrap();
    assert_eq!(
        store.create_invoice(invoice("i1", "c1", "2024-002", 0), 2),
        Err(StoreError::Conflict)
    );
    assert_eq!(
        store.create_invoice(invoice("i2", "c1", "2024-001", 0), 2),
        Err(StoreError::Conflict)
    );
    assert_eq!(store.create_invoice(invoice("i2", "c2", "2024-001", 0), 2), Ok("i2".to_string()));
    assert_eq!(store.list_invoices_by_client("c1").len(), 1);
}

#[test]
fn draft_cannot_be_paid_directly() {
    let mut store = two_clients();
    assert_eq!(
        store.set_invoice_status("i1", InvoiceStatus::Paid, 9),
        Err(StoreError::InvalidState)
    );
    let stored = store.get_invoice("i1").unwrap();
    assert_eq!(stored.status, InvoiceStatus::Draft);
    assert_eq!(stored.updated_at, 3);
}

#[test]
fn draft_is_sent_and_then_paid() {
    let mut store = two_clients();
    assert_eq!(store.set_invoice_status("i1", InvoiceStatus::Sent, 9), Ok(()));
    assert_eq!(store.get_invoice("i1").unwrap().status, InvoiceStatus::Sent);
    assert_eq!(store.set_invoice_status("i1", InvoiceStatus::Paid, 10), Ok(()));
    let stored = store.get_invoice("i1").unwrap();
    assert_eq!(stored.status, InvoiceStatus::Paid);
    assert_eq!(stored.updated_at, 10);
    assert_eq!(stored.created_at, 3);
}

#[test]
fn nothing_leads_out_of_paid_or_void() {
    let all = [
        InvoiceStatus::Draft,
        InvoiceStatus::Sent,
        InvoiceStatus::Paid,
        InvoiceStatus::Void,
    ];
    let mut store = two_clients();
    store.set_invoice_status("i1", InvoiceStatus::Sent, 9).unwrap();
    store.set_invoice_status("i1", InvoiceStatus::Paid, 9).unwrap();
    store.set_invoice_status("i2", InvoiceStatus::Void, 9).unwrap();
    for next in all {
        assert_eq!(store.set_invoice_status("i1", next, 11), Err(StoreError::InvalidState));
        assert_eq!(store.set_invoice_status("i2", next, 11), Err(StoreError::InvalidState));
        assert_eq!(InvoiceStatus::Paid.transition(next), Err(StoreError::InvalidState));
        assert_eq!(InvoiceStatus::Void.transition(next), Err(StoreError::InvalidState));
    }
    assert_eq!(store.get_invoice("i1").unwrap().status, InvoiceStatus::Paid);
    assert_eq!(store.get_invoice("i2").unwrap().status, InvoiceStatus::Void);
    assert_eq!(store.set_invoice_status("i9", InvoiceStatus::Sent, 9), Err(StoreError::NotFound));
}

#[test]
fn status_moves_forward_only() {
    assert_eq!(InvoiceStatus::Draft.transition(InvoiceStatus::Sent), Ok(InvoiceStatus::Sent));
    assert_eq!(InvoiceStatus::Draft.transition(InvoiceStatus::Void), Ok(InvoiceStatus::Void));
    assert_eq!(InvoiceStatus::Sent.transition(InvoiceStatus::Paid), Ok(InvoiceStatus::Paid));
    assert_eq!(InvoiceStatus::Sent.transition(InvoiceStatus::Void), Ok(InvoiceStatus::Void));
    assert_eq!(InvoiceStatus::Draft.transition(InvoiceStatus::Paid), Err(StoreError::InvalidState));
    assert_eq!(InvoiceStatus::Draft.transition(InvoiceStatus::Draft), Err(StoreError::InvalidState));
    assert_eq!(InvoiceStatus::Sent.transition(InvoiceStatus::Draft), Err(StoreError::InvalidState));
    assert_eq!(InvoiceStatus::Sent.transition(InvoiceStatus::Sent), Err(StoreError::InvalidState));
    assert!(InvoiceStatus::Sent.can_become(InvoiceStatus::Paid));
    assert!(!InvoiceStatus::Paid.can_become(InvoiceStatus::Sent));
}

#[test]
fn line_item_with_malformed_values_is_refused() {
    let mut store = two_clients();
    let mut blank = line("l9", "i1", 1000, 500);
    blank.description = String::new();
    assert_eq!(store.add_line_item(blank), Err(StoreError::InvalidArgument));
    assert_eq!(store.add_line_item(line("l9", "i1", 0, 500)), Err(StoreError::InvalidArgument));
    assert_eq!(
        store.add_line_item(line("l9", "i1", MAX_QUANTITY + 1, 500)),
        Err(StoreError::InvalidArgument)
    );
    assert_eq!(
        store.add_line_item(line("l9", "i1", 1000, MAX_UNIT_PRICE + 1)),
        Err(StoreError::InvalidArgument)
    );
    assert_eq!(store.add_line_item(line("l9", "i9", 1000, 500)), Err(StoreError::NotFound));
    assert_eq!(store.add_line_item(line("l1", "i1", 1000, 500)), Err(StoreError::Conflict));
    assert_eq!(store.get_line_item("l9"), None);
    assert_eq!(store.add_line_item(line("l9", "i1", 1000, 0)), Ok("l9".to_string()));
    assert_eq!(store.get_line_item("l9").unwrap().unit_price, 0);
}

#[test]
fn total_is_the_sum_of_the_lines_plus_tax_on_that_sum() {
    let mut store = Store::new();
    store.create_client(client("c1", "Acme"), 1).unwrap();
    store.create_invoice(invoice("i1", "c1", "2024-001", 1900), 2).unwrap();
    store.create_invoice(invoice("i2", "c1", "2024-002", 1900), 2).unwrap();
    store.add_line_item(line("l1", "i1", 2250, 8000)).unwrap();
    store.add_line_item(line("l2", "i2", 5000, 100)).unwrap();
    store.add_line_item(line("l3", "i1", 1000, 1999)).unwrap();
    assert_eq!(
        store.compute_invoice_total("i1"),
        Ok(InvoiceTotal { subtotal: 19_999_000, tax: 3_799_810, total: 23_798_810 })
    );
    assert_eq!(
        store.compute_invoice_total("i2"),
        Ok(InvoiceTotal { subtotal: 500_000, tax: 95_000, total: 595_000 })
    );
    assert_eq!(store.compute_invoice_total("i9"), Err(StoreError::NotFound));
}

#[test]
fn total_of_an_invoice_without_lines_is_zero() {
    let mut store = Store::new();
    store.create_client(client("c1", "Acme"), 1).unwrap();
    store.create_invoice(invoice("i1", "c1", "2024-001", 1900), 2).unwrap();
    assert_eq!(
        store.compute_invoice_total("i1"),
        Ok(InvoiceTotal { subtotal: 0, tax: 0, total: 0 })
    );
}

#[test]
fn tax_is_rounded_down() {
    let mut store = Store::new();
    store.create_client(client("c1", "Acme"), 1).unwrap();
    store.create_invoice(invoice("i1", "c1", "2024-001", 3333), 2).unwrap();
    store.add_line_item(line("l1", "i1", 1, 3)).unwrap();
    assert_eq!(
        store.compute_invoice_total("i1"),
        Ok(InvoiceTotal { subtotal: 3, tax: 0, total: 3 })
    );
    store.update_line_item("l1", 1, 4).unwrap();
    assert_eq!(
        store.compute_invoice_total("i1"),
        Ok(InvoiceTotal { subtotal: 4, tax: 1, total: 5 })
    );
}

#[test]
fn total_of_the_largest_amounts_is_exact() {
    let mut store = Store::new();
    store.create_client(client("c1", "Acme"), 1).unwrap();
    store.create_invoice(invoice("i1", "c1", "2024-001", MAX_TAX_RATE), 2).unwrap();
    store.add_line_item(line("l1", "i1", MAX_QUANTITY, MAX_UNIT_PRICE)).unwrap();
    store.add_line_item(line("l2", "i1", MAX_QUANTITY, MAX_UNIT_PRICE)).unwrap();
    assert_eq!(
        store.compute_invoice_total("i1"),
        Ok(InvoiceTotal {
            subtotal: 2_000_000_000_000_000_000,
            tax: 20_000_000_000_000_000_000,
            total: 22_000_000_000_000_000_000,
        })
    );
}

#[test]
fn changing_a_line_item_changes_the_next_total() {
    let mut store = two_clients();
    store.set_invoice_status("i1", InvoiceStatus::Sent, 5).unwrap();
    assert_eq!(store.compute_invoice_total("i1").unwrap().total, 500_000);
    assert_eq!(store.update_line_item("l1", 3000, 600), Ok(()));
    assert_eq!(store.compute_invoice_total("i1").unwrap().total, 1_800_000);
    let stored = store.get_line_item("l1").unwrap();
    assert_eq!((stored.quantity, stored.unit_price), (3000, 600));
    assert_eq!(stored.invoice_id, "i1");
    assert_eq!(store.update_line_item("l1", 0, 600), Err(StoreError::InvalidArgument));
    assert_eq!(
        store.update_line_item("l1", 1, MAX_UNIT_PRICE + 1),
        Err(StoreError::InvalidArgument)
    );
    assert_eq!(store.update_line_item("l9", 1, 1), Err(StoreError::NotFound));
    assert_eq!(store.compute_invoice_total("i1").unwrap().total, 1_800_000);
    assert_eq!(store.compute_invoice_total("i2").unwrap().total, 1_400_000);
}

#[test]
fn deleting_a_client_with_a_project_needs_cascade() {
    let mut store = two_clients();
    assert_eq!(store.delete_client("c1", false), Err(StoreError::Conflict));
    assert!(store.get_client("c1").is_some());
    assert!(store.get_project("p1").is_some());
    assert!(store.get_time_entry("e1").is_some());
    assert!(store.get_invoice("i1").is_some());
    assert!(store.get_line_item("l1").is_some());
    assert_eq!(store.list_clients().len(), 2);
    assert_eq!(store.list_time_entries_between(0, u64::MAX).len(), 3);
}

#[test]
fn deleting_a_client_with_an_invoice_only_needs_cascade() {
    let mut store = Store::new();
    store.create_client(client("c1", "Acme"), 1).unwrap();
    store.create_invoice(invoice("i1", "c1", "2024-001", 0), 2).unwrap();
    assert_eq!(store.delete_client("c1", false), Err(StoreError::Conflict));
    assert!(store.get_invoice("i1").is_some());
    assert_eq!(store.delete_client("c1", true), Ok(()));
    assert_eq!(store.get_invoice("i1"), None);
    assert_eq!(store.get_client("c1"), None);
}

#[test]
fn deleting_a_client_without_dependents_needs_no_cascade() {
    let mut store = two_clients();
    store.create_client(client("c3", "Initech"), 4).unwrap();
    assert_eq!(store.delete_client("c3", false), Ok(()));
    assert_eq!(store.get_client("c3"), None);
    assert_eq!(store.list_clients().len(), 2);
    assert_eq!(store.delete_client("c3", false), Err(StoreError::NotFound));
    assert_eq!(store.delete_client("c3", true), Err(StoreError::NotFound));
}

#[test]
fn cascade_removes_everything_that_hangs_on_the_client() {
    let mut store = two_clients();
    store.mark_entries_billed(&vec!["e2".to_string()], "i2").unwrap();
    assert_eq!(store.delete_client("c1", true), Ok(()));
    assert_eq!(store.get_client("c1"), None);
    assert_eq!(store.get_project("p1"), None);
    assert_eq!(store.get_time_entry("e1"), None);
    assert_eq!(store.get_invoice("i1"), None);
    assert_eq!(store.get_line_item("l1"), None);
    assert_eq!(store.get_client("c2").unwrap().name, "Globex");
    assert_eq!(store.get_project("p2").unwrap().client_id, Some("c2".to_string()));
    assert_eq!(store.get_project("p3").unwrap().client_id, None);
    assert_eq!(store.get_time_entry("e2").unwrap().invoice_id, Some("i2".to_string()));
    assert!(store.get_time_entry("e3").is_some());
    assert_eq!(store.get_invoice("i2").unwrap().invoice_number, "2024-001");
    assert_eq!(store.get_line_item("l2").unwrap().invoice_id, "i2");
    assert_eq!(store.compute_invoice_total("i2").unwrap().total, 1_400_000);
    assert_eq!(store.list_projects_by_client("c1"), Vec::new());
    assert_eq!(store.list_invoices_by_client("c1"), Vec::new());
}

#[test]
fn lists_pick_the_rows_asked_for_in_stored_order() {
    let mut store = two_clients();
    store.create_project(project("p4", Some("c1"), "Shop"), 6).unwrap();
    entry(&mut store, "e4", "p1", 250).unwrap();
    store.mark_entries_billed(&vec!["e1".to_string()], "i1").unwrap();
    let ids = |list: Vec<flowforge::model::TimeEntry>| -> Vec<String> {
        list.into_iter().map(|e| e.id).collect()
    };
    let projects: Vec<String> =
        store.list_projects_by_client("c1").into_iter().map(|p| p.id).collect();
    assert_eq!(projects, vec!["p1", "p4"]);
    assert_eq!(ids(store.list_time_entries_by_project("p1")), vec!["e1", "e4"]);
    assert_eq!(ids(store.list_time_entries_by_project("p9")), Vec::<String>::new());
    assert_eq!(ids(store.list_time_entries_between(100, 150)), vec!["e1", "e2", "e3"]);
    assert_eq!(ids(store.list_time_entries_between(101, 149)), Vec::<String>::new());
    assert_eq!(ids(store.list_time_entries_between(150, 250)), vec!["e3", "e4"]);
    assert_eq!(ids(store.list_time_entries_by_billed(true)), vec!["e1"]);
    assert_eq!(ids(store.list_time_entries_by_billed(false)), vec!["e2", "e3", "e4"]);
    let invoices: Vec<String> =
        store.list_invoices_by_client("c2").into_iter().map(|v| v.id).collect();
    assert_eq!(invoices, vec!["i2"]);
    store.add_line_item(line("l3", "i1", 1, 1)).unwrap();
    let lines: Vec<String> = store.list_line_items("i1").into_iter().map(|l| l.id).collect();
    assert_eq!(lines, vec!["l1", "l3"]);
}

#[test]
fn setting_is_stored_and_overwritten() {
    let mut store = Store::new();
    assert_eq!(store.get_setting("theme"), None);
    store.set_setting("theme".to_string(), "dark".to_string());
    store.set_setting("currency".to_string(), "EUR".to_string());
    assert_eq!(store.get_setting("theme"), Some("dark".to_string()));
    store.set_setting("theme".to_string(), "light".to_string());
    assert_eq!(store.get_setting("theme"), Some("light".to_string()));
    assert_eq!(store.get_setting("currency"), Some("EUR".to_string()));
    assert_eq!(store.get_setting("Theme"), None);
}

#[test]
fn tracked_morning_is_billed_and_paid() {
    let mut store = Store::new();
    let mut acme = client("acme", "Acme");
    acme.hourly_rate = Some(8000);
    store.create_client(acme, 1).unwrap();
    store.create_project(project("website", Some("acme"), "Website"), 2).unwrap();
    let nine = 9 * 3600;
    let half_past_eleven = 11 * 3600 + 30 * 60;
    store
        .create_time_entry("entry".to_string(), "website".to_string(), nine, true, nine)
        .unwrap();
    store.set_pause_duration("entry", 15 * 60).unwrap();
    let worked = store.stop_time_entry("entry", half_past_eleven).unwrap();
    assert_eq!(worked, 2 * 3600 + 15 * 60);
    store.create_invoice(invoice("inv", "acme", "2024-001", 0), half_past_eleven).unwrap();
    assert_eq!(store.mark_entries_billed(&vec!["entry".to_string()], "inv"), Ok(()));
    let rate = store.get_client("acme").unwrap().hourly_rate.unwrap();
    let quantity = hours_quantity(worked as u64);
    assert_eq!(quantity, 2250);
    store.add_line_item(line("line", "inv", quantity, rate)).unwrap();
    assert_eq!(store.set_invoice_status("inv", InvoiceStatus::Sent, half_past_eleven + 1), Ok(()));
    assert_eq!(store.set_invoice_status("inv", InvoiceStatus::Paid, half_past_eleven + 2), Ok(()));
    let total = store.compute_invoice_total("inv").unwrap();
    assert_eq!(total.total, 2250 * 8000);
    assert_eq!(total.total, 18_000_000);
    assert_eq!(total.tax, 0);
    let billed = store.get_time_entry("entry").unwrap();
    assert!(billed.is_billed);
    assert_eq!(billed.invoice_id, Some("inv".to_string()));
    assert_eq!(store.get_invoice("inv").unwrap().status, InvoiceStatus::Paid);
}

#[test]
fn updating_a_project_keeps_its_creation_time() {
    let mut store = two_clients();
    let mut next = project("p1", Some("c1"), "Website 2");
    next.status = ProjectStatus::Completed;
    next.color = Some("#336699".to_string());
    next.created_at = 999;
    assert_eq!(store.update_project(next, 9), Ok(()));
    let stored = store.get_project("p1").unwrap();
    assert_eq!(stored.name, "Website 2");
    assert_eq!(stored.status, ProjectStatus::Completed);
    assert_eq!(stored.color, Some("#336699".to_string()));
    assert_eq!(stored.created_at, 2);
    assert_eq!(stored.updated_at, 9);
    assert_eq!(store.update_project(project("p1", Some("c1"), ""), 9), Err(StoreError::InvalidArgument));
    assert_eq!(store.update_project(project("p9", None, "Nothing"), 9), Err(StoreError::NotFound));
    assert_eq!(
        store.update_project(project("p1", Some("c9"), "Website"), 9),
        Err(StoreError::NotFound)
    );
    assert_eq!(store.get_project("p1").unwrap().name, "Website 2");
}

#[test]
fn project_with_a_billed_entry_keeps_its_client() {
    let mut store = two_clients();
    assert_eq!(store.update_project(project("p1", Some("c2"), "Website"), 9), Ok(()));
    assert_eq!(store.get_project("p1").unwrap().client_id, Some("c2".to_string()));
    assert_eq!(store.update_project(project("p1", Some("c1"), "Website"), 9), Ok(()));
    store.mark_entries_billed(&vec!["e1".to_string()], "i1").unwrap();
    assert_eq!(
        store.update_project(project("p1", Some("c2"), "Website"), 9),
        Err(StoreError::Conflict)
    );
    assert_eq!(store.update_project(project("p1", None, "Website"), 9), Err(StoreError::Conflict));
    assert_eq!(store.get_project("p1").unwrap().client_id, Some("c1".to_string()));
    assert_eq!(store.update_project(project("p1", Some("c1"), "Renamed"), 10), Ok(()));
    assert_eq!(store.get_project("p1").unwrap().name, "Renamed");
}

#[test]
fn updating_an_invoice_keeps_status_client_and_creation_time() {
    let mut store = two_clients();
    store.set_invoice_status("i1", InvoiceStatus::Sent, 4).unwrap();
    let mut next = invoice("i1", "c1", "2024-007", 700);
    next.status = InvoiceStatus::Void;
    next.issue_date = Some(10);
    next.due_date = Some(40);
    next.created_at = 999;
    assert_eq!(store.update_invoice(next, 9), Ok(()));
    let stored = store.get_invoice("i1").unwrap();
    assert_eq!(stored.invoice_number, "2024-007");
    assert_eq!(stored.tax_rate, 700);
    assert_eq!(stored.issue_date, Some(10));
    assert_eq!(stored.due_date, Some(40));
    assert_eq!(stored.status, InvoiceStatus::Sent);
    assert_eq!(stored.created_at, 3);
    assert_eq!(stored.updated_at, 9);
    assert_eq!(store.update_invoice(invoice("i1", "c1", "2024-007", 0), 10), Ok(()));
}

#[test]
fn invoice_update_with_malformed_or_clashing_values_is_refused() {
    let mut store = two_clients();
    store.create_invoice(invoice("i3", "c1", "2024-002", 0), 3).unwrap();
    assert_eq!(store.update_invoice(invoice("i1", "c1", "", 0), 9), Err(StoreError::InvalidArgument));
    let mut early = invoice("i1", "c1", "2024-001", 0);
    early.issue_date = Some(5);
    early.due_date = Some(4);
    assert_eq!(store.update_invoice(early, 9), Err(StoreError::InvalidArgument));
    assert_eq!(
        store.update_invoice(invoice("i1", "c1", "2024-001", MAX_TAX_RATE + 1), 9),
        Err(StoreError::InvalidArgument)
    );
    assert_eq!(store.update_invoice(invoice("i9", "c1", "2024-009", 0), 9), Err(StoreError::NotFound));
    assert_eq!(store.update_invoice(invoice("i1", "c2", "2024-009", 0), 9), Err(StoreError::Conflict));
    assert_eq!(store.update_invoice(invoice("i1", "c1", "2024-002", 0), 9), Err(StoreError::Conflict));
    let stored = store.get_invoice("i1").unwrap();
    assert_eq!(stored.invoice_number, "2024-001");
    assert_eq!(stored.updated_at, 3);
}

#[test]
fn notes_of_an_unbilled_entry_can_change() {
    let mut store = two_clients();
    assert_eq!(store.set_time_entry_notes("e1", Some("kickoff".to_string())), Ok(()));
    assert_eq!(store.get_time_entry("e1").unwrap().notes, Some("kickoff".to_string()));
    assert_eq!(store.set_time_entry_notes("e1", None), Ok(()));
    assert_eq!(store.get_time_entry("e1").unwrap().notes, None);
    assert_eq!(store.set_time_entry_notes("zz", None), Err(StoreError::NotFound));
    store.mark_entries_billed(&vec!["e1".to_string()], "i1").unwrap();
    assert_eq!(
        store.set_time_entry_notes("e1", Some("late".to_string())),
        Err(StoreError::Conflict)
    );
    assert_eq!(store.get_time_entry("e1").unwrap().notes, None);
}

#[test]
fn billed_entry_cannot_be_deleted() {
    let mut store = two_clients();
    store.mark_entries_billed(&vec!["e1".to_string()], "i1").unwrap();
    assert_eq!(store.delete_time_entry("e1"), Err(StoreError::Conflict));
    assert!(store.get_time_entry("e1").is_some());
    assert_eq!(store.delete_time_entry("zz"), Err(StoreError::NotFound));
    assert_eq!(store.delete_time_entry("e2"), Ok(()));
    assert_eq!(store.get_time_entry("e2"), None);
    assert!(store.get_time_entry("e1").is_some());
    assert!(store.get_time_entry("e3").is_some());
    assert_eq!(store.list_time_entries_between(0, u64::MAX).len(), 2);
}

#[test]
fn deleting_a_line_item_lowers_the_total() {
    let mut store = two_clients();
    store.add_line_item(line("l3", "i1", 2000, 100)).unwrap();
    assert_eq!(store.compute_invoice_total("i1").unwrap().total, 700_000);
    assert_eq!(store.delete_line_item("l1"), Ok(()));
    assert_eq!(store.get_line_item("l1"), None);
    assert_eq!(store.compute_invoice_total("i1").unwrap().total, 200_000);
    assert_eq!(store.delete_line_item("l1"), Err(StoreError::NotFound));
    assert!(store.get_line_item("l2").is_some());
    assert!(store.get_line_item("l3").is_some());
}

#[test]
fn deleting_a_project_with_entries_needs_cascade() {
    let mut store = two_clients();
    assert_eq!(store.delete_project("p9", true), Err(StoreError::NotFound));
    assert_eq!(store.delete_project("p3", false), Err(StoreError::Conflict));
    assert!(store.get_project("p3").is_some());
    assert!(store.get_time_entry("e3").is_some());
    assert_eq!(store.delete_project("p3", true), Ok(()));
    assert_eq!(store.get_project("p3"), None);
    assert_eq!(store.get_time_entry("e3"), None);
    assert!(store.get_time_entry("e1").is_some());
    assert!(store.get_project("p1").is_some());
    store.create_project(project("p5", None, "Empty"), 9).unwrap();
    assert_eq!(store.delete_project("p5", false), Ok(()));
    assert_eq!(store.get_project("p5"), None);
}

#[test]
fn project_with_a_billed_entry_cannot_be_deleted() {
    let mut store = two_clients();
    store.mark_entries_billed(&vec!["e1".to_string()], "i1").unwrap();
    assert_eq!(store.delete_project("p1", false), Err(StoreError::Conflict));
    assert_eq!(store.delete_project("p1", true), Err(StoreError::Conflict));
    assert!(store.get_project("p1").is_some());
    assert!(store.get_time_entry("e1").is_some());
}

#[test]
fn deleting_an_invoice_with_line_items_needs_cascade() {
    let mut store = two_clients();
    assert_eq!(store.delete_invoice("i9", true), Err(StoreError::NotFound));
    assert_eq!(store.delete_invoice("i1", false), Err(StoreError::Conflict));
    assert!(store.get_invoice("i1").is_some());
    assert!(store.get_line_item("l1").is_some());
    assert_eq!(store.delete_invoice("i1", true), Ok(()));
    assert_eq!(store.get_invoice("i1"), None);
    assert_eq!(store.get_line_item("l1"), None);
    assert!(store.get_invoice("i2").is_some());
    assert!(store.get_line_item("l2").is_some());
    store.create_invoice(invoice("i3", "c1", "2024-001", 0), 9).unwrap();
    assert_eq!(store.delete_invoice("i3", false), Ok(()));
}

#[test]
fn invoice_with_billed_entries_cannot_be_deleted() {
    let mut store = two_clients();
    store.mark_entries_billed(&vec!["e1".to_string()], "i1").unwrap();
    assert_eq!(store.delete_invoice("i1", true), Err(StoreError::Conflict));
    assert_eq!(store.delete_invoice("i1", false), Err(StoreError::Conflict));
    assert!(store.get_invoice("i1").is_some());
    assert!(store.get_line_item("l1").is_some());
    assert_eq!(store.get_time_entry("e1").unwrap().invoice_id, Some("i1".to_string()));
}

#[test]
fn stopping_a_billed_entry_leaves_it_billed() {
    let mut store = two_clients();
    store.mark_entries_billed(&vec!["e3".to_string()], "i1").unwrap_err();
    store.create_project(project("p4", Some("c1"), "Shop"), 6).unwrap();
    entry(&mut store, "e4", "p4", 500).unwrap();
    store.mark_entries_billed(&vec!["e4".to_string()], "i1").unwrap();
    assert_eq!(store.stop_time_entry("e4", 560), Ok(60));
    let stored = store.get_time_entry("e4").unwrap();
    assert!(stored.is_billed);
    assert_eq!(stored.invoice_id, Some("i1".to_string()));
    assert_eq!(stored.end_time, Some(560));
}

#[test]
fn entries_of_a_client_span_all_its_projects() {
    let mut store = two_clients();
    store.create_project(project("p4", Some("c1"), "Shop"), 6).unwrap();
    entry(&mut store, "e4", "p4", 250).unwrap();
    entry(&mut store, "e5", "p1", 300).unwrap();
    let ids = |list: Vec<flowforge::model::TimeEntry>| -> Vec<String> {
        list.into_iter().map(|e| e.id).collect()
    };
    assert_eq!(ids(store.list_time_entries_by_client("c1")), vec!["e1", "e4", "e5"]);
    assert_eq!(ids(store.list_time_entries_by_client("c2")), vec!["e2"]);
    assert_eq!(ids(store.list_time_entries_by_client("c9")), Vec::<String>::new());
}
