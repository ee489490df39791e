//! Why each change that the store makes keeps the tables consistent.

use vstd::prelude::*;
use crate::filtering::{
    filter_positions, lemma_filter_keeps_key, lemma_filter_key_origin, lemma_filter_keys_unique,
};
use crate::model::{Client, Invoice, InvoiceLineItem, Project, Setting, TimeEntry};
use crate::tables::{
    all_but, billed_entries_of, client_valid, entries_billed_against, entries_outside,
    entries_within, entry_matches_invoice, entry_valid, has_key, has_running_entry, invoice_valid,
    invoices_of_others, lemma_push_keys, lemma_same_key, lemma_update_keys, line_item_valid,
    lines_outside, lines_within, number_taken, number_taken_elsewhere, position_of, project_is_of,
    project_valid, projects_of_others, some_row, Tables, with_setting, without_client,
    without_invoice, without_line_item, without_project,
};
use crate::text::same_optional;

verus! {

/// A valid client under a fresh id may be added.
pub proof fn lemma_add_client(t: Tables, c: Client)
    requires
        t.wf(),
        client_valid(c),
        !has_key(t.clients, c.id@),
    ensures
        (Tables { clients: t.clients.push(c), ..t }).wf(),
{
    let after = t.clients.push(c);
    lemma_push_keys(t.clients, c);
    assert forall|i: int| 0 <= i < after.len() implies client_valid(#[trigger] after[i]) by {
        if i < t.clients.len() {
            assert(client_valid(t.clients[i]));
        }
    }
}

/// A client may be replaced by a valid one with the same id.
pub proof fn lemma_replace_client(t: Tables, i: int, c: Client)
    requires
        t.wf(),
        0 <= i < t.clients.len(),
        c.id@ == t.clients[i].id@,
        client_valid(c),
    ensures
        (Tables { clients: t.clients.update(i, c), ..t }).wf(),
{
    let after = t.clients.update(i, c);
    lemma_update_keys(t.clients, i, c);
    assert forall|k: int| 0 <= k < after.len() implies client_valid(#[trigger] after[k]) by {
        if k != i {
            assert(client_valid(t.clients[k]));
        }
    }
    assert forall|k: int| 0 <= k < t.projects.len() implies ((
    #[trigger] t.projects[k]).client_id matches Some(w) ==> has_key(after, w@)) by {
        if let Some(w) = t.projects[k].client_id {
            assert(has_key(t.clients, w@));
        }
    }
    assert forall|k: int| 0 <= k < t.invoices.len() implies has_key(
        after,
        (#[trigger] t.invoices[k]).client_id@,
    ) by {
        assert(has_key(t.clients, t.invoices[k].client_id@));
    }
}

/// A project may be replaced by a valid one with the same id whose client,
/// if it names one, exists. The client may differ from the one before only
/// where no entry of the project is billed.
pub proof fn lemma_replace_project(t: Tables, i: int, p: Project)
    requires
        t.wf(),
        0 <= i < t.projects.len(),
        p.id@ == t.projects[i].id@,
        project_valid(p),
        p.client_id matches Some(c) ==> has_key(t.clients, c@),
        same_optional(p.client_id, t.projects[i].client_id) || !some_row(
            t.time_entries,
            billed_entries_of(p.id@),
        ),
    ensures
        (Tables { projects: t.projects.update(i, p), ..t }).wf(),
{
    let after = t.projects.update(i, p);
    lemma_update_keys(t.projects, i, p);
    assert forall|k: int| 0 <= k < after.len() implies project_valid(#[trigger] after[k]) by {
        if k != i {
            assert(project_valid(t.projects[k]));
        }
    }
    assert forall|k: int| 0 <= k < after.len() implies ((#[trigger] after[k]).client_id matches Some(
        w,
    ) ==> has_key(t.clients, w@)) by {
        if k != i {
            assert(after[k] == t.projects[k]);
        }
    }
    assert forall|k: int| 0 <= k < t.time_entries.len() implies has_key(
        after,
        (#[trigger] t.time_entries[k]).project_id@,
    ) by {
        assert(has_key(t.projects, t.time_entries[k].project_id@));
    }
    assert forall|k: int| 0 <= k < t.time_entries.len() implies (
    #[trigger] t.time_entries[k]).invoice_id matches Some(w) ==> entry_matches_invoice(
        t.time_entries[k],
        w@,
        after,
        t.invoices,
    ) by {
        let e = t.time_entries[k];
        if let Some(w) = e.invoice_id {
            assert(entry_matches_invoice(e, w@, t.projects, t.invoices));
            let (a, b) = choose|a: int, b: int|
                0 <= a < t.projects.len() && 0 <= b < t.invoices.len() && (
                #[trigger] t.projects[a]).id@ == e.project_id@ && (#[trigger] t.invoices[b]).id@
                    == w@ && project_is_of(t.projects[a], t.invoices[b].client_id@);
            if a == i {
                assert(entry_valid(e));
                assert(billed_entries_of(p.id@)(e));
            }
            assert(after[a].id@ == e.project_id@ && project_is_of(
                after[a],
                t.invoices[b].client_id@,
            ));
        }
    }
}

/// Setting a value keeps the tables consistent.
pub proof fn lemma_with_setting(t: Tables, key: String, value: String)
    requires
        t.wf(),
    ensures
        with_setting(t, key, value).wf(),
{
    if has_key(t.settings, key@) {
        let at = position_of(t.settings, key@);
        lemma_update_keys(t.settings, at, Setting { value, ..t.settings[at] });
    } else {
        lemma_push_keys(t.settings, Setting { key, value });
    }
}

/// A valid project under a fresh id may be added where its client, if it
/// names one, exists.
pub proof fn lemma_add_project(t: Tables, p: Project)
    requires
        t.wf(),
        project_valid(p),
        !has_key(t.projects, p.id@),
        p.client_id matches Some(c) ==> has_key(t.clients, c@),
    ensures
        (Tables { projects: t.projects.push(p), ..t }).wf(),
{
    let after = t.projects.push(p);
    lemma_push_keys(t.projects, p);
    assert forall|i: int| 0 <= i < after.len() implies project_valid(#[trigger] after[i]) by {
        if i < t.projects.len() {
            assert(project_valid(t.projects[i]));
        }
    }
    assert forall|i: int| 0 <= i < after.len() implies ((#[trigger] after[i]).client_id matches Some(
        c,
    ) ==> has_key(t.clients, c@)) by {
        if i < t.projects.len() {
            assert(after[i] == t.projects[i]);
        }
    }
    assert forall|i: int| 0 <= i < t.time_entries.len() implies (
    #[trigger] t.time_entries[i]).invoice_id matches Some(v) ==> entry_matches_invoice(
        t.time_entries[i],
        v@,
        after,
        t.invoices,
    ) by {
        let e = t.time_entries[i];
        if let Some(v) = e.invoice_id {
            assert(entry_matches_invoice(e, v@, t.projects, t.invoices));
            let (a, b) = choose|a: int, b: int|
                0 <= a < t.projects.len() && 0 <= b < t.invoices.len() && (
                #[trigger] t.projects[a]).id@ == e.project_id@ && (#[trigger] t.invoices[b]).id@
                    == v@ && project_is_of(t.projects[a], t.invoices[b].client_id@);
            assert(after[a] == t.projects[a]);
        }
    }
}

/// A valid unbilled entry under a fresh id may be added where its project
/// exists and, if the entry is running, has no running entry yet.
pub proof fn lemma_add_entry(t: Tables, e: TimeEntry)
    requires
        t.wf(),
        entry_valid(e),
        e.invoice_id is None,
        !has_key(t.time_entries, e.id@),
        has_key(t.projects, e.project_id@),
        e.is_running() ==> !has_running_entry(t.time_entries, e.project_id@),
    ensures
        (Tables { time_entries: t.time_entries.push(e), ..t }).wf(),
{
    let after = t.time_entries.push(e);
    lemma_push_keys(t.time_entries, e);
    assert forall|i: int| 0 <= i < after.len() implies entry_valid(#[trigger] after[i]) by {
        if i < t.time_entries.len() {
            assert(entry_valid(t.time_entries[i]));
        }
    }
    assert forall|i: int| 0 <= i < after.len() implies has_key(
        t.projects,
        (#[trigger] after[i]).project_id@,
    ) by {
        if i < t.time_entries.len() {
            assert(after[i] == t.time_entries[i]);
        }
    }
    assert forall|i: int, j: int|
        0 <= i < j < after.len() && (#[trigger] after[i]).is_running() && (
        #[trigger] after[j]).is_running() implies after[i].project_id@ != after[j].project_id@ by {
        assert(after[i] == t.time_entries[i]);
        if j < t.time_entries.len() {
            assert(after[j] == t.time_entries[j]);
        }
    }
    assert forall|i: int| 0 <= i < after.len() implies ((#[trigger] after[i]).invoice_id matches Some(
        v,
    ) ==> entry_matches_invoice(after[i], v@, t.projects, t.invoices)) by {
        if i < t.time_entries.len() {
            assert(after[i] == t.time_entries[i]);
        }
    }
}

/// An entry may be replaced by a valid one with the same id and project
/// that is not newly running and whose invoice, if it names one, is made out
/// to the client of its project.
pub proof fn lemma_replace_entry(t: Tables, i: int, e: TimeEntry)
    requires
        t.wf(),
        0 <= i < t.time_entries.len(),
        e.id@ == t.time_entries[i].id@,
        e.project_id@ == t.time_entries[i].project_id@,
        entry_valid(e),
        e.is_running() ==> t.time_entries[i].is_running(),
        e.invoice_id matches Some(v) ==> entry_matches_invoice(e, v@, t.projects, t.invoices),
    ensures
        (Tables { time_entries: t.time_entries.update(i, e), ..t }).wf(),
{
    let after = t.time_entries.update(i, e);
    lemma_update_keys(t.time_entries, i, e);
    assert forall|k: int| 0 <= k < after.len() implies entry_valid(#[trigger] after[k]) by {
        if k != i {
            assert(entry_valid(t.time_entries[k]));
        }
    }
    assert forall|k: int| 0 <= k < after.len() implies has_key(
        t.projects,
        (#[trigger] after[k]).project_id@,
    ) by {
        assert(has_key(t.projects, t.time_entries[k].project_id@));
    }
    assert forall|a: int, b: int|
        0 <= a < b < after.len() && (#[trigger] after[a]).is_running() && (
        #[trigger] after[b]).is_running() implies after[a].project_id@ != after[b].project_id@ by {
        assert(t.time_entries[a].is_running() && t.time_entries[b].is_running());
    }
    assert forall|k: int| 0 <= k < after.len() implies ((#[trigger] after[k]).invoice_id matches Some(
        v,
    ) ==> entry_matches_invoice(after[k], v@, t.projects, t.invoices)) by {
        if k != i {
            assert(after[k] == t.time_entries[k]);
        }
    }
}

/// A valid invoice under a fresh id and a number that its client has not
/// used yet may be added where the client exists.
pub proof fn lemma_add_invoice(t: Tables, v: Invoice)
    requires
        t.wf(),
        invoice_valid(v),
        !has_key(t.invoices, v.id@),
        has_key(t.clients, v.client_id@),
        !number_taken(t.invoices, v.client_id@, v.invoice_number@),
    ensures
        (Tables { invoices: t.invoices.push(v), ..t }).wf(),
{
    let after = t.invoices.push(v);
    lemma_push_keys(t.invoices, v);
    assert forall|i: int| 0 <= i < after.len() implies invoice_valid(#[trigger] after[i]) by {
        if i < t.invoices.len() {
            assert(invoice_valid(t.invoices[i]));
        }
    }
    assert forall|i: int| 0 <= i < after.len() implies has_key(
        t.clients,
        (#[trigger] after[i]).client_id@,
    ) by {
        if i < t.invoices.len() {
            assert(after[i] == t.invoices[i]);
        }
    }
    assert forall|i: int, j: int|
        0 <= i < j < after.len() && (#[trigger] after[i]).client_id@ == (
        #[trigger] after[j]).client_id@ implies after[i].invoice_number@
        != after[j].invoice_number@ by {
        assert(after[i] == t.invoices[i]);
        if j < t.invoices.len() {
            assert(after[j] == t.invoices[j]);
        }
    }
    assert forall|i: int| 0 <= i < t.time_entries.len() implies (
    #[trigger] t.time_entries[i]).invoice_id matches Some(w) ==> entry_matches_invoice(
        t.time_entries[i],
        w@,
        t.projects,
        after,
    ) by {
        let e = t.time_entries[i];
        if let Some(w) = e.invoice_id {
            assert(entry_matches_invoice(e, w@, t.projects, t.invoices));
            let (a, b) = choose|a: int, b: int|
                0 <= a < t.projects.len() && 0 <= b < t.invoices.len() && (
                #[trigger] t.projects[a]).id@ == e.project_id@ && (#[trigger] t.invoices[b]).id@
                    == w@ && project_is_of(t.projects[a], t.invoices[b].client_id@);
            assert(after[b] == t.invoices[b]);
        }
    }
}

/// An invoice may be replaced by a valid one with the same id and client
/// whose number no other invoice of that client has.
pub proof fn lemma_replace_invoice(t: Tables, i: int, v: Invoice)
    requires
        t.wf(),
        0 <= i < t.invoices.len(),
        v.id@ == t.invoices[i].id@,
        v.client_id@ == t.invoices[i].client_id@,
        !number_taken_elsewhere(t.invoices, i, v.client_id@, v.invoice_number@),
        invoice_valid(v),
    ensures
        (Tables { invoices: t.invoices.update(i, v), ..t }).wf(),
{
    let after = t.invoices.update(i, v);
    lemma_update_keys(t.invoices, i, v);
    assert forall|k: int| 0 <= k < after.len() implies invoice_valid(#[trigger] after[k]) by {
        if k != i {
            assert(invoice_valid(t.invoices[k]));
        }
    }
    assert forall|k: int| 0 <= k < after.len() implies has_key(
        t.clients,
        (#[trigger] after[k]).client_id@,
    ) by {
        assert(has_key(t.clients, t.invoices[k].client_id@));
    }
    assert forall|a: int, b: int|
        0 <= a < b < after.len() && (#[trigger] after[a]).client_id@ == (
        #[trigger] after[b]).client_id@ implies after[a].invoice_number@
        != after[b].invoice_number@ by {
        assert(t.invoices[a].client_id@ == t.invoices[b].client_id@);
        if a != i && b != i {
            assert(after[a] == t.invoices[a] && after[b] == t.invoices[b]);
        }
    }
    assert forall|k: int| 0 <= k < t.time_entries.len() implies (
    #[trigger] t.time_entries[k]).invoice_id matches Some(w) ==> entry_matches_invoice(
        t.time_entries[k],
        w@,
        t.projects,
        after,
    ) by {
        let e = t.time_entries[k];
        if let Some(w) = e.invoice_id {
            assert(entry_matches_invoice(e, w@, t.projects, t.invoices));
            let (a, b) = choose|a: int, b: int|
                0 <= a < t.projects.len() && 0 <= b < t.invoices.len() && (
                #[trigger] t.projects[a]).id@ == e.project_id@ && (#[trigger] t.invoices[b]).id@
                    == w@ && project_is_of(t.projects[a], t.invoices[b].client_id@);
            assert(after[b].id@ == w@ && after[b].client_id@ == t.invoices[b].client_id@);
        }
    }
    assert forall|k: int| 0 <= k < t.line_items.len() implies has_key(
        after,
        (#[trigger] t.line_items[k]).invoice_id@,
    ) by {
        assert(has_key(t.invoices, t.line_items[k].invoice_id@));
    }
}

/// A valid line item under a fresh id may be added where its invoice exists.
pub proof fn lemma_add_line_item(t: Tables, l: InvoiceLineItem)
    requires
        t.wf(),
        line_item_valid(l),
        !has_key(t.line_items, l.id@),
        has_key(t.invoices, l.invoice_id@),
    ensures
        (Tables { line_items: t.line_items.push(l), ..t }).wf(),
{
    let after = t.line_items.push(l);
    lemma_push_keys(t.line_items, l);
    assert forall|i: int| 0 <= i < after.len() implies line_item_valid(#[trigger] after[i]) by {
        if i < t.line_items.len() {
            assert(line_item_valid(t.line_items[i]));
        }
    }
    assert forall|i: int| 0 <= i < after.len() implies has_key(
        t.invoices,
        (#[trigger] after[i]).invoice_id@,
    ) by {
        if i < t.line_items.len() {
            assert(after[i] == t.line_items[i]);
        }
    }
}

/// A line item may be replaced by a valid one with the same id and invoice.
pub proof fn lemma_replace_line_item(t: Tables, i: int, l: InvoiceLineItem)
    requires
        t.wf(),
        0 <= i < t.line_items.len(),
        l.id@ == t.line_items[i].id@,
        l.invoice_id@ == t.line_items[i].invoice_id@,
        line_item_valid(l),
    ensures
        (Tables { line_items: t.line_items.update(i, l), ..t }).wf(),
{
    let after = t.line_items.update(i, l);
    lemma_update_keys(t.line_items, i, l);
    assert forall|k: int| 0 <= k < after.len() implies line_item_valid(#[trigger] after[k]) by {
        if k != i {
            assert(line_item_valid(t.line_items[k]));
        }
    }
    assert forall|k: int| 0 <= k < after.len() implies has_key(
        t.invoices,
        (#[trigger] after[k]).invoice_id@,
    ) by {
        assert(has_key(t.invoices, t.line_items[k].invoice_id@));
    }
}

/// Taking a client out together with everything that hangs on it leaves
/// consistent tables.
pub proof fn lemma_without_client(t: Tables, id: Seq<char>)
    requires
        t.wf(),
    ensures
        without_client(t, id).wf(),
{
    let after = without_client(t, id);
    let clients_at = filter_positions(t.clients, all_but::<Client>(id));
    let projects_at = filter_positions(t.projects, projects_of_others(id));
    let invoices_at = filter_positions(t.invoices, invoices_of_others(id));
    let entries_at = filter_positions(t.time_entries, entries_within(after.projects));
    let lines_at = filter_positions(t.line_items, lines_within(after.invoices));

    lemma_filter_keys_unique(t.clients, all_but::<Client>(id));
    lemma_filter_keys_unique(t.projects, projects_of_others(id));
    lemma_filter_keys_unique(t.invoices, invoices_of_others(id));
    lemma_filter_keys_unique(t.time_entries, entries_within(after.projects));
    lemma_filter_keys_unique(t.line_items, lines_within(after.invoices));

    assert forall|i: int| 0 <= i < after.clients.len() implies client_valid(
        #[trigger] after.clients[i],
    ) by {
        assert(client_valid(t.clients[clients_at[i]]));
    }
    assert forall|i: int| 0 <= i < after.projects.len() implies project_valid(
        #[trigger] after.projects[i],
    ) by {
        assert(project_valid(t.projects[projects_at[i]]));
    }
    assert forall|i: int| 0 <= i < after.time_entries.len() implies entry_valid(
        #[trigger] after.time_entries[i],
    ) by {
        assert(entry_valid(t.time_entries[entries_at[i]]));
    }
    assert forall|i: int| 0 <= i < after.invoices.len() implies invoice_valid(
        #[trigger] after.invoices[i],
    ) by {
        assert(invoice_valid(t.invoices[invoices_at[i]]));
    }
    assert forall|i: int| 0 <= i < after.line_items.len() implies line_item_valid(
        #[trigger] after.line_items[i],
    ) by {
        assert(line_item_valid(t.line_items[lines_at[i]]));
    }

    assert forall|i: int| 0 <= i < after.projects.len() implies ((
    #[trigger] after.projects[i]).client_id matches Some(c) ==> has_key(after.clients, c@)) by {
        let p = t.projects[projects_at[i]];
        if let Some(c) = p.client_id {
            assert(has_key(t.clients, c@));
            let k = position_of(t.clients, c@);
            lemma_filter_keeps_key(t.clients, all_but::<Client>(id), k);
        }
    }
    assert forall|i: int| 0 <= i < after.time_entries.len() implies has_key(
        after.projects,
        (#[trigger] after.time_entries[i]).project_id@,
    ) by {
        assert(entries_within(after.projects)(t.time_entries[entries_at[i]]));
    }
    assert forall|i: int| 0 <= i < after.invoices.len() implies has_key(
        after.clients,
        (#[trigger] after.invoices[i]).client_id@,
    ) by {
        let v = t.invoices[invoices_at[i]];
        assert(has_key(t.clients, v.client_id@));
        let k = position_of(t.clients, v.client_id@);
        lemma_filter_keeps_key(t.clients, all_but::<Client>(id), k);
    }
    assert forall|i: int| 0 <= i < after.line_items.len() implies has_key(
        after.invoices,
        (#[trigger] after.line_items[i]).invoice_id@,
    ) by {
        assert(lines_within(after.invoices)(t.line_items[lines_at[i]]));
    }

    assert forall|i: int, j: int|
        0 <= i < j < after.time_entries.len() && (#[trigger] after.time_entries[i]).is_running() && (
        #[trigger] after.time_entries[j]).is_running() implies after.time_entries[i].project_id@
        != after.time_entries[j].project_id@ by {
        assert(entries_at[i] < entries_at[j]);
        assert(t.time_entries[entries_at[i]].is_running() && t.time_entries[entries_at[j]].is_running());
    }
    assert forall|i: int, j: int|
        0 <= i < j < after.invoices.len() && (#[trigger] after.invoices[i]).client_id@ == (
        #[trigger] after.invoices[j]).client_id@ implies after.invoices[i].invoice_number@
        != after.invoices[j].invoice_number@ by {
        assert(invoices_at[i] < invoices_at[j]);
        assert(t.invoices[invoices_at[i]].client_id@ == t.invoices[invoices_at[j]].client_id@);
    }

    assert forall|i: int| 0 <= i < after.time_entries.len() implies ((
    #[trigger] after.time_entries[i]).invoice_id matches Some(w) ==> entry_matches_invoice(
        after.time_entries[i],
        w@,
        after.projects,
        after.invoices,
    )) by {
        let e = t.time_entries[entries_at[i]];
        assert(after.time_entries[i] == e);
        if let Some(w) = e.invoice_id {
            assert(entry_matches_invoice(e, w@, t.projects, t.invoices));
            let (a, b) = choose|a: int, b: int|
                0 <= a < t.projects.len() && 0 <= b < t.invoices.len() && (
                #[trigger] t.projects[a]).id@ == e.project_id@ && (#[trigger] t.invoices[b]).id@
                    == w@ && project_is_of(t.projects[a], t.invoices[b].client_id@);
            assert(entries_within(after.projects)(e));
            let kept = lemma_filter_key_origin(t.projects, projects_of_others(id), e.project_id@);
            lemma_same_key(t.projects, a, kept);
            assert(projects_of_others(id)(t.projects[a]));
            assert(invoices_of_others(id)(t.invoices[b]));
            t.projects.lemma_filter_contains(projects_of_others(id), a);
            t.invoices.lemma_filter_contains(invoices_of_others(id), b);
            let m = choose|m: int| 0 <= m < after.projects.len() && after.projects[m] == t.projects[a];
            let n = choose|n: int| 0 <= n < after.invoices.len() && after.invoices[n] == t.invoices[b];
            assert(after.projects[m].id@ == e.project_id@ && after.invoices[n].id@ == w@
                && project_is_of(after.projects[m], after.invoices[n].client_id@));
        }
    }
}

/// An invoice's own number is not taken by another invoice of its client.
pub proof fn lemma_own_number_free(t: Tables, i: int)
    requires
        t.wf(),
        0 <= i < t.invoices.len(),
    ensures
        !number_taken_elsewhere(
            t.invoices,
            i,
            t.invoices[i].client_id@,
            t.invoices[i].invoice_number@,
        ),
{
    if number_taken_elsewhere(t.invoices, i, t.invoices[i].client_id@, t.invoices[i].invoice_number@) {
        let j = choose|j: int|
            0 <= j < t.invoices.len() && j != i && (#[trigger] t.invoices[j]).client_id@
                == t.invoices[i].client_id@ && t.invoices[j].invoice_number@
                == t.invoices[i].invoice_number@;
        if j < i {
            assert(t.invoices[j].invoice_number@ != t.invoices[i].invoice_number@);
        } else {
            assert(t.invoices[i].invoice_number@ != t.invoices[j].invoice_number@);
        }
    }
}

/// Taking a line item out leaves consistent tables.
pub proof fn lemma_without_line_item(t: Tables, id: Seq<char>)
    requires
        t.wf(),
    ensures
        without_line_item(t, id).wf(),
{
    let after = without_line_item(t, id);
    let at = filter_positions(t.line_items, all_but(id));
    lemma_filter_keys_unique(t.line_items, all_but(id));
    assert forall|i: int| 0 <= i < after.line_items.len() implies line_item_valid(
        #[trigger] after.line_items[i],
    ) by {
        assert(line_item_valid(t.line_items[at[i]]));
    }
    assert forall|i: int| 0 <= i < after.line_items.len() implies has_key(
        t.invoices,
        (#[trigger] after.line_items[i]).invoice_id@,
    ) by {
        assert(has_key(t.invoices, t.line_items[at[i]].invoice_id@));
    }
}

/// Taking entries out leaves consistent tables.
pub proof fn lemma_without_entries(t: Tables, keep: spec_fn(TimeEntry) -> bool)
    requires
        t.wf(),
    ensures
        (Tables { time_entries: t.time_entries.filter(keep), ..t }).wf(),
{
    let after = t.time_entries.filter(keep);
    let at = filter_positions(t.time_entries, keep);
    lemma_filter_keys_unique(t.time_entries, keep);
    assert forall|i: int| 0 <= i < after.len() implies entry_valid(#[trigger] after[i]) by {
        assert(entry_valid(t.time_entries[at[i]]));
    }
    assert forall|i: int| 0 <= i < after.len() implies has_key(
        t.projects,
        (#[trigger] after[i]).project_id@,
    ) by {
        assert(has_key(t.projects, t.time_entries[at[i]].project_id@));
    }
    assert forall|i: int, j: int|
        0 <= i < j < after.len() && (#[trigger] after[i]).is_running() && (
        #[trigger] after[j]).is_running() implies after[i].project_id@ != after[j].project_id@ by {
        assert(at[i] < at[j]);
        assert(t.time_entries[at[i]].is_running() && t.time_entries[at[j]].is_running());
    }
    assert forall|i: int| 0 <= i < after.len() implies ((#[trigger] after[i]).invoice_id matches Some(
        w,
    ) ==> entry_matches_invoice(after[i], w@, t.projects, t.invoices)) by {
        assert(after[i] == t.time_entries[at[i]]);
    }
}

/// Taking a project out together with its time entries leaves consistent
/// tables.
pub proof fn lemma_without_project(t: Tables, id: Seq<char>)
    requires
        t.wf(),
    ensures
        without_project(t, id).wf(),
{
    let after = without_project(t, id);
    lemma_without_entries(t, entries_outside(id));
    let entries_at = filter_positions(t.time_entries, entries_outside(id));
    let projects_at = filter_positions(t.projects, all_but(id));
    lemma_filter_keys_unique(t.projects, all_but(id));
    assert forall|i: int| 0 <= i < after.projects.len() implies project_valid(
        #[trigger] after.projects[i],
    ) by {
        assert(project_valid(t.projects[projects_at[i]]));
    }
    assert forall|i: int| 0 <= i < after.projects.len() implies ((
    #[trigger] after.projects[i]).client_id matches Some(c) ==> has_key(t.clients, c@)) by {
        assert(after.projects[i] == t.projects[projects_at[i]]);
    }
    assert forall|i: int| 0 <= i < after.time_entries.len() implies has_key(
        after.projects,
        (#[trigger] after.time_entries[i]).project_id@,
    ) by {
        let e = t.time_entries[entries_at[i]];
        assert(entries_outside(id)(e));
        assert(has_key(t.projects, e.project_id@));
        let k = position_of(t.projects, e.project_id@);
        lemma_filter_keeps_key(t.projects, all_but(id), k);
    }
    assert forall|i: int| 0 <= i < after.time_entries.len() implies ((
    #[trigger] after.time_entries[i]).invoice_id matches Some(w) ==> entry_matches_invoice(
        after.time_entries[i],
        w@,
        after.projects,
        t.invoices,
    )) by {
        let e = t.time_entries[entries_at[i]];
        assert(after.time_entries[i] == e);
        assert(entries_outside(id)(e));
        if let Some(w) = e.invoice_id {
            assert(entry_matches_invoice(e, w@, t.projects, t.invoices));
            let (a, b) = choose|a: int, b: int|
                0 <= a < t.projects.len() && 0 <= b < t.invoices.len() && (
                #[trigger] t.projects[a]).id@ == e.project_id@ && (#[trigger] t.invoices[b]).id@
                    == w@ && project_is_of(t.projects[a], t.invoices[b].client_id@);
            assert(all_but::<Project>(id)(t.projects[a]));
            t.projects.lemma_filter_contains(all_but(id), a);
            let m = choose|m: int| 0 <= m < after.projects.len() && after.projects[m] == t.projects[a];
            assert(after.projects[m].id@ == e.project_id@ && t.invoices[b].id@ == w@
                && project_is_of(after.projects[m], t.invoices[b].client_id@));
        }
    }
}

/// Taking an invoice out together with its line items leaves consistent
/// tables, where no time entry is billed against it.
pub proof fn lemma_without_invoice(t: Tables, id: Seq<char>)
    requires
        t.wf(),
        !some_row(t.time_entries, entries_billed_against(id)),
    ensures
        without_invoice(t, id).wf(),
{
    let after = without_invoice(t, id);
    let invoices_at = filter_positions(t.invoices, all_but(id));
    let lines_at = filter_positions(t.line_items, lines_outside(id));
    lemma_filter_keys_unique(t.invoices, all_but(id));
    lemma_filter_keys_unique(t.line_items, lines_outside(id));
    assert forall|i: int| 0 <= i < after.invoices.len() implies invoice_valid(
        #[trigger] after.invoices[i],
    ) by {
        assert(invoice_valid(t.invoices[invoices_at[i]]));
    }
    assert forall|i: int| 0 <= i < after.line_items.len() implies line_item_valid(
        #[trigger] after.line_items[i],
    ) by {
        assert(line_item_valid(t.line_items[lines_at[i]]));
    }
    assert forall|i: int| 0 <= i < after.invoices.len() implies has_key(
        t.clients,
        (#[trigger] after.invoices[i]).client_id@,
    ) by {
        assert(has_key(t.clients, t.invoices[invoices_at[i]].client_id@));
    }
    assert forall|i: int| 0 <= i < after.line_items.len() implies has_key(
        after.invoices,
        (#[trigger] after.line_items[i]).invoice_id@,
    ) by {
        let l = t.line_items[lines_at[i]];
        assert(lines_outside(id)(l));
        assert(has_key(t.invoices, l.invoice_id@));
        let k = position_of(t.invoices, l.invoice_id@);
        lemma_filter_keeps_key(t.invoices, all_but(id), k);
    }
    assert forall|i: int, j: int|
        0 <= i < j < after.invoices.len() && (#[trigger] after.invoices[i]).client_id@ == (
        #[trigger] after.invoices[j]).client_id@ implies after.invoices[i].invoice_number@
        != after.invoices[j].invoice_number@ by {
        assert(invoices_at[i] < invoices_at[j]);
        assert(t.invoices[invoices_at[i]].client_id@ == t.invoices[invoices_at[j]].client_id@);
    }
    assert forall|i: int| 0 <= i < t.time_entries.len() implies ((
    #[trigger] t.time_entries[i]).invoice_id matches Some(w) ==> entry_matches_invoice(
        t.time_entries[i],
        w@,
        t.projects,
        after.invoices,
    )) by {
        let e = t.time_entries[i];
        if let Some(w) = e.invoice_id {
            assert(!entries_billed_against(id)(e));
            assert(entry_matches_invoice(e, w@, t.projects, t.invoices));
            let (a, b) = choose|a: int, b: int|
                0 <= a < t.projects.len() && 0 <= b < t.invoices.len() && (
                #[trigger] t.projects[a]).id@ == e.project_id@ && (#[trigger] t.invoices[b]).id@
                    == w@ && project_is_of(t.projects[a], t.invoices[b].client_id@);
            assert(all_but::<Invoice>(id)(t.invoices[b]));
            t.invoices.lemma_filter_contains(all_but(id), b);
            let n = choose|n: int| 0 <= n < after.invoices.len() && after.invoices[n] == t.invoices[b];
            assert(t.projects[a].id@ == e.project_id@ && after.invoices[n].id@ == w@
                && project_is_of(t.projects[a], after.invoices[n].client_id@));
        }
    }
}

} // verus!
