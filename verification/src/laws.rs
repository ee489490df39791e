//! What holds of the repository across several operations.

use vstd::prelude::*;
use crate::consistency::{lemma_add_entry, lemma_replace_entry, lemma_without_client};
use crate::error::StoreError;
use crate::filtering::{filter_positions, lemma_filter_keeps_key, lemma_filter_key_origin};
use crate::model::{Client, InvoiceStatus, TimeEntry};
use crate::rules::{
    create_time_entry_refusal, mark_entries_billed_refusal, set_invoice_status_refusal,
    stop_time_entry_refusal,
};
use crate::tables::{
    entry_valid, started_entry, with_entry,
    all_but, client_has_dependents, has_key, has_running_entry, invoices_of_others, lemma_position,
    lemma_row_at, lemma_update_keys, may_bill, position_of, project_is_of, projects_of_others,
    row_of, Tables, with_entries_billed, with_entry_stopped, without_client,
};

verus! {

/// While an entry of a project is running, a further entry for that project
/// is refused with `Conflict`, whatever id it comes under.
pub proof fn law_running_entry_blocks_the_project(t: Tables, id: Seq<char>, next_id: Seq<char>)
    requires
        t.wf(),
        has_key(t.time_entries, id),
        row_of(t.time_entries, id).is_running(),
    ensures
        create_time_entry_refusal(t, next_id, row_of(t.time_entries, id).project_id@) == Some(
            StoreError::Conflict,
        ),
{
    let at = position_of(t.time_entries, id);
    lemma_position(t.time_entries, id);
    assert(has_key(t.projects, t.time_entries[at].project_id@));
    assert(t.time_entries[at].project_id@ == row_of(t.time_entries, id).project_id@
        && t.time_entries[at].is_running());
}

/// Once the running entry of a project is stopped, the project has no
/// running entry, and a new entry for it is accepted exactly under the ids
/// that no entry has; under a taken id it is refused for the id alone. The
/// accepted entry is another one than the stopped one, it is running, and it
/// is the only running entry of the project; the tables stay consistent.
pub proof fn law_stopping_frees_the_project(
    t: Tables,
    id: Seq<char>,
    end_time: u64,
    next_id: String,
    project_id: String,
    start_time: u64,
    is_billable: bool,
    now: u64,
)
    requires
        t.wf(),
        stop_time_entry_refusal(t, id, end_time) is None,
        project_id@ == row_of(t.time_entries, id).project_id@,
    ensures
        !has_running_entry(with_entry_stopped(t, id, end_time).time_entries, project_id@),
        create_time_entry_refusal(with_entry_stopped(t, id, end_time), next_id@, project_id@)
            == if has_key(t.time_entries, next_id@) {
            Some(StoreError::Conflict)
        } else {
            None
        },
        !has_key(t.time_entries, next_id@) ==> next_id@ != id && ({
            let next = started_entry(next_id, project_id, start_time, is_billable, now);
            let after = with_entry(with_entry_stopped(t, id, end_time), next);
            &&& after.wf()
            &&& after.time_entries.last() == next
            &&& next.is_running()
            &&& forall|i: int|
                0 <= i < after.time_entries.len() && (#[trigger] after.time_entries[i]).project_id@
                    == project_id@ && after.time_entries[i].is_running() ==> i
                    == after.time_entries.len() - 1
        }),
{
    let at = position_of(t.time_entries, id);
    let running = t.time_entries[at];
    let stopped = TimeEntry { end_time: Some(end_time), ..running };
    let freed = with_entry_stopped(t, id, end_time);
    let next = started_entry(next_id, project_id, start_time, is_billable, now);
    let after = with_entry(freed, next);
    lemma_position(t.time_entries, id);
    assert(has_key(t.projects, running.project_id@));
    assert(entry_valid(running));
    lemma_update_keys(t.time_entries, at, stopped);
    lemma_replace_entry(t, at, stopped);
    if has_running_entry(freed.time_entries, project_id@) {
        let other = choose|i: int|
            0 <= i < freed.time_entries.len() && (#[trigger] freed.time_entries[i]).project_id@
                == project_id@ && freed.time_entries[i].is_running();
        assert(other != at);
        assert(freed.time_entries[other] == t.time_entries[other]);
        if other < at {
            assert(t.time_entries[other].project_id@ != t.time_entries[at].project_id@);
        } else {
            assert(t.time_entries[at].project_id@ != t.time_entries[other].project_id@);
        }
    }
    if !has_key(t.time_entries, next_id@) {
        lemma_add_entry(freed, next);
    }
    assert forall|i: int|
        0 <= i < after.time_entries.len() && (#[trigger] after.time_entries[i]).project_id@
            == project_id@ && after.time_entries[i].is_running() implies i
        == after.time_entries.len() - 1 by {
        if i < after.time_entries.len() - 1 {
            assert(after.time_entries[after.time_entries.len() - 1].is_running());
        }
    }
}

/// A paid or void invoice refuses every change of status.
pub proof fn law_final_invoices_stay(t: Tables, id: Seq<char>, next: InvoiceStatus)
    requires
        t.wf(),
        has_key(t.invoices, id),
        row_of(t.invoices, id).status.is_final(),
    ensures
        set_invoice_status_refusal(t, id, next) == Some(StoreError::InvalidState),
{
}

/// Stopping an entry changes nothing about how it is billed.
pub proof fn law_stopping_keeps_billing(t: Tables, id: Seq<char>, end_time: u64, i: int)
    requires
        t.wf(),
        stop_time_entry_refusal(t, id, end_time) is None,
        0 <= i < t.time_entries.len(),
    ensures
        with_entry_stopped(t, id, end_time).time_entries[i].billing_state_of()
            == t.time_entries[i].billing_state_of(),
        with_entry_stopped(t, id, end_time).time_entries[i].invoice_id
            == t.time_entries[i].invoice_id,
{
    lemma_position(t.time_entries, id);
}

/// Once a batch is billed, every entry it names is billed, and every entry
/// that was billed before stands exactly as it stood.
pub proof fn law_billing_marks_the_batch_only(
    t: Tables,
    ids: Seq<Seq<char>>,
    invoice_id: Seq<char>,
    i: int,
)
    requires
        t.wf(),
        mark_entries_billed_refusal(t, ids, invoice_id) is None,
        0 <= i < t.time_entries.len(),
    ensures
        ids.contains(t.time_entries[i].id@) ==> with_entries_billed(
            t,
            ids,
            invoice_id,
        ).time_entries[i].is_billed,
        !ids.contains(t.time_entries[i].id@) ==> with_entries_billed(
            t,
            ids,
            invoice_id,
        ).time_entries[i] == t.time_entries[i],
        t.time_entries[i].is_billed ==> with_entries_billed(t, ids, invoice_id).time_entries[i]
            == t.time_entries[i],
{
    let e = t.time_entries[i];
    if ids.contains(e.id@) {
        let k = choose|k: int| 0 <= k < ids.len() && ids[k] == e.id@;
        assert(may_bill(t, ids[k], invoice_id));
        lemma_row_at(t.time_entries, i);
    }
}

/// After a client is deleted, nothing of it is left: no client under its id,
/// no project and no invoice of it. Every other client is still there.
pub proof fn law_deleted_client_leaves_nothing(t: Tables, id: Seq<char>, other: int)
    requires
        t.wf(),
        0 <= other < t.clients.len(),
    ensures
        without_client(t, id).wf(),
        !has_key(without_client(t, id).clients, id),
        !client_has_dependents(without_client(t, id), id),
        t.clients[other].id@ != id ==> has_key(without_client(t, id).clients, t.clients[other].id@),
{
    let after = without_client(t, id);
    lemma_without_client(t, id);
    if has_key(after.clients, id) {
        let a = lemma_filter_key_origin(t.clients, all_but::<Client>(id), id);
        assert(all_but::<Client>(id)(t.clients[a]));
    }
    let projects_at = filter_positions(t.projects, projects_of_others(id));
    let invoices_at = filter_positions(t.invoices, invoices_of_others(id));
    assert forall|i: int| 0 <= i < after.projects.len() implies !project_is_of(
        #[trigger] after.projects[i],
        id,
    ) by {
        assert(projects_of_others(id)(t.projects[projects_at[i]]));
    }
    assert forall|i: int| 0 <= i < after.invoices.len() implies (
    #[trigger] after.invoices[i]).client_id@ != id by {
        assert(invoices_of_others(id)(t.invoices[invoices_at[i]]));
    }
    if t.clients[other].id@ != id {
        lemma_filter_keeps_key(t.clients, all_but::<Client>(id), other);
    }
}

} // verus!
