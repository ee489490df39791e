//! The repository: typed operations over the tables that keep them
//! consistent. Every operation either takes full effect or leaves the store
//! exactly as it was.

use vstd::prelude::*;
use crate::billing::{
    add_tax, compute_line_total, compute_worked_seconds, InvoiceTotal, lemma_sum_of_lines_push,
    MAX_QUANTITY, MAX_TAX_RATE, MAX_UNIT_PRICE, sum_of_lines, total_of, worked_seconds,
};
use crate::consistency::{
    lemma_add_client, lemma_add_entry, lemma_add_invoice, lemma_add_line_item, lemma_add_project,
    lemma_own_number_free, lemma_replace_client, lemma_replace_entry, lemma_replace_invoice,
    lemma_replace_line_item, lemma_replace_project, lemma_with_setting, lemma_without_client,
    lemma_without_entries, lemma_without_invoice, lemma_without_line_item, lemma_without_project,
};
use crate::error::StoreError;
use crate::filtering::{any_row, copy_rows, select};
use crate::model::{
    Client, Invoice, InvoiceLineItem, InvoiceStatus, Keyed, Project, ProjectStatus, Setting,
    TimeEntry,
};
use crate::rules::{
    add_line_item_refusal, create_client_refusal, create_invoice_refusal, create_project_refusal,
    create_time_entry_refusal, delete_client_refusal, delete_invoice_refusal,
    delete_project_refusal, entry_change_refusal, mark_entries_billed_refusal,
    set_invoice_status_refusal, stop_time_entry_refusal, update_client_refusal,
    update_invoice_refusal, update_line_item_refusal, update_project_refusal,
};
use crate::tables::{
    started_entry, with_entry,
    all_but, billed, billed_entries_of, dates_in_order, entries_between, entries_billed,
    entries_billed_against, entries_of, entries_of_client, entries_outside, entries_within,
    entry_matches_invoice, entry_valid, has_key, has_running_entry, invoice_valid, invoices_of,
    invoices_of_others, keys_unique, lemma_row_at, lemma_same_key, line_item_valid, lines_in,
    lines_of, lines_outside, lines_within, may_bill, number_taken, number_taken_elsewhere,
    position_of, project_is_of, project_valid, projects_of, projects_of_others, row_of, Tables,
    texts, with_entries_billed, with_entry_stopped, with_setting, without_client, without_entry,
    without_invoice, without_line_item, without_project,
};
use crate::text::{holds_text, is_blank, same_optional, same_optional_text, same_text};

verus! {

/// The store: six tables behind operations that keep them consistent.
pub struct Store {
    clients: Vec<Client>,
    projects: Vec<Project>,
    time_entries: Vec<TimeEntry>,
    invoices: Vec<Invoice>,
    line_items: Vec<InvoiceLineItem>,
    settings: Vec<Setting>,
}

impl View for Store {
    type V = Tables;

    closed spec fn view(&self) -> Tables {
        Tables {
            clients: self.clients@,
            projects: self.projects@,
            time_entries: self.time_entries@,
            invoices: self.invoices@,
            line_items: self.line_items@,
            settings: self.settings@,
        }
    }
}

/// The position of the row with the given key, if there is one.
fn find<T: Keyed>(rows: &Vec<T>, key: &str) -> (r: Option<usize>)
    ensures
        r is Some <==> has_key(rows@, key@),
        r matches Some(i) ==> i < rows.len() && rows@[i as int].key() == key@,
        keys_unique(rows@) ==> (r matches Some(i) ==> i == position_of(rows@, key@)),
{
    let mut i: usize = 0;
    while i < rows.len()
        invariant
            i <= rows.len(),
            forall|j: int| 0 <= j < i ==> (#[trigger] rows@[j]).key() != key@,
        decreases rows.len() - i,
    {
        if same_text(rows[i].key_text(), key) {
            proof {
                if keys_unique(rows@) {
                    lemma_row_at(rows@, i as int);
                }
            }
            return Some(i);
        }
        i += 1;
    }
    None
}

/// Whether the list holds the text.
fn contains_text(list: &Vec<String>, t: &str) -> (r: bool)
    ensures
        r == texts(list@).contains(t@),
{
    let mut i: usize = 0;
    while i < list.len()
        invariant
            i <= list.len(),
            forall|j: int| 0 <= j < i ==> (#[trigger] texts(list@)[j]) != t@,
        decreases list.len() - i,
    {
        if same_text(list[i].as_str(), t) {
            assert(texts(list@)[i as int] == t@);
            return true;
        }
        i += 1;
    }
    false
}

/// The row with the given key, if there is one.
fn get<T: Keyed>(rows: &Vec<T>, key: &str) -> (r: Option<T>)
    requires
        keys_unique(rows@),
    ensures
        r is Some <==> has_key(rows@, key@),
        r matches Some(row) ==> row == row_of(rows@, key@),
{
    match find(rows, key) {
        Some(i) => Some(rows[i].copy_row()),
        None => None,
    }
}

/// Whether another invoice of the client than the one at `at` has the number.
fn find_number_elsewhere(invoices: &Vec<Invoice>, at: usize, client_id: &str, number: &str) -> (taken:
    bool)
    ensures
        taken == number_taken_elsewhere(invoices@, at as int, client_id@, number@),
{
    let mut i: usize = 0;
    while i < invoices.len()
        invariant
            i <= invoices.len(),
            forall|j: int|
                0 <= j < i && j != at ==> !((#[trigger] invoices@[j]).client_id@ == client_id@
                    && invoices@[j].invoice_number@ == number@),
        decreases invoices.len() - i,
    {
        if i != at && same_text(invoices[i].client_id.as_str(), client_id) && same_text(
            invoices[i].invoice_number.as_str(),
            number,
        ) {
            return true;
        }
        i += 1;
    }
    false
}

/// Whether the dates are in order: not due before issued.
fn check_dates(issue_date: Option<u64>, due_date: Option<u64>) -> (ok: bool)
    ensures
        ok == dates_in_order(issue_date, due_date),
{
    match (issue_date, due_date) {
        (Some(issued), Some(due)) => due >= issued,
        _ => true,
    }
}

/// Whether the client already has an invoice with this number.
fn find_number(invoices: &Vec<Invoice>, client_id: &str, number: &str) -> (taken: bool)
    ensures
        taken == number_taken(invoices@, client_id@, number@),
{
    let mut i: usize = 0;
    while i < invoices.len()
        invariant
            i <= invoices.len(),
            forall|j: int|
                0 <= j < i ==> !((#[trigger] invoices@[j]).client_id@ == client_id@
                    && invoices@[j].invoice_number@ == number@),
        decreases invoices.len() - i,
    {
        if same_text(invoices[i].client_id.as_str(), client_id) && same_text(
            invoices[i].invoice_number.as_str(),
            number,
        ) {
            return true;
        }
        i += 1;
    }
    false
}

/// The position of a running entry of the project, if it has one.
fn find_running(entries: &Vec<TimeEntry>, project_id: &str) -> (r: Option<usize>)
    ensures
        r is Some <==> has_running_entry(entries@, project_id@),
        r matches Some(i) ==> i < entries.len() && entries@[i as int].project_id@ == project_id@
            && entries@[i as int].is_running(),
{
    let mut i: usize = 0;
    while i < entries.len()
        invariant
            i <= entries.len(),
            forall|j: int|
                0 <= j < i ==> !((#[trigger] entries@[j]).project_id@ == project_id@
                    && entries@[j].is_running()),
        decreases entries.len() - i,
    {
        if entries[i].end_time.is_none() && same_text(entries[i].project_id.as_str(), project_id) {
            return Some(i);
        }
        i += 1;
    }
    None
}

impl Store {
    /// The tables are consistent.
    pub open spec fn wf(&self) -> bool {
        self@.wf()
    }

    /// An empty store.
    pub fn new() -> (s: Store)
        ensures
            s@ == Tables::empty(),
            s.wf(),
    {
        Store {
            clients: Vec::new(),
            projects: Vec::new(),
            time_entries: Vec::new(),
            invoices: Vec::new(),
            line_items: Vec::new(),
            settings: Vec::new(),
        }
    }

    /// Adds a client under the id that the draft carries and stamps it with
    /// `now`. Fails with `InvalidArgument` where the name is empty and with
    /// `Conflict` where the id is taken.
    pub fn create_client(&mut self, draft: Client, now: u64) -> (r: Result<String, StoreError>)
        requires
            old(self).wf(),
        ensures
            final(self).wf(),
            match r {
                Ok(id) => {
                    &&& create_client_refusal(old(self)@, draft) is None
                    &&& id == draft.id
                    &&& final(self)@ == (Tables {
                        clients: old(self)@.clients.push(
                            Client { created_at: now, updated_at: now, ..draft },
                        ),
                        ..old(self)@
                    })
                },
                Err(e) => {
                    &&& create_client_refusal(old(self)@, draft) == Some(e)
                    &&& final(self)@ == old(self)@
                },
            },
    {
        if is_blank(draft.name.as_str()) {
            return Err(StoreError::InvalidArgument);
        }
        if find(&self.clients, draft.id.as_str()).is_some() {
            return Err(StoreError::Conflict);
        }
        let id = draft.id.clone();
        let row = Client { created_at: now, updated_at: now, ..draft };
        proof {
            lemma_add_client(self@, row);
        }
        self.clients.push(row);
        Ok(id)
    }

    /// The client with the given id.
    pub fn get_client(&self, id: &str) -> (r: Option<Client>)
        requires
            self.wf(),
        ensures
            r is Some <==> has_key(self@.clients, id@),
            r matches Some(row) ==> row == row_of(self@.clients, id@),
    {
        get(&self.clients, id)
    }

    /// Every client, in stored order.
    pub fn list_clients(&self) -> (list: Vec<Client>)
        ensures
            list@ == self@.clients,
    {
        copy_rows(&self.clients)
    }

    /// Replaces the values of the client that has the id of `row`, keeps the
    /// time of its creation and stamps the change with `now`. Fails with
    /// `InvalidArgument` where the name is empty and with `NotFound` where the
    /// client does not exist.
    pub fn update_client(&mut self, row: Client, now: u64) -> (r: Result<(), StoreError>)
        requires
            old(self).wf(),
        ensures
            final(self).wf(),
            match r {
                Ok(_) => {
                    let at = position_of(old(self)@.clients, row.id@);
                    &&& update_client_refusal(old(self)@, row) is None
                    &&& final(self)@ == (Tables {
                        clients: old(self)@.clients.update(
                            at,
                            Client {
                                created_at: old(self)@.clients[at].created_at,
                                updated_at: now,
                                ..row
                            },
                        ),
                        ..old(self)@
                    })
                },
                Err(e) => {
                    &&& update_client_refusal(old(self)@, row) == Some(e)
                    &&& final(self)@ == old(self)@
                },
            },
    {
        if is_blank(row.name.as_str()) {
            return Err(StoreError::InvalidArgument);
        }
        let i = match find(&self.clients, row.id.as_str()) {
            Some(i) => i,
            None => {
                return Err(StoreError::NotFound);
            },
        };
        let created_at = self.clients[i].created_at;
        let next = Client { created_at, updated_at: now, ..row };
        proof {
            lemma_replace_client(self@, i as int, next);
        }
        self.clients[i] = next;
        Ok(())
    }

    /// Deletes a client.
    ///
    /// Fails with `NotFound` where the client does not exist. Without
    /// `cascade` it fails with `Conflict` where the client still has a project
    /// or an invoice, and every row stays. Otherwise the client goes, and with
    /// it all that hangs on it: its projects and their time entries, its
    /// invoices and their line items. The rows of other clients stay as they
    /// are.
    pub fn delete_client(&mut self, id: &str, cascade: bool) -> (r: Result<(), StoreError>)
        requires
            old(self).wf(),
        ensures
            final(self).wf(),
            match r {
                Ok(_) => {
                    &&& delete_client_refusal(old(self)@, id@, cascade) is None
                    &&& final(self)@ == without_client(old(self)@, id@)
                },
                Err(e) => {
                    &&& delete_client_refusal(old(self)@, id@, cascade) == Some(e)
                    &&& final(self)@ == old(self)@
                },
            },
    {
        if find(&self.clients, id).is_none() {
            return Err(StoreError::NotFound);
        }
        if !cascade {
            let is_project_of = |p: &Project| -> (b: bool)
                ensures
                    b == projects_of(id@)(*p),
                { holds_text(&p.client_id, id) };
            let is_invoice_of = |v: &Invoice| -> (b: bool)
                ensures
                    b == invoices_of(id@)(*v),
                { same_text(v.client_id.as_str(), id) };
            if any_row(&self.projects, is_project_of, Ghost(projects_of(id@))) || any_row(
                &self.invoices,
                is_invoice_of,
                Ghost(invoices_of(id@)),
            ) {
                return Err(StoreError::Conflict);
            }
        }
        let is_other = |c: &Client| -> (b: bool)
            ensures
                b == all_but::<Client>(id@)(*c),
            { !same_text(c.id.as_str(), id) };
        let clients = select(&self.clients, is_other, Ghost(all_but::<Client>(id@)));
        let project_stays = |p: &Project| -> (b: bool)
            ensures
                b == projects_of_others(id@)(*p),
            { !holds_text(&p.client_id, id) };
        let projects = select(&self.projects, project_stays, Ghost(projects_of_others(id@)));
        let invoice_stays = |v: &Invoice| -> (b: bool)
            ensures
                b == invoices_of_others(id@)(*v),
            { !same_text(v.client_id.as_str(), id) };
        let invoices = select(&self.invoices, invoice_stays, Ghost(invoices_of_others(id@)));
        let entry_stays = |e: &TimeEntry| -> (b: bool)
            ensures
                b == entries_within(projects@)(*e),
            { find(&projects, e.project_id.as_str()).is_some() };
        let time_entries = select(&self.time_entries, entry_stays, Ghost(entries_within(projects@)));
        let line_stays = |l: &InvoiceLineItem| -> (b: bool)
            ensures
                b == lines_within(invoices@)(*l),
            { find(&invoices, l.invoice_id.as_str()).is_some() };
        let line_items = select(&self.line_items, line_stays, Ghost(lines_within(invoices@)));
        proof {
            lemma_without_client(self@, id@);
        }
        self.clients = clients;
        self.projects = projects;
        self.time_entries = time_entries;
        self.invoices = invoices;
        self.line_items = line_items;
        Ok(())
    }

    /// Adds a project under the id that the draft carries and stamps it with
    /// `now`. Fails with `InvalidArgument` where the name is empty, with
    /// `NotFound` where the draft names a client that does not exist, and with
    /// `Conflict` where the id is taken.
    pub fn create_project(&mut self, draft: Project, now: u64) -> (r: Result<String, StoreError>)
        requires
            old(self).wf(),
        ensures
            final(self).wf(),
            match r {
                Ok(id) => {
                    &&& create_project_refusal(old(self)@, draft) is None
                    &&& id == draft.id
                    &&& final(self)@ == (Tables {
                        projects: old(self)@.projects.push(
                            Project { created_at: now, updated_at: now, ..draft },
                        ),
                        ..old(self)@
                    })
                },
                Err(e) => {
                    &&& create_project_refusal(old(self)@, draft) == Some(e)
                    &&& final(self)@ == old(self)@
                },
            },
    {
        if is_blank(draft.name.as_str()) {
            return Err(StoreError::InvalidArgument);
        }
        match &draft.client_id {
            Some(c) => {
                if find(&self.clients, c.as_str()).is_none() {
                    return Err(StoreError::NotFound);
                }
            },
            None => {},
        }
        if find(&self.projects, draft.id.as_str()).is_some() {
            return Err(StoreError::Conflict);
        }
        let id = draft.id.clone();
        let row = Project { created_at: now, updated_at: now, ..draft };
        proof {
            lemma_add_project(self@, row);
        }
        self.projects.push(row);
        Ok(id)
    }

    /// The project with the given id.
    pub fn get_project(&self, id: &str) -> (r: Option<Project>)
        requires
            self.wf(),
        ensures
            r is Some <==> has_key(self@.projects, id@),
            r matches Some(row) ==> row == row_of(self@.projects, id@),
    {
        get(&self.projects, id)
    }

    /// The projects of a client, in stored order.
    pub fn list_projects_by_client(&self, client_id: &str) -> (list: Vec<Project>)
        ensures
            list@ == self@.projects.filter(projects_of(client_id@)),
    {
        let wanted = |p: &Project| -> (b: bool)
            ensures
                b == projects_of(client_id@)(*p),
            { holds_text(&p.client_id, client_id) };
        select(&self.projects, wanted, Ghost(projects_of(client_id@)))
    }

    /// Replaces the values of the project that has the id of `row`, keeps the
    /// time of its creation and stamps the change with `now`. Fails with
    /// `InvalidArgument` where the name is empty; with `NotFound` where the
    /// project, or the client that `row` names, does not exist; and with
    /// `Conflict` where the client would change although an entry of the
    /// project is billed.
    pub fn update_project(&mut self, row: Project, now: u64) -> (r: Result<(), StoreError>)
        requires
            old(self).wf(),
        ensures
            final(self).wf(),
            match r {
                Ok(_) => {
                    let at = position_of(old(self)@.projects, row.id@);
                    &&& update_project_refusal(old(self)@, row) is None
                    &&& final(self)@ == (Tables {
                        projects: old(self)@.projects.update(
                            at,
                            Project {
                                created_at: old(self)@.projects[at].created_at,
                                updated_at: now,
                                ..row
                            },
                        ),
                        ..old(self)@
                    })
                },
                Err(e) => {
                    &&& update_project_refusal(old(self)@, row) == Some(e)
                    &&& final(self)@ == old(self)@
                },
            },
    {
        if is_blank(row.name.as_str()) {
            return Err(StoreError::InvalidArgument);
        }
        let i = match find(&self.projects, row.id.as_str()) {
            Some(i) => i,
            None => {
                return Err(StoreError::NotFound);
            },
        };
        match &row.client_id {
            Some(c) => {
                if find(&self.clients, c.as_str()).is_none() {
                    return Err(StoreError::NotFound);
                }
            },
            None => {},
        }
        if !same_optional_text(&row.client_id, &self.projects[i].client_id) {
            let id = row.id.as_str();
            let billed_here = |e: &TimeEntry| -> (b: bool)
                ensures
                    b == billed_entries_of(id@)(*e),
                { e.is_billed && same_text(e.project_id.as_str(), id) };
            if any_row(&self.time_entries, billed_here, Ghost(billed_entries_of(id@))) {
                return Err(StoreError::Conflict);
            }
        }
        let created_at = self.projects[i].created_at;
        let next = Project { created_at, updated_at: now, ..row };
        proof {
            lemma_replace_project(self@, i as int, next);
        }
        self.projects[i] = next;
        Ok(())
    }

    /// Gives a project a new status and stamps the change with `now`. Fails
    /// with `NotFound` where the project does not exist.
    pub fn set_project_status(&mut self, id: &str, status: ProjectStatus, now: u64) -> (r: Result<
        (),
        StoreError,
    >)
        requires
            old(self).wf(),
        ensures
            final(self).wf(),
            match r {
                Ok(_) => {
                    let at = position_of(old(self)@.projects, id@);
                    &&& has_key(old(self)@.projects, id@)
                    &&& final(self)@ == (Tables {
                        projects: old(self)@.projects.update(
                            at,
                            Project { status, updated_at: now, ..old(self)@.projects[at] },
                        ),
                        ..old(self)@
                    })
                },
                Err(e) => {
                    &&& e == StoreError::NotFound
                    &&& !has_key(old(self)@.projects, id@)
                    &&& final(self)@ == old(self)@
                },
            },
    {
        let i = match find(&self.projects, id) {
            Some(i) => i,
            None => {
                return Err(StoreError::NotFound);
            },
        };
        proof {
            let before = self@.projects[i as int];
            assert(project_valid(before));
            assert(same_optional(before.client_id, before.client_id));
            lemma_replace_project(
                self@,
                i as int,
                Project { status, updated_at: now, ..before },
            );
        }
        self.projects[i].status = status;
        self.projects[i].updated_at = now;
        assert(self@.projects =~= old(self)@.projects.update(
            i as int,
            Project { status, updated_at: now, ..old(self)@.projects[i as int] },
        ));
        Ok(())
    }

    /// Deletes a project.
    ///
    /// Fails with `NotFound` where the project does not exist, and with
    /// `Conflict` where one of its time entries is billed. Without `cascade`
    /// it also fails with `Conflict` where the project has any time entry.
    /// Otherwise the project goes, and its time entries with it.
    pub fn delete_project(&mut self, id: &str, cascade: bool) -> (r: Result<(), StoreError>)
        requires
            old(self).wf(),
        ensures
            final(self).wf(),
            match r {
                Ok(_) => {
                    &&& delete_project_refusal(old(self)@, id@, cascade) is None
                    &&& final(self)@ == without_project(old(self)@, id@)
                },
                Err(e) => {
                    &&& delete_project_refusal(old(self)@, id@, cascade) == Some(e)
                    &&& final(self)@ == old(self)@
                },
            },
    {
        if find(&self.projects, id).is_none() {
            return Err(StoreError::NotFound);
        }
        let billed_here = |e: &TimeEntry| -> (b: bool)
            ensures
                b == billed_entries_of(id@)(*e),
            { e.is_billed && same_text(e.project_id.as_str(), id) };
        if any_row(&self.time_entries, billed_here, Ghost(billed_entries_of(id@))) {
            return Err(StoreError::Conflict);
        }
        if !cascade {
            let is_here = |e: &TimeEntry| -> (b: bool)
                ensures
                    b == entries_of(id@)(*e),
                { same_text(e.project_id.as_str(), id) };
            if any_row(&self.time_entries, is_here, Ghost(entries_of(id@))) {
                return Err(StoreError::Conflict);
            }
        }
        let project_stays = |p: &Project| -> (b: bool)
            ensures
                b == all_but::<Project>(id@)(*p),
            { !same_text(p.id.as_str(), id) };
        let projects = select(&self.projects, project_stays, Ghost(all_but::<Project>(id@)));
        let entry_stays = |e: &TimeEntry| -> (b: bool)
            ensures
                b == entries_outside(id@)(*e),
            { !same_text(e.project_id.as_str(), id) };
        let time_entries = select(&self.time_entries, entry_stays, Ghost(entries_outside(id@)));
        proof {
            lemma_without_project(self@, id@);
        }
        self.projects = projects;
        self.time_entries = time_entries;
        Ok(())
    }

    /// Starts a running time entry for a project. Fails with `NotFound` where
    /// the project does not exist, and with `Conflict` where the project
    /// already has a running entry or the id is taken.
    pub fn create_time_entry(
        &mut self,
        id: String,
        project_id: String,
        start_time: u64,
        is_billable: bool,
        now: u64,
    ) -> (r: Result<String, StoreError>)
        requires
            old(self).wf(),
        ensures
            final(self).wf(),
            match r {
                Ok(new_id) => {
                    &&& create_time_entry_refusal(old(self)@, id@, project_id@) is None
                    &&& new_id == id
                    &&& final(self)@ == with_entry(
                        old(self)@,
                        started_entry(id, project_id, start_time, is_billable, now),
                    )
                },
                Err(e) => {
                    &&& create_time_entry_refusal(old(self)@, id@, project_id@) == Some(e)
                    &&& final(self)@ == old(self)@
                },
            },
    {
        if find(&self.projects, project_id.as_str()).is_none() {
            return Err(StoreError::NotFound);
        }
        if find_running(&self.time_entries, project_id.as_str()).is_some() {
            return Err(StoreError::Conflict);
        }
        if find(&self.time_entries, id.as_str()).is_some() {
            return Err(StoreError::Conflict);
        }
        let new_id = id.clone();
        let row = TimeEntry {
            id,
            project_id,
            start_time,
            end_time: None,
            pause_duration: 0,
            notes: None,
            is_billable,
            is_billed: false,
            invoice_id: None,
            created_at: now,
        };
        proof {
            lemma_add_entry(self@, row);
        }
        self.time_entries.push(row);
        Ok(new_id)
    }

    /// The time entry with the given id.
    pub fn get_time_entry(&self, id: &str) -> (r: Option<TimeEntry>)
        requires
            self.wf(),
        ensures
            r is Some <==> has_key(self@.time_entries, id@),
            r matches Some(row) ==> row == row_of(self@.time_entries, id@),
    {
        get(&self.time_entries, id)
    }

    /// The time entries of a project, in stored order.
    pub fn list_time_entries_by_project(&self, project_id: &str) -> (list: Vec<TimeEntry>)
        ensures
            list@ == self@.time_entries.filter(entries_of(project_id@)),
    {
        let wanted = |e: &TimeEntry| -> (b: bool)
            ensures
                b == entries_of(project_id@)(*e),
            { same_text(e.project_id.as_str(), project_id) };
        select(&self.time_entries, wanted, Ghost(entries_of(project_id@)))
    }

    /// The time entries of all projects of a client, in stored order. Projects
    /// and entries are read from one and the same state of the store.
    pub fn list_time_entries_by_client(&self, client_id: &str) -> (list: Vec<TimeEntry>)
        ensures
            list@ == self@.time_entries.filter(entries_of_client(self@.projects, client_id@)),
    {
        let projects = self.list_projects_by_client(client_id);
        let wanted = |e: &TimeEntry| -> (b: bool)
            ensures
                b == entries_within(projects@)(*e),
            { find(&projects, e.project_id.as_str()).is_some() };
        select(&self.time_entries, wanted, Ghost(entries_within(projects@)))
    }

    /// The time entries that start between `from` and `to`, both included,
    /// in stored order.
    pub fn list_time_entries_between(&self, from: u64, to: u64) -> (list: Vec<TimeEntry>)
        ensures
            list@ == self@.time_entries.filter(entries_between(from, to)),
    {
        let wanted = |e: &TimeEntry| -> (b: bool)
            ensures
                b == entries_between(from, to)(*e),
            { from <= e.start_time && e.start_time <= to };
        select(&self.time_entries, wanted, Ghost(entries_between(from, to)))
    }

    /// The time entries that are billed, or those that are not, in stored
    /// order.
    pub fn list_time_entries_by_billed(&self, is_billed: bool) -> (list: Vec<TimeEntry>)
        ensures
            list@ == self@.time_entries.filter(entries_billed(is_billed)),
    {
        let wanted = |e: &TimeEntry| -> (b: bool)
            ensures
                b == entries_billed(is_billed)(*e),
            { e.is_billed == is_billed };
        select(&self.time_entries, wanted, Ghost(entries_billed(is_billed)))
    }

    /// Sets the seconds of an entry that do not count as worked. Fails with
    /// `NotFound` where the entry does not exist and with `Conflict` where it
    /// is billed: a billed entry never changes again.
    pub fn set_pause_duration(&mut self, id: &str, pause_duration: u64) -> (r: Result<
        (),
        StoreError,
    >)
        requires
            old(self).wf(),
        ensures
            final(self).wf(),
            match r {
                Ok(_) => {
                    let at = position_of(old(self)@.time_entries, id@);
                    &&& entry_change_refusal(old(self)@, id@) is None
                    &&& final(self)@ == (Tables {
                        time_entries: old(self)@.time_entries.update(
                            at,
                            TimeEntry { pause_duration, ..old(self)@.time_entries[at] },
                        ),
                        ..old(self)@
                    })
                },
                Err(e) => {
                    &&& entry_change_refusal(old(self)@, id@) == Some(e)
                    &&& final(self)@ == old(self)@
                },
            },
    {
        let i = match find(&self.time_entries, id) {
            Some(i) => i,
            None => {
                return Err(StoreError::NotFound);
            },
        };
        if self.time_entries[i].is_billed {
            return Err(StoreError::Conflict);
        }
        proof {
            let before = self@.time_entries[i as int];
            assert(entry_valid(before));
            lemma_replace_entry(self@, i as int, TimeEntry { pause_duration, ..before });
        }
        self.time_entries[i].pause_duration = pause_duration;
        Ok(())
    }

    /// Sets the notes of an entry. Fails with `NotFound` where the entry does
    /// not exist and with `Conflict` where it is billed.
    pub fn set_time_entry_notes(&mut self, id: &str, notes: Option<String>) -> (r: Result<
        (),
        StoreError,
    >)
        requires
            old(self).wf(),
        ensures
            final(self).wf(),
            match r {
                Ok(_) => {
                    let at = position_of(old(self)@.time_entries, id@);
                    &&& entry_change_refusal(old(self)@, id@) is None
                    &&& final(self)@ == (Tables {
                        time_entries: old(self)@.time_entries.update(
                            at,
                            TimeEntry { notes, ..old(self)@.time_entries[at] },
                        ),
                        ..old(self)@
                    })
                },
                Err(e) => {
                    &&& entry_change_refusal(old(self)@, id@) == Some(e)
                    &&& final(self)@ == old(self)@
                },
            },
    {
        let i = match find(&self.time_entries, id) {
            Some(i) => i,
            None => {
                return Err(StoreError::NotFound);
            },
        };
        if self.time_entries[i].is_billed {
            return Err(StoreError::Conflict);
        }
        proof {
            let before = self@.time_entries[i as int];
            assert(entry_valid(before));
            lemma_replace_entry(self@, i as int, TimeEntry { notes, ..before });
        }
        self.time_entries[i].notes = notes;
        Ok(())
    }

    /// Stops a running entry and returns the seconds worked: end less start
    /// less pause. Fails with `NotFound` where no entry with that id is
    /// running, and with `InvalidArgument` where `end_time` lies before the
    /// entry's start; the entry then stays running.
    pub fn stop_time_entry(&mut self, id: &str, end_time: u64) -> (r: Result<i128, StoreError>)
        requires
            old(self).wf(),
        ensures
            final(self).wf(),
            match r {
                Ok(seconds) => {
                    let at = position_of(old(self)@.time_entries, id@);
                    let before = old(self)@.time_entries[at];
                    &&& stop_time_entry_refusal(old(self)@, id@, end_time) is None
                    &&& seconds == worked_seconds(
                        before.start_time,
                        end_time,
                        before.pause_duration,
                    )
                    &&& final(self)@ == with_entry_stopped(old(self)@, id@, end_time)
                },
                Err(e) => {
                    &&& stop_time_entry_refusal(old(self)@, id@, end_time) == Some(e)
                    &&& final(self)@ == old(self)@
                },
            },
    {
        let i = match find(&self.time_entries, id) {
            Some(i) => i,
            None => {
                return Err(StoreError::NotFound);
            },
        };
        if self.time_entries[i].end_time.is_some() {
            return Err(StoreError::NotFound);
        }
        if end_time < self.time_entries[i].start_time {
            return Err(StoreError::InvalidArgument);
        }
        let seconds = compute_worked_seconds(
            self.time_entries[i].start_time,
            end_time,
            self.time_entries[i].pause_duration,
        );
        proof {
            let before = self@.time_entries[i as int];
            lemma_replace_entry(self@, i as int, TimeEntry { end_time: Some(end_time), ..before });
        }
        self.time_entries[i].end_time = Some(end_time);
        Ok(seconds)
    }

    /// Whether the entry at `e` is unbilled and its project belongs to the
    /// client of the invoice at `v`.
    fn can_bill(&self, e: usize, v: usize) -> (ok: bool)
        requires
            self.wf(),
            e < self@.time_entries.len(),
            v < self@.invoices.len(),
        ensures
            ok == (!self@.time_entries[e as int].is_billed && entry_matches_invoice(
                self@.time_entries[e as int],
                self@.invoices[v as int].id@,
                self@.projects,
                self@.invoices,
            )),
    {
        let entry = &self.time_entries[e];
        if entry.is_billed {
            return false;
        }
        let ghost want = self@.invoices[v as int].id@;
        match find(&self.projects, entry.project_id.as_str()) {
            Some(p) => {
                let ok = holds_text(&self.projects[p].client_id, self.invoices[v].client_id.as_str());
                proof {
                    if entry_matches_invoice(*entry, want, self@.projects, self@.invoices) {
                        let (a, b) = choose|a: int, b: int|
                            0 <= a < self@.projects.len() && 0 <= b < self@.invoices.len() && (
                            #[trigger] self@.projects[a]).id@ == entry.project_id@ && (
                            #[trigger] self@.invoices[b]).id@ == want && project_is_of(
                                self@.projects[a],
                                self@.invoices[b].client_id@,
                            );
                        lemma_same_key(self@.projects, a, p as int);
                        lemma_same_key(self@.invoices, b, v as int);
                    }
                    if ok {
                        assert(self@.projects[p as int].id@ == entry.project_id@
                            && self@.invoices[v as int].id@ == want && project_is_of(
                            self@.projects[p as int],
                            self@.invoices[v as int].client_id@,
                        ));
                    }
                }
                ok
            },
            None => {
                proof {
                    assert(has_key(self@.projects, self@.time_entries[e as int].project_id@));
                }
                false
            },
        }
    }

    /// Bills a batch of entries against an invoice, all of them or none.
    ///
    /// Fails with `NotFound` where the invoice or one of the entries does not
    /// exist, and with `Conflict` where one of the entries is already billed
    /// or belongs to a project of another client than the invoice's. On any
    /// failure no entry changes. On success every entry named in the batch is
    /// billed and tied to the invoice, and nothing else changes.
    pub fn mark_entries_billed(&mut self, entry_ids: &Vec<String>, invoice_id: &str) -> (r: Result<
        (),
        StoreError,
    >)
        requires
            old(self).wf(),
        ensures
            final(self).wf(),
            match r {
                Ok(_) => {
                    &&& mark_entries_billed_refusal(old(self)@, texts(entry_ids@), invoice_id@)
                        is None
                    &&& final(self)@ == with_entries_billed(
                        old(self)@,
                        texts(entry_ids@),
                        invoice_id@,
                    )
                },
                Err(e) => {
                    &&& mark_entries_billed_refusal(old(self)@, texts(entry_ids@), invoice_id@)
                        == Some(e)
                    &&& final(self)@ == old(self)@
                },
            },
    {
        let ghost ids = texts(entry_ids@);
        let v = match find(&self.invoices, invoice_id) {
            Some(v) => v,
            None => {
                return Err(StoreError::NotFound);
            },
        };
        let mut conflict = false;
        let mut k: usize = 0;
        while k < entry_ids.len()
            invariant
                k <= entry_ids.len(),
                self.wf(),
                *self == *old(self),
                ids == texts(entry_ids@),
                v < self@.invoices.len(),
                self@.invoices[v as int].id@ == invoice_id@,
                forall|j: int| 0 <= j < k ==> has_key(self@.time_entries, #[trigger] ids[j]),
                conflict <==> exists|j: int|
                    0 <= j < k && !may_bill(self@, #[trigger] ids[j], invoice_id@),
            decreases entry_ids.len() - k,
        {
            assert(ids[k as int] == entry_ids@[k as int]@);
            match find(&self.time_entries, entry_ids[k].as_str()) {
                None => {
                    return Err(StoreError::NotFound);
                },
                Some(e) => {
                    if !self.can_bill(e, v) {
                        conflict = true;
                    }
                },
            }
            k += 1;
        }
        if conflict {
            return Err(StoreError::Conflict);
        }
        let ghost invoice = self@.invoices[v as int].id;
        let ghost mark = |e: TimeEntry|
            if ids.contains(e.id@) {
                billed(e, invoice)
            } else {
                e
            };
        let mut i: usize = 0;
        while i < self.time_entries.len()
            invariant
                i <= self.time_entries.len(),
                self.wf(),
                old(self).wf(),
                self@.clients == old(self)@.clients,
                self@.projects == old(self)@.projects,
                self@.invoices == old(self)@.invoices,
                self@.line_items == old(self)@.line_items,
                self@.settings == old(self)@.settings,
                self@.time_entries.len() == old(self)@.time_entries.len(),
                ids == texts(entry_ids@),
                v < self@.invoices.len(),
                invoice == self@.invoices[v as int].id,
                invoice@ == invoice_id@,
                mark == |e: TimeEntry|
                    if ids.contains(e.id@) {
                        billed(e, invoice)
                    } else {
                        e
                    },
                forall|j: int|
                    0 <= j < ids.len() ==> has_key(old(self)@.time_entries, #[trigger] ids[j])
                        && may_bill(old(self)@, ids[j], invoice_id@),
                forall|j: int| 0 <= j < i ==> self@.time_entries[j] == mark(old(self)@.time_entries[j]),
                forall|j: int|
                    i <= j < self@.time_entries.len() ==> self@.time_entries[j] == old(
                        self,
                    )@.time_entries[j],
            decreases self.time_entries.len() - i,
        {
            if contains_text(entry_ids, self.time_entries[i].id.as_str()) {
                let tie = self.invoices[v].id.clone();
                proof {
                    let before = self@.time_entries[i as int];
                    let j = choose|j: int| 0 <= j < ids.len() && ids[j] == before.id@;
                    assert(may_bill(old(self)@, ids[j], invoice_id@));
                    lemma_row_at(old(self)@.time_entries, i as int);
                    assert(entry_valid(before));
                    lemma_replace_entry(self@, i as int, billed(before, tie));
                }
                let ghost entries_before = self@.time_entries;
                self.time_entries[i].is_billed = true;
                self.time_entries[i].invoice_id = Some(tie);
                assert(self@.time_entries =~= entries_before.update(
                    i as int,
                    billed(entries_before[i as int], tie),
                ));
            }
            i += 1;
        }
        assert(self@.time_entries =~= old(self)@.time_entries.map_values(mark));
        proof {
            lemma_row_at(old(self)@.invoices, v as int);
        }
        Ok(())
    }

    /// Deletes a time entry. Fails with `NotFound` where it does not exist and
    /// with `Conflict` where it is billed.
    pub fn delete_time_entry(&mut self, id: &str) -> (r: Result<(), StoreError>)
        requires
            old(self).wf(),
        ensures
            final(self).wf(),
            match r {
                Ok(_) => {
                    &&& entry_change_refusal(old(self)@, id@) is None
                    &&& final(self)@ == without_entry(old(self)@, id@)
                },
                Err(e) => {
                    &&& entry_change_refusal(old(self)@, id@) == Some(e)
                    &&& final(self)@ == old(self)@
                },
            },
    {
        let i = match find(&self.time_entries, id) {
            Some(i) => i,
            None => {
                return Err(StoreError::NotFound);
            },
        };
        if self.time_entries[i].is_billed {
            return Err(StoreError::Conflict);
        }
        let stays = |e: &TimeEntry| -> (b: bool)
            ensures
                b == all_but::<TimeEntry>(id@)(*e),
            { !same_text(e.id.as_str(), id) };
        let time_entries = select(&self.time_entries, stays, Ghost(all_but::<TimeEntry>(id@)));
        proof {
            lemma_without_entries(self@, all_but::<TimeEntry>(id@));
        }
        self.time_entries = time_entries;
        Ok(())
    }

    /// Adds an invoice as a draft under the id that the draft row carries and
    /// stamps it with `now`. Fails with `InvalidArgument` where the number is
    /// empty, the due date lies before the issue date or the tax rate is out
    /// of range; with `NotFound` where the client does not exist; and with
    /// `Conflict` where the id is taken or the client already has an invoice
    /// with that number.
    pub fn create_invoice(&mut self, draft: Invoice, now: u64) -> (r: Result<String, StoreError>)
        requires
            old(self).wf(),
        ensures
            final(self).wf(),
            match r {
                Ok(id) => {
                    &&& create_invoice_refusal(old(self)@, draft) is None
                    &&& id == draft.id
                    &&& final(self)@ == (Tables {
                        invoices: old(self)@.invoices.push(
                            Invoice {
                                status: InvoiceStatus::Draft,
                                created_at: now,
                                updated_at: now,
                                ..draft
                            },
                        ),
                        ..old(self)@
                    })
                },
                Err(e) => {
                    &&& create_invoice_refusal(old(self)@, draft) == Some(e)
                    &&& final(self)@ == old(self)@
                },
            },
    {
        if is_blank(draft.invoice_number.as_str()) || !check_dates(draft.issue_date, draft.due_date)
            || draft.tax_rate > MAX_TAX_RATE {
            return Err(StoreError::InvalidArgument);
        }
        if find(&self.clients, draft.client_id.as_str()).is_none() {
            return Err(StoreError::NotFound);
        }
        if find(&self.invoices, draft.id.as_str()).is_some() {
            return Err(StoreError::Conflict);
        }
        if find_number(&self.invoices, draft.client_id.as_str(), draft.invoice_number.as_str()) {
            return Err(StoreError::Conflict);
        }
        let id = draft.id.clone();
        let row = Invoice {
            status: InvoiceStatus::Draft,
            created_at: now,
            updated_at: now,
            ..draft
        };
        proof {
            lemma_add_invoice(self@, row);
        }
        self.invoices.push(row);
        Ok(id)
    }

    /// The invoice with the given id.
    pub fn get_invoice(&self, id: &str) -> (r: Option<Invoice>)
        requires
            self.wf(),
        ensures
            r is Some <==> has_key(self@.invoices, id@),
            r matches Some(row) ==> row == row_of(self@.invoices, id@),
    {
        get(&self.invoices, id)
    }

    /// The invoices made out to a client, in stored order.
    pub fn list_invoices_by_client(&self, client_id: &str) -> (list: Vec<Invoice>)
        ensures
            list@ == self@.invoices.filter(invoices_of(client_id@)),
    {
        let wanted = |v: &Invoice| -> (b: bool)
            ensures
                b == invoices_of(client_id@)(*v),
            { same_text(v.client_id.as_str(), client_id) };
        select(&self.invoices, wanted, Ghost(invoices_of(client_id@)))
    }

    /// Replaces number, dates, notes and tax rate of the invoice that has the
    /// id of `row` and stamps the change with `now`; status and time of
    /// creation stay. Fails with `InvalidArgument` where the number is empty,
    /// the due date lies before the issue date or the tax rate is out of
    /// range; with `NotFound` where the invoice does not exist; and with
    /// `Conflict` where `row` names another client than the invoice has, or a
    /// number that another invoice of the client has.
    pub fn update_invoice(&mut self, row: Invoice, now: u64) -> (r: Result<(), StoreError>)
        requires
            old(self).wf(),
        ensures
            final(self).wf(),
            match r {
                Ok(_) => {
                    let at = position_of(old(self)@.invoices, row.id@);
                    &&& update_invoice_refusal(old(self)@, row) is None
                    &&& final(self)@ == (Tables {
                        invoices: old(self)@.invoices.update(
                            at,
                            Invoice {
                                status: old(self)@.invoices[at].status,
                                created_at: old(self)@.invoices[at].created_at,
                                updated_at: now,
                                ..row
                            },
                        ),
                        ..old(self)@
                    })
                },
                Err(e) => {
                    &&& update_invoice_refusal(old(self)@, row) == Some(e)
                    &&& final(self)@ == old(self)@
                },
            },
    {
        if is_blank(row.invoice_number.as_str()) || !check_dates(row.issue_date, row.due_date)
            || row.tax_rate > MAX_TAX_RATE {
            return Err(StoreError::InvalidArgument);
        }
        let i = match find(&self.invoices, row.id.as_str()) {
            Some(i) => i,
            None => {
                return Err(StoreError::NotFound);
            },
        };
        if !same_text(row.client_id.as_str(), self.invoices[i].client_id.as_str()) {
            return Err(StoreError::Conflict);
        }
        if find_number_elsewhere(
            &self.invoices,
            i,
            row.client_id.as_str(),
            row.invoice_number.as_str(),
        ) {
            return Err(StoreError::Conflict);
        }
        let status = self.invoices[i].status;
        let created_at = self.invoices[i].created_at;
        let next = Invoice { status, created_at, updated_at: now, ..row };
        proof {
            lemma_replace_invoice(self@, i as int, next);
        }
        self.invoices[i] = next;
        Ok(())
    }

    /// Moves an invoice to the status `next` and stamps the change with
    /// `now`. Fails with `NotFound` where the invoice does not exist and with
    /// `InvalidState` where its status may not become `next`.
    pub fn set_invoice_status(&mut self, id: &str, next: InvoiceStatus, now: u64) -> (r: Result<
        (),
        StoreError,
    >)
        requires
            old(self).wf(),
        ensures
            final(self).wf(),
            match r {
                Ok(_) => {
                    let at = position_of(old(self)@.invoices, id@);
                    &&& set_invoice_status_refusal(old(self)@, id@, next) is None
                    &&& final(self)@ == (Tables {
                        invoices: old(self)@.invoices.update(
                            at,
                            Invoice { status: next, updated_at: now, ..old(self)@.invoices[at] },
                        ),
                        ..old(self)@
                    })
                },
                Err(e) => {
                    &&& set_invoice_status_refusal(old(self)@, id@, next) == Some(e)
                    &&& final(self)@ == old(self)@
                },
            },
    {
        let i = match find(&self.invoices, id) {
            Some(i) => i,
            None => {
                return Err(StoreError::NotFound);
            },
        };
        if !self.invoices[i].status.can_become(next) {
            return Err(StoreError::InvalidState);
        }
        proof {
            let before = self@.invoices[i as int];
            lemma_own_number_free(self@, i as int);
            lemma_replace_invoice(
                self@,
                i as int,
                Invoice { status: next, updated_at: now, ..before },
            );
        }
        self.invoices[i].status = next;
        self.invoices[i].updated_at = now;
        assert(self@.invoices =~= old(self)@.invoices.update(
            i as int,
            Invoice { status: next, updated_at: now, ..old(self)@.invoices[i as int] },
        ));
        Ok(())
    }

    /// Deletes an invoice.
    ///
    /// Fails with `NotFound` where the invoice does not exist, and with
    /// `Conflict` where a time entry is billed against it. Without `cascade`
    /// it also fails with `Conflict` where the invoice has any line item.
    /// Otherwise the invoice goes, and its line items with it.
    pub fn delete_invoice(&mut self, id: &str, cascade: bool) -> (r: Result<(), StoreError>)
        requires
            old(self).wf(),
        ensures
            final(self).wf(),
            match r {
                Ok(_) => {
                    &&& delete_invoice_refusal(old(self)@, id@, cascade) is None
                    &&& final(self)@ == without_invoice(old(self)@, id@)
                },
                Err(e) => {
                    &&& delete_invoice_refusal(old(self)@, id@, cascade) == Some(e)
                    &&& final(self)@ == old(self)@
                },
            },
    {
        if find(&self.invoices, id).is_none() {
            return Err(StoreError::NotFound);
        }
        let billed_against = |e: &TimeEntry| -> (b: bool)
            ensures
                b == entries_billed_against(id@)(*e),
            { holds_text(&e.invoice_id, id) };
        if any_row(&self.time_entries, billed_against, Ghost(entries_billed_against(id@))) {
            return Err(StoreError::Conflict);
        }
        if !cascade {
            let is_here = |l: &InvoiceLineItem| -> (b: bool)
                ensures
                    b == lines_in(id@)(*l),
                { same_text(l.invoice_id.as_str(), id) };
            if any_row(&self.line_items, is_here, Ghost(lines_in(id@))) {
                return Err(StoreError::Conflict);
            }
        }
        let invoice_stays = |v: &Invoice| -> (b: bool)
            ensures
                b == all_but::<Invoice>(id@)(*v),
            { !same_text(v.id.as_str(), id) };
        let invoices = select(&self.invoices, invoice_stays, Ghost(all_but::<Invoice>(id@)));
        let line_stays = |l: &InvoiceLineItem| -> (b: bool)
            ensures
                b == lines_outside(id@)(*l),
            { !same_text(l.invoice_id.as_str(), id) };
        let line_items = select(&self.line_items, line_stays, Ghost(lines_outside(id@)));
        proof {
            lemma_without_invoice(self@, id@);
        }
        self.invoices = invoices;
        self.line_items = line_items;
        Ok(())
    }

    /// Adds a line item under the id it carries. Fails with `InvalidArgument`
    /// where the description is empty, the quantity is zero or an amount is
    /// out of range; with `NotFound` where the invoice does not exist; and
    /// with `Conflict` where the id is taken.
    pub fn add_line_item(&mut self, item: InvoiceLineItem) -> (r: Result<String, StoreError>)
        requires
            old(self).wf(),
        ensures
            final(self).wf(),
            match r {
                Ok(id) => {
                    &&& add_line_item_refusal(old(self)@, item) is None
                    &&& id == item.id
                    &&& final(self)@ == (Tables {
                        line_items: old(self)@.line_items.push(item),
                        ..old(self)@
                    })
                },
                Err(e) => {
                    &&& add_line_item_refusal(old(self)@, item) == Some(e)
                    &&& final(self)@ == old(self)@
                },
            },
    {
        if is_blank(item.description.as_str()) || item.quantity == 0 || item.quantity > MAX_QUANTITY
            || item.unit_price > MAX_UNIT_PRICE {
            return Err(StoreError::InvalidArgument);
        }
        if find(&self.invoices, item.invoice_id.as_str()).is_none() {
            return Err(StoreError::NotFound);
        }
        if find(&self.line_items, item.id.as_str()).is_some() {
            return Err(StoreError::Conflict);
        }
        let id = item.id.clone();
        proof {
            lemma_add_line_item(self@, item);
        }
        self.line_items.push(item);
        Ok(id)
    }

    /// The line item with the given id.
    pub fn get_line_item(&self, id: &str) -> (r: Option<InvoiceLineItem>)
        requires
            self.wf(),
        ensures
            r is Some <==> has_key(self@.line_items, id@),
            r matches Some(row) ==> row == row_of(self@.line_items, id@),
    {
        get(&self.line_items, id)
    }

    /// The line items of an invoice, in stored order.
    pub fn list_line_items(&self, invoice_id: &str) -> (list: Vec<InvoiceLineItem>)
        ensures
            list@ == lines_of(self@.line_items, invoice_id@),
    {
        let wanted = |l: &InvoiceLineItem| -> (b: bool)
            ensures
                b == lines_in(invoice_id@)(*l),
            { same_text(l.invoice_id.as_str(), invoice_id) };
        select(&self.line_items, wanted, Ghost(lines_in(invoice_id@)))
    }

    /// Gives a line item a new quantity and unit price. Fails with
    /// `InvalidArgument` where the quantity is zero or an amount is out of
    /// range, and with `NotFound` where the line item does not exist.
    pub fn update_line_item(&mut self, id: &str, quantity: u64, unit_price: u64) -> (r: Result<
        (),
        StoreError,
    >)
        requires
            old(self).wf(),
        ensures
            final(self).wf(),
            match r {
                Ok(_) => {
                    let at = position_of(old(self)@.line_items, id@);
                    &&& update_line_item_refusal(old(self)@, id@, quantity, unit_price) is None
                    &&& final(self)@ == (Tables {
                        line_items: old(self)@.line_items.update(
                            at,
                            InvoiceLineItem { quantity, unit_price, ..old(self)@.line_items[at] },
                        ),
                        ..old(self)@
                    })
                },
                Err(e) => {
                    &&& update_line_item_refusal(old(self)@, id@, quantity, unit_price) == Some(e)
                    &&& final(self)@ == old(self)@
                },
            },
    {
        if quantity == 0 || quantity > MAX_QUANTITY || unit_price > MAX_UNIT_PRICE {
            return Err(StoreError::InvalidArgument);
        }
        let i = match find(&self.line_items, id) {
            Some(i) => i,
            None => {
                return Err(StoreError::NotFound);
            },
        };
        proof {
            let before = self@.line_items[i as int];
            assert(line_item_valid(before));
            lemma_replace_line_item(
                self@,
                i as int,
                InvoiceLineItem { quantity, unit_price, ..before },
            );
        }
        self.line_items[i].quantity = quantity;
        self.line_items[i].unit_price = unit_price;
        assert(self@.line_items =~= old(self)@.line_items.update(
            i as int,
            InvoiceLineItem { quantity, unit_price, ..old(self)@.line_items[i as int] },
        ));
        Ok(())
    }

    /// Deletes a line item. Fails with `NotFound` where it does not exist.
    pub fn delete_line_item(&mut self, id: &str) -> (r: Result<(), StoreError>)
        requires
            old(self).wf(),
        ensures
            final(self).wf(),
            match r {
                Ok(_) => {
                    &&& has_key(old(self)@.line_items, id@)
                    &&& final(self)@ == without_line_item(old(self)@, id@)
                },
                Err(e) => {
                    &&& e == StoreError::NotFound
                    &&& !has_key(old(self)@.line_items, id@)
                    &&& final(self)@ == old(self)@
                },
            },
    {
        if find(&self.line_items, id).is_none() {
            return Err(StoreError::NotFound);
        }
        let stays = |l: &InvoiceLineItem| -> (b: bool)
            ensures
                b == all_but::<InvoiceLineItem>(id@)(*l),
            { !same_text(l.id.as_str(), id) };
        let line_items = select(&self.line_items, stays, Ghost(all_but::<InvoiceLineItem>(id@)));
        proof {
            lemma_without_line_item(self@, id@);
        }
        self.line_items = line_items;
        Ok(())
    }

    /// What an invoice comes to: the sum of quantity times unit price over
    /// its line items, the tax at the invoice's rate on that sum, and both
    /// together. Computed from the rows as they are now; nothing is stored.
    /// Fails with `NotFound` where the invoice does not exist.
    pub fn compute_invoice_total(&self, invoice_id: &str) -> (r: Result<InvoiceTotal, StoreError>)
        requires
            self.wf(),
        ensures
            match r {
                Ok(t) => {
                    &&& has_key(self@.invoices, invoice_id@)
                    &&& (t.subtotal as nat, t.tax as nat, t.total as nat) == total_of(
                        lines_of(self@.line_items, invoice_id@),
                        row_of(self@.invoices, invoice_id@).tax_rate as nat,
                    )
                },
                Err(e) => e == StoreError::NotFound && !has_key(self@.invoices, invoice_id@),
            },
    {
        let v = match find(&self.invoices, invoice_id) {
            Some(v) => v,
            None => {
                return Err(StoreError::NotFound);
            },
        };
        let ghost mine = lines_in(invoice_id@);
        let mut sum: u128 = 0;
        let mut i: usize = 0;
        proof {
            assert(self.line_items@.take(0) =~= Seq::<InvoiceLineItem>::empty());
            reveal_with_fuel(Seq::filter, 1);
        }
        while i < self.line_items.len()
            invariant
                i <= self.line_items.len(),
                self.wf(),
                mine == lines_in(invoice_id@),
                sum == sum_of_lines(self.line_items@.take(i as int).filter(mine)),
                sum <= i * 1_000_000_000_000_000_000,
            decreases self.line_items.len() - i,
        {
            proof {
                let seen = self.line_items@.take(i as int);
                let item = self.line_items@[i as int];
                assert(self.line_items@.take(i + 1) =~= seen.push(item));
                seen.lemma_filter_push(item, mine);
                lemma_sum_of_lines_push(seen.filter(mine), item);
                assert(line_item_valid(self@.line_items[i as int]));
                assert(item.quantity * item.unit_price <= 1_000_000_000_000_000_000)
                    by (nonlinear_arith)
                    requires
                        0 <= item.quantity <= 1_000_000_000,
                        0 <= item.unit_price <= 1_000_000_000,
                ;
                assert((i + 1) * 1_000_000_000_000_000_000 == i * 1_000_000_000_000_000_000
                    + 1_000_000_000_000_000_000) by (nonlinear_arith);
                assert(i * 1_000_000_000_000_000_000 <= 0xFFFF_FFFF_FFFF_FFFF
                    * 1_000_000_000_000_000_000) by (nonlinear_arith)
                    requires
                        0 <= i <= 0xFFFF_FFFF_FFFF_FFFF,
                ;
            }
            if same_text(self.line_items[i].invoice_id.as_str(), invoice_id) {
                sum = sum + compute_line_total(&self.line_items[i]);
            }
            i += 1;
        }
        proof {
            assert(self.line_items@.take(i as int) =~= self.line_items@);
            assert(i * 1_000_000_000_000_000_000 <= 0xFFFF_FFFF_FFFF_FFFF
                * 1_000_000_000_000_000_000) by (nonlinear_arith)
                requires
                    0 <= i <= 0xFFFF_FFFF_FFFF_FFFF,
            ;
            assert(invoice_valid(self@.invoices[v as int]));
        }
        Ok(add_tax(sum, self.invoices[v].tax_rate))
    }

    /// Stores `value` under `key`, in place of what was there if the key is
    /// known, as a new setting if it is not.
    pub fn set_setting(&mut self, key: String, value: String)
        requires
            old(self).wf(),
        ensures
            final(self).wf(),
            final(self)@ == with_setting(old(self)@, key, value),
    {
        proof {
            lemma_with_setting(self@, key, value);
        }
        match find(&self.settings, key.as_str()) {
            Some(i) => {
                self.settings[i].value = value;
            },
            None => {
                self.settings.push(Setting { key, value });
            },
        }
    }

    /// The value stored under `key`.
    pub fn get_setting(&self, key: &str) -> (r: Option<String>)
        requires
            self.wf(),
        ensures
            r is Some <==> has_key(self@.settings, key@),
            r matches Some(value) ==> value == row_of(self@.settings, key@).value,
    {
        match find(&self.settings, key) {
            Some(i) => Some(self.settings[i].value.clone()),
            None => None,
        }
    }
}

} // verus!
