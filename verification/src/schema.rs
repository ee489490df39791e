//! The schema of the store in its own definition language, as the list of
//! migrations that build it.
//!
//! A released migration is never edited, not even in its spacing: the store
//! remembers the text it applied. A change to the schema is a new migration
//! at the end of the list.

use vstd::prelude::*;
use crate::migration::{is_contiguous, statements_of, Migration};

verus! {

/// Where the store lives.
pub const DATABASE_URL: &'static str = "sqlite:flowforge.db";

/// To be run on every connection before anything else: without it the store
/// declares its foreign keys but does not hold rows to them.
pub const ENABLE_FOREIGN_KEYS: &'static str = "PRAGMA foreign_keys = ON;";

/// Version 1 as released: the tables of clients, projects, time entries,
/// invoices, line items and settings.
pub const CREATE_INITIAL_TABLES: &'static str = "
                CREATE TABLE IF NOT EXISTS clients (
                    id TEXT PRIMARY KEY,
                    name TEXT NOT NULL,
                    email TEXT,
                    address TEXT,
                    phone TEXT,
                    hourly_rate REAL,
                    notes TEXT,
                    created_at TEXT DEFAULT CURRENT_TIMESTAMP,
                    updated_at TEXT DEFAULT CURRENT_TIMESTAMP
                );

                CREATE TABLE IF NOT EXISTS projects (
                    id TEXT PRIMARY KEY,
                    client_id TEXT,
                    name TEXT NOT NULL,
                    description TEXT,
                    status TEXT DEFAULT 'active',
                    color TEXT,
                    created_at TEXT DEFAULT CURRENT_TIMESTAMP,
                    updated_at TEXT DEFAULT CURRENT_TIMESTAMP,
                    FOREIGN KEY (client_id) REFERENCES clients(id)
                );

                CREATE TABLE IF NOT EXISTS time_entries (
                    id TEXT PRIMARY KEY,
                    project_id TEXT,
                    start_time TEXT NOT NULL,
                    end_time TEXT,
                    pause_duration INTEGER DEFAULT 0,
                    notes TEXT,
                    is_billable INTEGER DEFAULT 1,
                    is_billed INTEGER DEFAULT 0,
                    created_at TEXT DEFAULT CURRENT_TIMESTAMP,
                    FOREIGN KEY (project_id) REFERENCES projects(id)
                );

                CREATE TABLE IF NOT EXISTS invoices (
                    id TEXT PRIMARY KEY,
                    client_id TEXT,
                    invoice_number TEXT NOT NULL,
                    issue_date TEXT,
                    due_date TEXT,
                    status TEXT DEFAULT 'draft',
                    notes TEXT,
                    tax_rate REAL,
                    created_at TEXT DEFAULT CURRENT_TIMESTAMP,
                    updated_at TEXT DEFAULT CURRENT_TIMESTAMP,
                    FOREIGN KEY (client_id) REFERENCES clients(id)
                );

                CREATE TABLE IF NOT EXISTS invoice_line_items (
                    id TEXT PRIMARY KEY,
                    invoice_id TEXT,
                    description TEXT NOT NULL,
                    quantity REAL,
                    unit_price REAL,
                    FOREIGN KEY (invoice_id) REFERENCES invoices(id)
                );

                CREATE TABLE IF NOT EXISTS settings (
                    key TEXT PRIMARY KEY,
                    value TEXT
                );
            ";

/// Version 2 as released: the VAT number of a client.
pub const ADD_VAT_NUMBER: &'static str = "ALTER TABLE clients ADD COLUMN vat_number TEXT;";

/// The newest schema version that this build knows.
pub const LATEST_VERSION: u64 = 2;

/// Every migration of this build, oldest first: the six tables, then the VAT
/// number of a client. Each script is the one text that was released.
pub fn migrations() -> (list: Vec<Migration>)
    ensures
        is_contiguous(list@),
        list@.len() == LATEST_VERSION,
        list@[0].description@ == "create_initial_tables"@,
        statements_of(list@[0]) == seq![CREATE_INITIAL_TABLES@],
        list@[1].description@ == "add_vat_number_to_clients"@,
        statements_of(list@[1]) == seq![ADD_VAT_NUMBER@],
{
    let mut first: Vec<String> = Vec::new();
    first.push(String::from_str(CREATE_INITIAL_TABLES));
    let mut second: Vec<String> = Vec::new();
    second.push(String::from_str(ADD_VAT_NUMBER));
    let mut list: Vec<Migration> = Vec::new();
    list.push(
        Migration {
            version: 1,
            description: String::from_str("create_initial_tables"),
            script: first,
        },
    );
    list.push(
        Migration {
            version: 2,
            description: String::from_str("add_vat_number_to_clients"),
            script: second,
        },
    );
    assert(statements_of(list@[0]) =~= seq![CREATE_INITIAL_TABLES@]);
    assert(statements_of(list@[1]) =~= seq![ADD_VAT_NUMBER@]);
    list
}

} // verus!
