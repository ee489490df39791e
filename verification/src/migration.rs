//! Forward-only schema migrations: the rules that decide which migration runs
//! next, and an in-memory schema store that follows them.

use vstd::prelude::*;
use crate::error::StoreError;

verus! {

/// One irreversible, versioned schema change.
#[derive(Debug)]
pub struct Migration {
    /// Position in the release history, counted from 1.
    pub version: u64,
    /// Short human-readable name.
    pub description: String,
    /// The schema-altering statements in their order, run together as one
    /// atomic unit. Statements that were released as one text stay one
    /// element, to the letter.
    pub script: Vec<String>,
}

/// Why migrating was refused or stopped.
#[derive(Clone, Copy, Debug, PartialEq, Eq, Structural)]
pub enum MigrationError {
    /// The migration at `index` does not carry version `index + 1`: the list
    /// has a gap, a repeat, or is out of order.
    OutOfSequence { index: usize },
    /// The store records a version beyond the newest migration of this build.
    UnsupportedSchemaVersion { recorded: u64, latest: u64 },
    /// The store could not carry out the script of the migration `version`.
    ScriptFailed { version: u64 },
}

/// What the caller has to do next to bring the store up to date.
#[derive(Clone, Copy, Debug, PartialEq, Eq, Structural)]
pub enum Step {
    /// Run the script of the migration at `index` as one atomic unit.
    Apply { index: usize },
    /// Nothing is pending: the store is at the newest version.
    UpToDate,
}

/// The schema-relevant content of a store: the version it records and every
/// statement that was ever applied to it, oldest first.
pub struct SchemaState {
    pub version: nat,
    pub statements: Seq<Seq<char>>,
}

/// The text of each statement of a migration's script.
pub open spec fn statements_of(m: Migration) -> Seq<Seq<char>> {
    m.script@.map_values(|s: String| s@)
}

/// The statements one after the other as one text, nothing between them.
pub open spec fn joined(statements: Seq<Seq<char>>) -> Seq<char>
    decreases statements.len(),
{
    if statements.len() == 0 {
        Seq::empty()
    } else {
        joined(statements.drop_last()) + statements.last()
    }
}

/// Versions count up from 1 without gap or repeat.
pub open spec fn is_contiguous(ms: Seq<Migration>) -> bool {
    forall|i: int| 0 <= i < ms.len() ==> (#[trigger] ms[i]).version == i + 1
}

/// `index` is the first position whose migration carries the wrong version.
pub open spec fn is_first_gap(ms: Seq<Migration>, index: int) -> bool {
    &&& 0 <= index < ms.len()
    &&& ms[index].version != index + 1
    &&& forall|j: int| 0 <= j < index ==> (#[trigger] ms[j]).version == j + 1
}

/// The statements of the migrations at positions `from..to`, in order.
pub open spec fn statements_between(ms: Seq<Migration>, from: int, to: int) -> Seq<Seq<char>>
    decreases to - from,
{
    if to <= from || to > ms.len() || from < 0 {
        Seq::empty()
    } else {
        statements_between(ms, from, to - 1) + statements_of(ms[to - 1])
    }
}

/// Whether `r` is the right answer to "what comes next" for a store that
/// records `recorded`. Exactly one answer is right for each input.
pub open spec fn is_next_step(ms: Seq<Migration>, recorded: u64, r: Result<Step, MigrationError>) -> bool {
    match r {
        Ok(Step::UpToDate) => is_contiguous(ms) && recorded == ms.len(),
        Ok(Step::Apply { index }) => is_contiguous(ms) && recorded < ms.len() && index == recorded,
        Err(MigrationError::OutOfSequence { index }) => is_first_gap(ms, index as int),
        Err(MigrationError::UnsupportedSchemaVersion { recorded: seen, latest }) => {
            &&& is_contiguous(ms)
            &&& recorded > ms.len()
            &&& seen == recorded
            &&& latest == ms.len()
        },
        Err(MigrationError::ScriptFailed { .. }) => false,
    }
}

/// The state of a store at `s` once the migration above its recorded version
/// ran: the script's statements are applied and the version is one higher.
pub open spec fn after_step(s: SchemaState, ms: Seq<Migration>) -> SchemaState {
    SchemaState {
        version: s.version + 1,
        statements: s.statements + statements_of(ms[s.version as int]),
    }
}

/// The state of a store at `s` once every pending migration of `ms` ran.
pub open spec fn migrated(s: SchemaState, ms: Seq<Migration>) -> SchemaState {
    SchemaState {
        version: ms.len(),
        statements: s.statements + statements_between(ms, s.version as int, ms.len() as int),
    }
}

impl Migration {
    /// The whole script as one text, as it is handed to a store that takes a
    /// script in one piece: the statements one after the other, with nothing
    /// put between them.
    pub fn script_text(&self) -> (text: String)
        ensures
            text@ == joined(statements_of(*self)),
    {
        let mut text = String::new();
        let mut j: usize = 0;
        assert(statements_of(*self).take(0) =~= Seq::<Seq<char>>::empty());
        while j < self.script.len()
            invariant
                j <= self.script.len(),
                text@ == joined(statements_of(*self).take(j as int)),
            decreases self.script.len() - j,
        {
            text.append(self.script[j].as_str());
            assert(statements_of(*self).take(j + 1).drop_last() =~= statements_of(*self).take(
                j as int,
            ));
            j += 1;
        }
        assert(statements_of(*self).take(j as int) =~= statements_of(*self));
        text
    }
}

impl MigrationError {
    /// The class of failure this error belongs to.
    pub fn kind(&self) -> (k: StoreError)
        ensures
            k == match *self {
                MigrationError::OutOfSequence { .. } => StoreError::Conflict,
                MigrationError::UnsupportedSchemaVersion { .. } => StoreError::Conflict,
                MigrationError::ScriptFailed { .. } => StoreError::StoreUnavailable,
            },
    {
        match self {
            MigrationError::OutOfSequence { .. } => StoreError::Conflict,
            MigrationError::UnsupportedSchemaVersion { .. } => StoreError::Conflict,
            MigrationError::ScriptFailed { .. } => StoreError::StoreUnavailable,
        }
    }
}

/// Checks that the versions count up from 1 without gap or repeat, and names
/// the first position that breaks the count otherwise.
pub fn check_sequence(ms: &Vec<Migration>) -> (r: Result<(), MigrationError>)
    ensures
        match r {
            Ok(_) => is_contiguous(ms@),
            Err(MigrationError::OutOfSequence { index }) => is_first_gap(ms@, index as int),
            Err(_) => false,
        },
{
    let mut i: usize = 0;
    while i < ms.len()
        invariant
            i <= ms.len(),
            forall|j: int| 0 <= j < i ==> (#[trigger] ms@[j]).version == j + 1,
        decreases ms.len() - i,
    {
        if ms[i].version != (i as u64) + 1 {
            return Err(MigrationError::OutOfSequence { index: i });
        }
        i += 1;
    }
    Ok(())
}

/// Decides what has to happen next for a store that records version
/// `recorded` (0 for a new store).
///
/// The whole list is checked before anything is handed out, so a list with a
/// gap or a repeat never yields a step. A step, when there is one, is always
/// the migration with version `recorded + 1`: nothing at or below the
/// recorded version is ever handed out again.
pub fn next_step(ms: &Vec<Migration>, recorded: u64) -> (r: Result<Step, MigrationError>)
    ensures
        is_next_step(ms@, recorded, r),
        r matches Ok(Step::Apply { index }) ==> ms@[index as int].version == recorded + 1,
{
    match check_sequence(ms) {
        Err(e) => Err(e),
        Ok(_) => {
            let latest: u64 = ms.len() as u64;
            if recorded > latest {
                Err(MigrationError::UnsupportedSchemaVersion { recorded, latest })
            } else if recorded == latest {
                Ok(Step::UpToDate)
            } else {
                Ok(Step::Apply { index: recorded as usize })
            }
        },
    }
}

/// The version a store records after it reported on the step that
/// `next_step` handed out for `recorded`.
///
/// A committed script moves the version up by one. A failed script leaves the
/// store where it was and ends the run with `ScriptFailed`. Where no step was
/// pending the version stays, and where `next_step` fails this fails alike.
pub fn advance(ms: &Vec<Migration>, recorded: u64, committed: bool) -> (r: Result<u64, MigrationError>)
    ensures
        match r {
            Ok(v) => {
                ||| is_next_step(ms@, recorded, Ok(Step::UpToDate)) && v == recorded
                ||| is_next_step(ms@, recorded, Ok(Step::Apply { index: recorded as usize }))
                    && committed && v == recorded + 1
            },
            Err(MigrationError::ScriptFailed { version }) => {
                &&& is_next_step(ms@, recorded, Ok(Step::Apply { index: recorded as usize }))
                &&& !committed
                &&& version == recorded + 1
            },
            Err(e) => is_next_step(ms@, recorded, Err(e)),
        },
{
    match next_step(ms, recorded) {
        Err(e) => Err(e),
        Ok(Step::UpToDate) => Ok(recorded),
        Ok(Step::Apply { index }) => {
            if committed {
                Ok(recorded + 1)
            } else {
                Err(MigrationError::ScriptFailed { version: recorded + 1 })
            }
        },
    }
}

/// An in-memory stand-in for the schema part of a persistent store.
pub struct SchemaStore {
    version: u64,
    statements: Vec<String>,
}

impl View for SchemaStore {
    type V = SchemaState;

    closed spec fn view(&self) -> SchemaState {
        SchemaState {
            version: self.version as nat,
            statements: self.statements@.map_values(|s: String| s@),
        }
    }
}

impl SchemaStore {
    /// A new, empty store: version 0, nothing applied.
    pub fn new() -> (s: SchemaStore)
        ensures
            s@ == (SchemaState { version: 0, statements: Seq::empty() }),
    {
        let s = SchemaStore { version: 0, statements: Vec::new() };
        assert(s@.statements =~= Seq::empty());
        s
    }

    /// A store as it was left earlier: the version it recorded and the
    /// statements applied so far.
    pub fn restore(version: u64, statements: Vec<String>) -> (s: SchemaStore)
        ensures
            s@.version == version,
            s@.statements == statements@.map_values(|t: String| t@),
    {
        SchemaStore { version, statements }
    }

    /// The version the store records.
    pub fn version(&self) -> (v: u64)
        ensures
            v == self@.version,
    {
        self.version
    }

    /// Every statement applied so far, oldest first.
    pub fn statements(&self) -> (list: &Vec<String>)
        ensures
            list@.map_values(|t: String| t@) == self@.statements,
    {
        &self.statements
    }

    /// Appends the script of `m` to the applied statements.
    fn run_script(&mut self, m: &Migration)
        ensures
            final(self)@.version == old(self)@.version,
            final(self)@.statements == old(self)@.statements + statements_of(*m),
    {
        let mut j: usize = 0;
        while j < m.script.len()
            invariant
                j <= m.script.len(),
                self.version == old(self).version,
                self@.statements == old(self)@.statements + statements_of(*m).subrange(0, j as int),
            decreases m.script.len() - j,
        {
            let ghost before = self@.statements;
            let statement = m.script[j].clone();
            self.statements.push(statement);
            assert(self@.statements =~= before.push(statement@));
            assert(statements_of(*m).subrange(0, j + 1) =~= statements_of(*m).subrange(
                0,
                j as int,
            ).push(statement@));
            j += 1;
        }
        assert(statements_of(*m).subrange(0, j as int) =~= statements_of(*m));
    }

    /// Takes one step towards the newest version of `ms`, where `committed`
    /// says whether the store could carry out the script of that step.
    ///
    /// A committed script is applied whole and its version recorded, both
    /// together. A script that failed leaves no trace: the store stays exactly
    /// as it was, statements and version, and the run ends with
    /// `ScriptFailed`. Where nothing is pending the store stays as it is, and
    /// where the list or the recorded version is refused it stays as well.
    pub fn apply_next(&mut self, ms: &Vec<Migration>, committed: bool) -> (r: Result<
        u64,
        MigrationError,
    >)
        ensures
            match r {
                Ok(v) => {
                    ||| {
                        &&& is_next_step(ms@, old(self)@.version as u64, Ok(Step::UpToDate))
                        &&& v == old(self)@.version
                        &&& final(self)@ == old(self)@
                    }
                    ||| {
                        &&& is_next_step(
                            ms@,
                            old(self)@.version as u64,
                            Ok(Step::Apply { index: old(self)@.version as usize }),
                        )
                        &&& committed
                        &&& v == old(self)@.version + 1
                        &&& final(self)@ == after_step(old(self)@, ms@)
                    }
                },
                Err(MigrationError::ScriptFailed { version }) => {
                    &&& is_next_step(
                        ms@,
                        old(self)@.version as u64,
                        Ok(Step::Apply { index: old(self)@.version as usize }),
                    )
                    &&& !committed
                    &&& version == old(self)@.version + 1
                    &&& final(self)@ == old(self)@
                },
                Err(e) => {
                    &&& is_next_step(ms@, old(self)@.version as u64, Err(e))
                    &&& final(self)@ == old(self)@
                },
            },
    {
        match advance(ms, self.version, committed) {
            Err(e) => Err(e),
            Ok(v) => {
                if v != self.version {
                    self.run_script(&ms[self.version as usize]);
                    self.version = v;
                }
                Ok(v)
            },
        }
    }

    /// Brings the store to the newest version of `ms`.
    ///
    /// The list and the recorded version are checked first; on any error the
    /// store is left exactly as it was. Otherwise the scripts of the
    /// migrations above the recorded version run in ascending order, each
    /// followed by recording its version, and the number of migrations that
    /// ran is returned. Migrations at or below the recorded version are not
    /// touched.
    pub fn migrate(&mut self, ms: &Vec<Migration>) -> (r: Result<usize, MigrationError>)
        ensures
            match r {
                Ok(n) => {
                    &&& is_contiguous(ms@)
                    &&& old(self)@.version <= ms.len()
                    &&& n == ms.len() - old(self)@.version
                    &&& final(self)@ == migrated(old(self)@, ms@)
                },
                Err(e) => {
                    &&& final(self)@ == old(self)@
                    &&& is_next_step(ms@, old(self)@.version as u64, Err(e))
                },
            },
    {
        let first: usize = match next_step(ms, self.version) {
            Err(e) => {
                return Err(e);
            },
            Ok(Step::UpToDate) => ms.len(),
            Ok(Step::Apply { index }) => index,
        };
        let mut i: usize = first;
        assert(self@.statements =~= old(self)@.statements + statements_between(
            ms@,
            first as int,
            i as int,
        ));
        while i < ms.len()
            invariant
                first <= i <= ms.len(),
                first == old(self)@.version,
                is_contiguous(ms@),
                self.version == i,
                self@.statements == old(self)@.statements + statements_between(
                    ms@,
                    first as int,
                    i as int,
                ),
            decreases ms.len() - i,
        {
            self.run_script(&ms[i]);
            self.version = ms[i].version;
            i += 1;
            assert(self@.statements =~= old(self)@.statements + statements_between(
                ms@,
                first as int,
                i as int,
            ));
        }
        Ok(ms.len() - first)
    }
}

/// A list in which a version repeats, or in which one migration is not
/// followed by the next version, is out of sequence.
pub proof fn law_gap_or_repeat_is_out_of_sequence(ms: Seq<Migration>, i: int, j: int)
    requires
        0 <= i < j < ms.len(),
        ms[i].version == ms[j].version || (j == i + 1 && ms[j].version != ms[i].version + 1),
    ensures
        !is_contiguous(ms),
{
    if is_contiguous(ms) {
        assert(ms[i].version == i + 1);
        assert(ms[j].version == j + 1);
    }
}

/// Migrating is idempotent: a second run over the same list leaves the store
/// as the first run left it, schema and recorded version alike, and finds
/// nothing pending.
pub proof fn law_migrate_idempotent(s: SchemaState, ms: Seq<Migration>)
    requires
        is_contiguous(ms),
        s.version <= ms.len(),
    ensures
        migrated(migrated(s, ms), ms) == migrated(s, ms),
        statements_between(ms, migrated(s, ms).version as int, ms.len() as int) == Seq::<
            Seq<char>,
        >::empty(),
{
    assert(migrated(migrated(s, ms), ms).statements =~= migrated(s, ms).statements);
}

/// Running every pending migration is taking the steps one after the other:
/// from a store with something pending, one step and then the rest come to
/// the same as all at once.
pub proof fn law_migrating_is_stepping(s: SchemaState, ms: Seq<Migration>)
    requires
        is_contiguous(ms),
        s.version < ms.len(),
    ensures
        migrated(after_step(s, ms), ms) == migrated(s, ms),
{
    lemma_statements_split(ms, s.version as int, ms.len() as int);
    assert(migrated(after_step(s, ms), ms).statements =~= migrated(s, ms).statements);
}

/// The statements of `from..to` are those of `from`, then those of the rest.
proof fn lemma_statements_split(ms: Seq<Migration>, from: int, to: int)
    requires
        0 <= from < to <= ms.len(),
    ensures
        statements_between(ms, from, to) == statements_of(ms[from]) + statements_between(
            ms,
            from + 1,
            to,
        ),
    decreases to - from,
{
    if to == from + 1 {
        assert(statements_between(ms, from, from) =~= Seq::<Seq<char>>::empty());
        assert(statements_between(ms, from, to) =~= statements_of(ms[from]));
        assert(statements_between(ms, from + 1, to) =~= Seq::<Seq<char>>::empty());
    } else {
        lemma_statements_split(ms, from, to - 1);
        assert(statements_between(ms, from, to) =~= statements_of(ms[from]) + statements_between(
            ms,
            from + 1,
            to,
        ));
    }
}

/// Every migration that runs for a store recording `recorded` lies above that
/// version: the positions that `migrated` draws its statements from hold
/// versions greater than `recorded` only.
pub proof fn law_applied_versions_above_recorded(ms: Seq<Migration>, recorded: nat, i: int)
    requires
        is_contiguous(ms),
        recorded <= i < ms.len(),
    ensures
        ms[i].version > recorded,
{
}

} // verus!
