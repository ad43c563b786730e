//! The migration ledger: reconciling a declared migration list with the
//! history of applied migrations, and applying the new ones.
use vstd::prelude::*;

use crate::error::{is_migration, Error};
use crate::fingerprint::{calculate_hash, md5_hex};
use crate::store::{error_text, execute_with_texts, query_entries, run_batch};

verus! {

/// A named unit of schema or data change; `sql` may hold several statements.
#[derive(Debug)]
pub struct Migration {
    pub name: String,
    pub sql: String,
}

/// One applied migration as the ledger records it.
#[derive(Debug)]
pub struct LedgerEntry {
    pub name: String,
    pub hash: String,
}

/// A ledger entry as a pair of its name and its fingerprint.
pub type EntryView = (Seq<char>, Seq<char>);

impl View for LedgerEntry {
    type V = EntryView;

    open spec fn view(&self) -> EntryView {
        (self.name@, self.hash@)
    }
}

/// The entries of a ledger, in order.
pub open spec fn entries_view(ledger: Seq<LedgerEntry>) -> Seq<EntryView> {
    ledger.map_values(|e: LedgerEntry| e@)
}

/// The entry that applying a migration records.
pub open spec fn entry_of(m: Migration) -> EntryView {
    (m.name@, md5_hex(m.sql@))
}

/// The entries that a migration list records, in order.
pub open spec fn expected_of(migrations: Seq<Migration>) -> Seq<EntryView> {
    migrations.map_values(|m: Migration| entry_of(m))
}


/// The outcome of checking a ledger against the entries a migration list records.
pub enum Verdict {
    /// The ledger is a prefix of the list; the migrations from this index on are new.
    Pending(nat),
    /// The ledger holds more entries than the list: an applied migration was removed.
    Shortened,
    /// The entry at some position differs in name or fingerprint; holds the
    /// name of the migration the list has there.
    Modified(Seq<char>),
}

/// Walks the ledger and the expected entries in lockstep from position `i`.
pub open spec fn verdict_from(ledger: Seq<EntryView>, expected: Seq<EntryView>, i: nat) -> Verdict
    decreases ledger.len() - i,
{
    if i >= ledger.len() {
        Verdict::Pending(ledger.len())
    } else if i >= expected.len() {
        Verdict::Shortened
    } else if ledger[i as int] != expected[i as int] {
        Verdict::Modified(expected[i as int].0)
    } else {
        verdict_from(ledger, expected, i + 1)
    }
}

/// The outcome of checking a whole ledger against a whole list.
pub open spec fn verdict(ledger: Seq<EntryView>, expected: Seq<EntryView>) -> Verdict {
    verdict_from(ledger, expected, 0)
}

/// Whether `prefix` is an initial part of `whole`.
pub open spec fn is_prefix(prefix: Seq<EntryView>, whole: Seq<EntryView>) -> bool {
    prefix.len() <= whole.len() && prefix == whole.take(prefix.len() as int)
}

/// From position `i` on, the walk finds no divergence exactly when the rest of
/// the ledger agrees with the expected entries.
proof fn lemma_verdict_from(ledger: Seq<EntryView>, expected: Seq<EntryView>, i: nat)
    requires
        i <= ledger.len(),
        i <= expected.len(),
    ensures
        verdict_from(ledger, expected, i) is Pending <==> (ledger.len() <= expected.len() && forall|
            j: int,
        | i <= j < ledger.len() ==> ledger[j] == expected[j]),
        verdict_from(ledger, expected, i) matches Verdict::Pending(n) ==> n == ledger.len(),
    decreases ledger.len() - i,
{
    if i < ledger.len() && i < expected.len() {
        if ledger[i as int] == expected[i as int] {
            lemma_verdict_from(ledger, expected, i + 1);
            if ledger.len() <= expected.len() && forall|j: int|
                i + 1 <= j < ledger.len() ==> ledger[j] == expected[j] {
                assert forall|j: int| i <= j < ledger.len() implies ledger[j] == expected[j] by {}
            }
        } else {
            assert(!(forall|j: int| i <= j < ledger.len() ==> ledger[j] == expected[j]));
        }
    }
}

/// A ledger passes the check exactly when it is a prefix of the expected
/// entries; the new migrations then start at the ledger's length.
pub proof fn lemma_verdict_pending(ledger: Seq<EntryView>, expected: Seq<EntryView>)
    ensures
        verdict(ledger, expected) is Pending <==> is_prefix(ledger, expected),
        verdict(ledger, expected) matches Verdict::Pending(n) ==> n == ledger.len(),
{
    lemma_verdict_from(ledger, expected, 0);
    if ledger.len() <= expected.len() {
        if forall|j: int| 0 <= j < ledger.len() ==> ledger[j] == expected[j] {
            assert(ledger =~= expected.take(ledger.len() as int));
        }
        if ledger == expected.take(ledger.len() as int) {
            assert forall|j: int| 0 <= j < ledger.len() implies ledger[j] == expected[j] by {
                assert(expected.take(ledger.len() as int)[j] == expected[j]);
            }
        }
    }
}

/// The text of the error for a list shorter than the ledger.
pub open spec fn shortened_text() -> Seq<char> {
    "The migration list has been modified"@
}

/// The text of the error for a migration changed after it was applied.
pub open spec fn modified_text(name: Seq<char>) -> Seq<char> {
    "The migration "@ + name + " has been modified"@
}

/// The text of the error for a new migration whose SQL failed.
pub open spec fn execution_failed_text(name: Seq<char>, cause: Seq<char>) -> Seq<char> {
    "Error executing migration: "@ + name + ". "@ + cause
}

/// The text of the error for a new migration whose ledger entry could not be written.
pub open spec fn recording_failed_text(name: Seq<char>, cause: Seq<char>) -> Seq<char> {
    "Error recording migration: "@ + name + ". "@ + cause
}

/// Whether `e` is the error that a verdict of divergence calls for.
pub open spec fn diverged_error(v: Verdict, e: Error) -> bool {
    match v {
        Verdict::Shortened => is_migration(e, shortened_text()),
        Verdict::Modified(name) => is_migration(e, modified_text(name)),
        Verdict::Pending(_) => false,
    }
}

/// The entries that applying each migration of the list records, in order.
pub fn expected_entries(migrations: &Vec<Migration>) -> (r: Vec<LedgerEntry>)
    ensures
        entries_view(r@) == expected_of(migrations@),
{
    let mut out: Vec<LedgerEntry> = Vec::new();
    let mut i: usize = 0;
    while i < migrations.len()
        invariant
            i <= migrations@.len(),
            out@.len() == i,
            forall|j: int| 0 <= j < i ==> (#[trigger] out@[j])@ == entry_of(migrations@[j]),
        decreases migrations@.len() - i,
    {
        let m = &migrations[i];
        out.push(LedgerEntry { name: m.name.clone(), hash: calculate_hash(&m.sql) });
        i = i + 1;
    }
    assert(entries_view(out@) =~= expected_of(migrations@));
    out
}

/// Checks the ledger against the entries a migration list records, position by
/// position. On success returns the number of ledger entries, which is where
/// the new migrations start.
pub fn verify_history(ledger: &Vec<LedgerEntry>, expected: &Vec<LedgerEntry>) -> (r: Result<
    usize,
    Error,
>)
    ensures
        match verdict(entries_view(ledger@), entries_view(expected@)) {
            Verdict::Pending(n) => r == Ok::<usize, Error>(n as usize),
            v => r matches Err(e) && diverged_error(v, e),
        },
        r matches Ok(n) ==> n == ledger@.len() && n <= expected@.len(),
{
    let ghost l = entries_view(ledger@);
    let ghost e = entries_view(expected@);
    let mut i: usize = 0;
    while i < ledger.len()
        invariant
            i <= ledger@.len(),
            i <= expected@.len(),
            l == entries_view(ledger@),
            e == entries_view(expected@),
            verdict(l, e) == verdict_from(l, e, i as nat),
        decreases ledger@.len() - i,
    {
        if i >= expected.len() {
            return Err(Error::Migration(String::from_str("The migration list has been modified")));
        }
        let found = &ledger[i];
        let wanted = &expected[i];
        if found.name != wanted.name || found.hash != wanted.hash {
            assert(l[i as int] != e[i as int]);
            let text = String::from_str("The migration ").concat(wanted.name.as_str()).concat(
                " has been modified",
            );
            return Err(Error::Migration(text));
        }
        assert(l[i as int] == e[i as int]);
        i = i + 1;
    }
    Ok(i)
}


/// Whether `e` reports that the new migration `name` failed, with some cause.
pub open spec fn apply_failed(e: Error, name: Seq<char>, cause: Seq<char>) -> bool {
    is_migration(e, execution_failed_text(name, cause)) || is_migration(
        e,
        recording_failed_text(name, cause),
    )
}

/// A new migration to apply: its SQL, and the entry that records it.
#[derive(Debug)]
pub struct Step {
    pub sql: String,
    pub entry: LedgerEntry,
}

/// The statement that creates the ledger table if it is absent.
pub fn ledger_table_sql() -> (r: &'static str)
    ensures
        r@ == "CREATE TABLE IF NOT EXISTS migrations_history (id INTEGER PRIMARY KEY, name TEXT NOT NULL, hash TEXT NOT NULL)"@,
{
    "CREATE TABLE IF NOT EXISTS migrations_history (id INTEGER PRIMARY KEY, name TEXT NOT NULL, hash TEXT NOT NULL)"
}

/// The query that reads the ledger's names and fingerprints in application order.
pub fn ledger_read_sql() -> (r: &'static str)
    ensures
        r@ == "SELECT name, hash FROM migrations_history ORDER BY id"@,
{
    "SELECT name, hash FROM migrations_history ORDER BY id"
}

/// The statement that appends one entry to the ledger; the store assigns the next id.
pub fn ledger_insert_sql() -> (r: &'static str)
    ensures
        r@ == "INSERT INTO migrations_history (name, hash) VALUES (?1, ?2)"@,
{
    "INSERT INTO migrations_history (name, hash) VALUES (?1, ?2)"
}

/// Reconciles a migration list with the ledger as it was read. On success
/// returns the migrations still to apply, in list order, each with the SQL to
/// run and the entry to record.
pub fn pending_steps(ledger: &Vec<LedgerEntry>, migrations: &Vec<Migration>) -> (r: Result<
    Vec<Step>,
    Error,
>)
    ensures
        match verdict(entries_view(ledger@), expected_of(migrations@)) {
            Verdict::Pending(n) => {
                &&& n <= migrations@.len()
                &&& r matches Ok(steps) && steps@.len() == migrations@.len() - n && forall|k: int|
                    0 <= k < steps@.len() ==> (#[trigger] steps@[k]).sql@ == migrations@[n + k].sql@
                        && steps@[k].entry@ == entry_of(migrations@[n + k])
            },
            v => r matches Err(e) && diverged_error(v, e),
        },
{
    let expected = expected_entries(migrations);
    let start = match verify_history(ledger, &expected) {
        Ok(n) => n,
        Err(e) => {
            return Err(e);
        },
    };
    proof {
        lemma_verdict_pending(entries_view(ledger@), expected_of(migrations@));
    }
    let mut steps: Vec<Step> = Vec::new();
    let mut i: usize = start;
    while i < migrations.len()
        invariant
            start <= i <= migrations@.len(),
            expected@.len() == migrations@.len(),
            entries_view(expected@) == expected_of(migrations@),
            verdict(entries_view(ledger@), expected_of(migrations@)) == Verdict::Pending(
                start as nat,
            ),
            steps@.len() == i - start,
            forall|k: int|
                0 <= k < steps@.len() ==> (#[trigger] steps@[k]).sql@ == migrations@[start + k].sql@
                    && steps@[k].entry@ == entry_of(migrations@[start + k]),
        decreases migrations@.len() - i,
    {
        let m = &migrations[i];
        proof {
            assert(entries_view(expected@)[i as int] == expected@[i as int]@);
            assert(expected_of(migrations@)[i as int] == entry_of(migrations@[i as int]));
        }
        steps.push(
            Step {
                sql: m.sql.clone(),
                entry: LedgerEntry { name: m.name.clone(), hash: expected[i].hash.clone() },
            },
        );
        i = i + 1;
    }
    Ok(steps)
}

/// Reconciles a migration list with the ledger as it was read, then applies the
/// new migrations in list order: runs each one's SQL, then records its entry.
/// Stops at the first migration that fails, leaving the later ones unrun.
/// `recorded` is set to the number of entries recorded. On success returns
/// them, in order: the ledger followed by them is the list's expected entries.
pub fn reconcile_and_apply(
    connection: &rusqlite::Connection,
    ledger: &Vec<LedgerEntry>,
    migrations: &Vec<Migration>,
    recorded: &mut usize,
) -> (r: Result<Vec<LedgerEntry>, Error>)
    ensures
        match verdict(entries_view(ledger@), expected_of(migrations@)) {
            Verdict::Pending(n) => {
                &&& n <= migrations@.len()
                &&& r matches Ok(added) ==> entries_view(added@) == expected_of(migrations@).skip(
                    n as int,
                ) && entries_view(ledger@) + entries_view(added@) == expected_of(migrations@)
                    && *final(recorded) == migrations@.len() - n
                &&& r matches Err(e) ==> n + *final(recorded) < migrations@.len() && exists|
                    cause: Seq<char>,
                | #[trigger] apply_failed(e, migrations@[n + *final(recorded)].name@, cause)
            },
            v => r matches Err(e) && diverged_error(v, e) && *final(recorded) == 0,
        },
{
    *recorded = 0;
    let steps = match pending_steps(ledger, migrations) {
        Ok(steps) => steps,
        Err(e) => {
            return Err(e);
        },
    };
    let ghost n = migrations@.len() - steps@.len();
    proof {
        lemma_verdict_pending(entries_view(ledger@), expected_of(migrations@));
    }
    let mut added: Vec<LedgerEntry> = Vec::new();
    let mut k: usize = 0;
    while k < steps.len()
        invariant
            k <= steps@.len(),
            *recorded == k,
            n == migrations@.len() - steps@.len(),
            0 <= n <= migrations@.len(),
            verdict(entries_view(ledger@), expected_of(migrations@)) == Verdict::Pending(n as nat),
            forall|q: int|
                0 <= q < steps@.len() ==> (#[trigger] steps@[q]).sql@ == migrations@[n + q].sql@
                    && steps@[q].entry@ == entry_of(migrations@[n + q]),
            added@.len() == k,
            forall|q: int| 0 <= q < k ==> (#[trigger] added@[q])@ == steps@[q].entry@,
        decreases steps@.len() - k,
    {
        let step = &steps[k];
        assert(step.entry@ == entry_of(migrations@[n + k]));
        assert(step.entry.name@ == migrations@[n + k].name@);
        match run_batch(connection, step.sql.as_str()) {
            Ok(()) => {},
            Err(err) => {
                let cause = error_text(&err);
                let text = String::from_str("Error executing migration: ").concat(
                    step.entry.name.as_str(),
                ).concat(". ").concat(cause.as_str());
                let e = Error::Migration(text);
                assert(apply_failed(e, migrations@[n + k].name@, cause@));
                assert(verdict(entries_view(ledger@), expected_of(migrations@)) matches Verdict::Pending(
                    m,
                ) && apply_failed(e, migrations@[m + *recorded].name@, cause@));
                return Err(e);
            },
        }
        match execute_with_texts(
            connection,
            ledger_insert_sql(),
            step.entry.name.as_str(),
            step.entry.hash.as_str(),
        ) {
            Ok(_) => {},
            Err(err) => {
                let cause = error_text(&err);
                let text = String::from_str("Error recording migration: ").concat(
                    step.entry.name.as_str(),
                ).concat(". ").concat(cause.as_str());
                let e = Error::Migration(text);
                assert(apply_failed(e, migrations@[n + k].name@, cause@));
                return Err(e);
            },
        }
        added.push(LedgerEntry { name: step.entry.name.clone(), hash: step.entry.hash.clone() });
        k = k + 1;
        *recorded = k;
    }
    proof {
        let l = entries_view(ledger@);
        let e = expected_of(migrations@);
        assert(entries_view(added@) =~= e.skip(n as int));
        assert(l + entries_view(added@) =~= e);
    }
    Ok(added)
}

/// Whether `e` is an error that reconciling `migrations` may report: a
/// shortened list, a modified migration, or a new migration that failed.
pub open spec fn migration_failure(e: Error, migrations: Seq<Migration>) -> bool {
    ||| is_migration(e, shortened_text())
    ||| exists|j: int| 0 <= j < migrations.len() && is_migration(e, modified_text(#[trigger] migrations[j].name@))
    ||| exists|j: int, cause: Seq<char>| 0 <= j < migrations.len() && #[trigger] apply_failed(e, migrations[j].name@, cause)
}

/// A divergence found at position `i` or later names a migration of the list.
proof fn lemma_modified_names(ledger: Seq<EntryView>, expected: Seq<EntryView>, i: nat)
    requires
        i <= ledger.len(),
    ensures
        verdict_from(ledger, expected, i) matches Verdict::Modified(name) ==> exists|j: int|
            i <= j < expected.len() && name == (#[trigger] expected[j]).0,
    decreases ledger.len() - i,
{
    if i < ledger.len() && i < expected.len() {
        if ledger[i as int] == expected[i as int] {
            lemma_modified_names(ledger, expected, i + 1);
        } else {
            assert(expected[i as int].0 == expected[i as int].0);
        }
    }
}

/// Brings the database up to date with a migration list: creates the ledger
/// table if it is absent, reads the ledger in application order, rejects a
/// diverged history and applies the migrations that are new.
pub fn execute_migration(connection: &rusqlite::Connection, migrations: Vec<Migration>) -> (r: Result<
    (),
    Error,
>)
    ensures
        r matches Err(e) ==> e is Database || migration_failure(e, migrations@),
{
    match run_batch(connection, ledger_table_sql()) {
        Ok(()) => {},
        Err(err) => {
            return Err(Error::Database(error_text(&err)));
        },
    }
    let ledger = match query_entries(connection, ledger_read_sql()) {
        Ok(entries) => entries,
        Err(err) => {
            return Err(Error::Database(error_text(&err)));
        },
    };
    let mut recorded: usize = 0;
    match reconcile_and_apply(connection, &ledger, &migrations, &mut recorded) {
        Ok(_) => Ok(()),
        Err(e) => {
            proof {
                let l = entries_view(ledger@);
                let x = expected_of(migrations@);
                lemma_modified_names(l, x, 0);
                match verdict(l, x) {
                    Verdict::Pending(n) => {
                        let j = n + recorded;
                        let cause = choose|cause: Seq<char>| apply_failed(e, migrations@[j].name@, cause);
                        assert(apply_failed(e, migrations@[j].name@, cause));
                    },
                    Verdict::Shortened => {},
                    Verdict::Modified(name) => {
                        let j = choose|j: int| 0 <= j < x.len() && name == (#[trigger] x[j]).0;
                        assert(x[j].0 == migrations@[j].name@);
                        assert(is_migration(e, modified_text(migrations@[j].name@)));
                    },
                }
            }
            Err(e)
        },
    }
}

proof fn lemma_verdict_skip(ledger: Seq<EntryView>, expected: Seq<EntryView>, k: nat, i: nat)
    requires
        k <= i <= ledger.len(),
        i <= expected.len(),
        forall|j: int| k <= j < i ==> ledger[j] == expected[j],
    ensures
        verdict_from(ledger, expected, k) == verdict_from(ledger, expected, i),
    decreases i - k,
{
    if k < i {
        lemma_verdict_skip(ledger, expected, k + 1, i);
    }
}

/// Reconciling again after a successful call finds the ledger complete: no
/// migration is pending, so the second call applies nothing and records no entry.
pub proof fn lemma_reconcile_idempotent(
    ledger: Seq<EntryView>,
    expected: Seq<EntryView>,
    added: Seq<EntryView>,
)
    requires
        verdict(ledger, expected) is Pending,
        ledger + added == expected,
    ensures
        verdict(ledger + added, expected) == Verdict::Pending(expected.len()),
        forall|again: Seq<EntryView>| (ledger + added) + again == expected ==> again.len() == 0,
{
    lemma_verdict_pending(ledger + added, expected);
    assert(expected.take(expected.len() as int) =~= expected);
}

/// Once a list is fully applied, reconciling a longer list that extends it
/// verifies the whole ledger and applies exactly the extra migrations, in order.
pub proof fn lemma_append_only(ledger: Seq<EntryView>, longer: Seq<EntryView>)
    requires
        is_prefix(ledger, longer),
    ensures
        verdict(ledger, longer) == Verdict::Pending(ledger.len()),
        forall|added: Seq<EntryView>|
            ledger + added == longer ==> added == longer.skip(ledger.len() as int),
{
    lemma_verdict_pending(ledger, longer);
    assert forall|added: Seq<EntryView>| ledger + added == longer implies added == longer.skip(
        ledger.len() as int,
    ) by {
        assert(added =~= longer.skip(ledger.len() as int));
    }
}

/// A migration whose name or fingerprint differs from the ledger entry at its
/// position, after agreeing entries, is rejected under the list's name for it.
pub proof fn lemma_tamper_by_content(ledger: Seq<EntryView>, expected: Seq<EntryView>, i: nat)
    requires
        i < ledger.len(),
        i < expected.len(),
        forall|j: int| 0 <= j < i ==> ledger[j] == expected[j],
        ledger[i as int] != expected[i as int],
    ensures
        verdict(ledger, expected) == Verdict::Modified(expected[i as int].0),
{
    lemma_verdict_skip(ledger, expected, 0, i);
}

/// Removing applied migrations from the end of the list is rejected as a
/// modified list.
pub proof fn lemma_tamper_by_removal(ledger: Seq<EntryView>, shorter: Seq<EntryView>)
    requires
        shorter.len() < ledger.len(),
        is_prefix(shorter, ledger),
    ensures
        verdict(ledger, shorter) == Verdict::Shortened,
{
    assert forall|j: int| 0 <= j < shorter.len() implies ledger[j] == shorter[j] by {
        assert(ledger.take(shorter.len() as int)[j] == ledger[j]);
    }
    lemma_verdict_skip(ledger, shorter, 0, shorter.len());
}

} // verus!
