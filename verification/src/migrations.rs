//! Database migrations: each is applied once, inside a transaction that also
//! records it.
use vstd::prelude::*;
use vstd::string::*;

use crate::text::push_str;

verus! {

broadcast use vstd::string::group_string_axioms;

/// The script that applies migration `name` with statements `sql` and
/// records it in `_migrations`, all in one transaction.
pub open spec fn migration_script_text(name: Seq<char>, sql: Seq<char>) -> Seq<char> {
    "BEGIN TRANSACTION;\n"@ + sql + "\nCREATE _migrations:"@ + name
        + " SET applied_at = time::now();\nCOMMIT TRANSACTION;"@
}

/// Writes the script that applies and records migration `name`.
pub fn migration_script(name: &str, sql: &str) -> (s: String)
    ensures
        s@ == migration_script_text(name@, sql@),
{
    let mut s = String::from_str("BEGIN TRANSACTION;\n");
    push_str(&mut s, sql);
    push_str(&mut s, "\nCREATE _migrations:");
    push_str(&mut s, name);
    push_str(&mut s, " SET applied_at = time::now();\nCOMMIT TRANSACTION;");
    s
}

/// The query that looks up whether migration `name` was applied.
pub fn migration_lookup(name: &str) -> (s: String)
    ensures
        s@ == "SELECT * FROM _migrations:"@ + name@,
{
    let mut s = String::from_str("SELECT * FROM _migrations:");
    push_str(&mut s, name);
    s
}

/// The script to run for migration `name` with statements `sql`, given
/// whether the migration is already recorded as applied: none when it is, so
/// that each migration is applied once, and otherwise `migration_script`.
pub fn migration_step(recorded: bool, name: &str, sql: &str) -> (r: Option<String>)
    ensures
        r is None <==> recorded,
        r matches Some(s) ==> s@ == migration_script_text(name@, sql@),
{
    if recorded {
        None
    } else {
        Some(migration_script(name, sql))
    }
}

/// A run over `migrations` (name and statements, in order) when the names in
/// `recorded` are already recorded: each migration not yet recorded has its
/// script executed and its name recorded, as `migration_step` decides. The
/// scripts executed, in order, and the names recorded afterwards.
pub open spec fn migration_run(
    migrations: Seq<(Seq<char>, Seq<char>)>,
    recorded: Set<Seq<char>>,
) -> (Seq<Seq<char>>, Set<Seq<char>>)
    decreases migrations.len(),
{
    if migrations.len() == 0 {
        (Seq::empty(), recorded)
    } else {
        let name = migrations[0].0;
        let sql = migrations[0].1;
        if recorded.contains(name) {
            migration_run(migrations.drop_first(), recorded)
        } else {
            let rest = migration_run(migrations.drop_first(), recorded.insert(name));
            (seq![migration_script_text(name, sql)] + rest.0, rest.1)
        }
    }
}

proof fn lemma_run_records_all(migrations: Seq<(Seq<char>, Seq<char>)>, recorded: Set<Seq<char>>)
    ensures
        forall|x: Seq<char>| recorded.contains(x) ==> #[trigger] migration_run(migrations, recorded).1.contains(x),
        forall|i: int| 0 <= i < migrations.len() ==> migration_run(migrations, recorded).1.contains(
            #[trigger] migrations[i].0,
        ),
    decreases migrations.len(),
{
    if migrations.len() > 0 {
        let name = migrations[0].0;
        let next = if recorded.contains(name) { recorded } else { recorded.insert(name) };
        lemma_run_records_all(migrations.drop_first(), next);
        let after = migration_run(migrations, recorded).1;
        assert(after == migration_run(migrations.drop_first(), next).1);
        assert forall|x: Seq<char>| recorded.contains(x) implies #[trigger] after.contains(x) by {
            assert(next.contains(x));
        }
        assert(next.contains(name));
        assert forall|i: int| 0 <= i < migrations.len() implies migration_run(migrations, recorded).1.contains(
            #[trigger] migrations[i].0,
        ) by {
            if i > 0 {
                assert(migrations.drop_first()[i - 1] == migrations[i]);
            }
        }
    }
}

proof fn lemma_run_of_recorded(migrations: Seq<(Seq<char>, Seq<char>)>, recorded: Set<Seq<char>>)
    requires
        forall|i: int| 0 <= i < migrations.len() ==> recorded.contains(#[trigger] migrations[i].0),
    ensures
        migration_run(migrations, recorded).0.len() == 0,
        migration_run(migrations, recorded).1 == recorded,
    decreases migrations.len(),
{
    if migrations.len() > 0 {
        let rest = migrations.drop_first();
        assert forall|i: int| 0 <= i < rest.len() implies recorded.contains(#[trigger] rest[i].0) by {
            assert(rest[i] == migrations[i + 1]);
        }
        assert(recorded.contains(migrations[0].0));
        lemma_run_of_recorded(rest, recorded);
    }
}

/// Migrating is idempotent: after a run, every migration is recorded, so a
/// second run over the same migrations executes no script and records
/// nothing new.
pub proof fn lemma_migrations_idempotent(migrations: Seq<(Seq<char>, Seq<char>)>, recorded: Set<Seq<char>>)
    ensures
        ({
            let after = migration_run(migrations, recorded).1;
            &&& forall|i: int| 0 <= i < migrations.len() ==> after.contains(#[trigger] migrations[i].0)
            &&& migration_run(migrations, after).0.len() == 0
            &&& migration_run(migrations, after).1 == after
        }),
{
    lemma_run_records_all(migrations, recorded);
    lemma_run_of_recorded(migrations, migration_run(migrations, recorded).1);
}

} // verus!
