//! Applying deltas to plain name columns: one bound `UPDATE` per rename and
//! target of its kind. Running them is the database's.

use vstd::prelude::*;

use crate::names::feed::{NameDeltas, Rename};
use crate::names::target::{NameKind, NameTarget};
use crate::text::{append, owned};

verus! {

/// One statement: the SQL and its two bound values, new then old.
#[derive(Debug, Clone, PartialEq, Eq)]
pub struct RenameStatement {
    pub sql: String,
    pub current: String,
    pub old: String,
    pub table: &'static str,
    pub column: &'static str,
}

/// `UPDATE <table> SET <column> = ? WHERE <column> = ?`.
pub open spec fn update_sql(table: Seq<char>, column: Seq<char>) -> Seq<char> {
    "UPDATE "@ + table + " SET "@ + column + " = ? WHERE "@ + column + " = ?"@
}

pub struct StatementV {
    pub sql: Seq<char>,
    pub current: Seq<char>,
    pub old: Seq<char>,
    pub table: Seq<char>,
    pub column: Seq<char>,
}

pub open spec fn statement_view(s: RenameStatement) -> StatementV {
    StatementV { sql: s.sql@, current: s.current@, old: s.old@, table: s.table@, column: s.column@ }
}

/// The statements of one target, one per rename of its kind.
pub open spec fn target_statements(t: NameTarget, renames: Seq<Rename>) -> Seq<StatementV>
    decreases renames.len(),
{
    if renames.len() == 0 {
        seq![]
    } else {
        target_statements(t, renames.drop_last()).push(
            StatementV {
                sql: update_sql(t.table@, t.column@),
                current: renames.last().current@,
                old: renames.last().old@,
                table: t.table@,
                column: t.column@,
            },
        )
    }
}

pub open spec fn renames_for(kind: NameKind, d: NameDeltas) -> Seq<Rename> {
    match kind {
        NameKind::User => d.users@,
        NameKind::Group => d.groups@,
    }
}

/// Every statement, target by target in order.
pub open spec fn all_statements(targets: Seq<NameTarget>, d: NameDeltas) -> Seq<StatementV>
    decreases targets.len(),
{
    if targets.len() == 0 {
        seq![]
    } else {
        all_statements(targets.drop_last(), d) + target_statements(
            targets.last(),
            renames_for(targets.last().kind, d),
        )
    }
}

proof fn lemma_target_statements(t: NameTarget, renames: Seq<Rename>)
    ensures
        target_statements(t, renames).len() == renames.len(),
        forall|k: int|
            0 <= k < renames.len() ==> #[trigger] target_statements(t, renames)[k] == (StatementV {
                sql: update_sql(t.table@, t.column@),
                current: renames[k].current@,
                old: renames[k].old@,
                table: t.table@,
                column: t.column@,
            }),
    decreases renames.len(),
{
    if renames.len() > 0 {
        lemma_target_statements(t, renames.drop_last());
    }
}

/// One statement per rename of a target's kind, in the feed's order: the
/// `k`-th binds the `k`-th rename's new and old names and targets that
/// table and column; the targets' statements follow one another.
pub proof fn lemma_rename_statements(targets: Seq<NameTarget>, more: Seq<NameTarget>, d: NameDeltas, t: NameTarget)
    ensures
        all_statements(targets + more, d) == all_statements(targets, d) + all_statements(more, d),
        ({
            let renames = renames_for(t.kind, d);
            let got = all_statements(seq![t], d);
            &&& got.len() == renames.len()
            &&& forall|k: int|
                0 <= k < renames.len() ==> {
                    &&& (#[trigger] got[k]).current == renames[k].current@
                    &&& got[k].old == renames[k].old@
                    &&& got[k].table == t.table@
                    &&& got[k].column == t.column@
                    &&& got[k].sql == "UPDATE "@ + t.table@ + " SET "@ + t.column@ + " = ? WHERE "@
                        + t.column@ + " = ?"@
                }
        }),
    decreases more.len(),
{
    if more.len() == 0 {
        assert(targets + more =~= targets);
        assert(all_statements(targets, d) + all_statements(more, d) =~= all_statements(targets, d));
    } else {
        lemma_rename_statements(targets, more.drop_last(), d, t);
        assert((targets + more).drop_last() =~= targets + more.drop_last());
        assert((targets + more).last() == more.last());
        assert(all_statements(targets + more, d) =~= all_statements(targets, d) + all_statements(more, d));
    }
    let one = seq![t];
    assert(one.drop_last() =~= Seq::<NameTarget>::empty());
    assert(one.last() == t);
    assert(all_statements(one.drop_last(), d) =~= Seq::<StatementV>::empty());
    lemma_target_statements(t, renames_for(t.kind, d));
    assert(all_statements(one, d) =~= target_statements(t, renames_for(t.kind, d)));
}

/// The statements that rewrite each target column old → current, users
/// against the user renames and groups against the group renames.
pub fn rename_statements(targets: &[NameTarget], deltas: &NameDeltas) -> (r: Vec<RenameStatement>)
    ensures
        r@.map_values(|s: RenameStatement| statement_view(s)) == all_statements(targets@, *deltas),
{
    let mut out: Vec<RenameStatement> = Vec::new();
    let mut i: usize = 0;
    assert(targets@.take(0) =~= Seq::<NameTarget>::empty());
    while i < targets.len()
        invariant
            i <= targets.len(),
            out@.map_values(|s: RenameStatement| statement_view(s)) == all_statements(
                targets@.take(i as int),
                *deltas,
            ),
        decreases targets.len() - i,
    {
        let t = targets[i];
        assert(targets@.take(i + 1).drop_last() =~= targets@.take(i as int));
        assert(targets@.take(i + 1).last() == t);
        let renames: &Vec<Rename> = match t.kind {
            NameKind::User => &deltas.users,
            NameKind::Group => &deltas.groups,
        };
        let mut sql = owned("UPDATE ");
        append(&mut sql, t.table);
        append(&mut sql, " SET ");
        append(&mut sql, t.column);
        append(&mut sql, " = ? WHERE ");
        append(&mut sql, t.column);
        append(&mut sql, " = ?");
        let ghost base = out@.map_values(|s: RenameStatement| statement_view(s));
        let mut j: usize = 0;
        assert(renames@.take(0) =~= Seq::<Rename>::empty());
        assert(base + target_statements(t, renames@.take(0)) =~= base);
        while j < renames.len()
            invariant
                j <= renames.len(),
                sql@ == update_sql(t.table@, t.column@),
                out@.map_values(|s: RenameStatement| statement_view(s)) == base + target_statements(
                    t,
                    renames@.take(j as int),
                ),
            decreases renames.len() - j,
        {
            assert(renames@.take(j + 1).drop_last() =~= renames@.take(j as int));
            assert(renames@.take(j + 1).last() == renames@[j as int]);
            let ghost before = out@;
            let st = RenameStatement {
                sql: sql.clone(),
                current: renames[j].current.clone(),
                old: renames[j].old.clone(),
                table: t.table,
                column: t.column,
            };
            out.push(st);
            assert(out@.map_values(|s: RenameStatement| statement_view(s)) =~= before.map_values(
                |s: RenameStatement| statement_view(s),
            ).push(statement_view(st)));
            j = j + 1;
        }
        assert(renames@.take(j as int) =~= renames@);
        i = i + 1;
    }
    assert(targets@.take(i as int) =~= targets@);
    out
}

/// The message of a failed rename statement.
pub fn rename_failure(st: &RenameStatement, error: &str) -> (r: String)
    ensures
        r@ == "renaming "@ + st.table@ + "."@ + st.column@ + " "@ + st.old@ + " -> "@
            + st.current@ + ": "@ + error@,
{
    let mut s = owned("renaming ");
    append(&mut s, st.table);
    append(&mut s, ".");
    append(&mut s, st.column);
    append(&mut s, " ");
    append(&mut s, st.old.as_str());
    append(&mut s, " -> ");
    append(&mut s, st.current.as_str());
    append(&mut s, ": ");
    append(&mut s, error);
    s
}

} // verus!
