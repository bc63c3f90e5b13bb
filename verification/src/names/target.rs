//! Which stored columns hold names, and of which kind.

use vstd::prelude::*;

verus! {

#[derive(Debug, Clone, Copy, PartialEq, Eq, Structural)]
pub enum NameKind {
    User,
    Group,
}

#[derive(Debug, Clone, Copy, PartialEq, Eq)]
pub struct NameTarget {
    pub table: &'static str,
    pub column: &'static str,
    pub kind: NameKind,
}

/// A row type's name columns.
pub trait NameColumns {
    fn name_targets() -> Vec<NameTarget>;
}

/// The targets a row type declares: every column marked with a kind, in
/// field order, under the row's table; unmarked columns are left out.
pub open spec fn targets_spec(
    table: &'static str,
    fields: Seq<(&'static str, Option<NameKind>)>,
) -> Seq<NameTarget>
    decreases fields.len(),
{
    if fields.len() == 0 {
        seq![]
    } else {
        let rest = targets_spec(table, fields.drop_last());
        match fields.last().1 {
            Some(kind) => rest.push(NameTarget { table, column: fields.last().0, kind }),
            None => rest,
        }
    }
}

pub fn name_targets_of(table: &'static str, fields: &[(&'static str, Option<NameKind>)]) -> (r: Vec<
    NameTarget,
>)
    ensures
        r@ == targets_spec(table, fields@),
{
    let mut out: Vec<NameTarget> = Vec::new();
    let mut i: usize = 0;
    assert(fields@.take(0) =~= Seq::<(&'static str, Option<NameKind>)>::empty());
    while i < fields.len()
        invariant
            i <= fields.len(),
            out@ == targets_spec(table, fields@.take(i as int)),
        decreases fields.len() - i,
    {
        assert(fields@.take(i + 1).drop_last() =~= fields@.take(i as int));
        assert(fields@.take(i + 1).last() == fields@[i as int]);
        let (column, kind) = fields[i];
        match kind {
            Some(k) => out.push(NameTarget { table, column, kind: k }),
            None => {},
        }
        i = i + 1;
    }
    assert(fields@.take(i as int) =~= fields@);
    out
}

} // verus!
