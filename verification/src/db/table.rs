//! Tables: rows under the keys that tell them apart.
use vstd::prelude::*;

#[allow(unused_imports)]
use crate::model::{DeploymentRowView, ProjectStateRowView};

verus! {

/// A row with a key.
pub trait Row: Sized {
    /// The key of the row.
    spec fn key(self) -> Seq<char>;
}

impl Row for DeploymentRowView {
    open spec fn key(self) -> Seq<char> {
        self.id
    }
}

impl Row for ProjectStateRowView {
    open spec fn key(self) -> Seq<char> {
        self.project_id
    }
}

/// The rows of a list under their keys.
pub open spec fn table<R: Row>(rows: Seq<R>) -> Map<Seq<char>, R>
    decreases rows.len(),
{
    if rows.len() == 0 {
        Map::empty()
    } else {
        table(rows.drop_last()).insert(rows.last().key(), rows.last())
    }
}

/// A table holds finitely many rows.
pub proof fn table_is_finite<R: Row>(rows: Seq<R>)
    ensures
        table(rows).dom().finite(),
    decreases rows.len(),
{
    if rows.len() > 0 {
        table_is_finite(rows.drop_last());
    }
}

/// Whether no two rows of a list share a key.
pub open spec fn distinct<R: Row>(rows: Seq<R>) -> bool {
    forall|i: int, j: int|
        0 <= i < j < rows.len() ==> (#[trigger] rows[i]).key() != (#[trigger] rows[j]).key()
}

/// The table of a list holds each of its rows under the key of that row, and nothing else.
pub proof fn table_holds_the_rows<R: Row>(rows: Seq<R>)
    requires
        distinct(rows),
    ensures
        forall|i: int|
            0 <= i < rows.len() ==> table(rows).contains_key((#[trigger] rows[i]).key()) && table(
                rows,
            )[rows[i].key()] == rows[i],
        forall|key: Seq<char>| #[trigger]
            table(rows).contains_key(key) ==> exists|i: int|
                0 <= i < rows.len() && (#[trigger] rows[i]).key() == key,
    decreases rows.len(),
{
    if rows.len() > 0 {
        let before = rows.drop_last();
        table_holds_the_rows(before);
        assert forall|i: int| 0 <= i < rows.len() implies table(rows).contains_key(
            (#[trigger] rows[i]).key(),
        ) && table(rows)[rows[i].key()] == rows[i] by {
            if i < before.len() {
                assert(before[i] == rows[i]);
                assert(rows[i].key() != rows[rows.len() - 1].key());
            }
        }
        assert forall|key: Seq<char>| #[trigger] table(rows).contains_key(key) implies exists|i: int|
            0 <= i < rows.len() && (#[trigger] rows[i]).key() == key by {
            if key == rows.last().key() {
                assert(rows[rows.len() - 1].key() == key);
            } else {
                assert(table(before).contains_key(key));
                let i = choose|i: int| 0 <= i < before.len() && (#[trigger] before[i]).key() == key;
                assert(rows[i].key() == key);
            }
        }
    }
}

/// The position of a row with a key.
pub open spec fn position<R: Row>(rows: Seq<R>, key: Seq<char>) -> int {
    choose|i: int| 0 <= i < rows.len() && (#[trigger] rows[i]).key() == key
}

/// A table is determined by which rows it holds.
pub proof fn table_is<R: Row>(rows: Seq<R>, wanted: Map<Seq<char>, R>)
    requires
        distinct(rows),
        forall|i: int|
            0 <= i < rows.len() ==> wanted.contains_key((#[trigger] rows[i]).key())
                && wanted[rows[i].key()] == rows[i],
        forall|key: Seq<char>| #[trigger]
            wanted.contains_key(key) ==> exists|i: int|
                0 <= i < rows.len() && (#[trigger] rows[i]).key() == key,
    ensures
        table(rows) == wanted,
{
    table_holds_the_rows(rows);
    assert forall|key: Seq<char>| #[trigger] table(rows).contains_key(key) implies wanted.contains_key(
        key,
    ) && wanted[key] == table(rows)[key] by {
        let i = position(rows, key);
        assert(rows[i].key() == key);
    }
    assert forall|key: Seq<char>| #[trigger] wanted.contains_key(key) implies table(
        rows,
    ).contains_key(key) by {
        let i = position(rows, key);
        assert(rows[i].key() == key);
    }
    assert(table(rows) =~= wanted);
}

/// Replacing a row by one with the same key changes the table at that key.
pub proof fn table_of_update<R: Row>(rows: Seq<R>, i: int, row: R)
    requires
        distinct(rows),
        0 <= i < rows.len(),
        row.key() == rows[i].key(),
    ensures
        distinct(rows.update(i, row)),
        table(rows.update(i, row)) == table(rows).insert(row.key(), row),
{
    let after = rows.update(i, row);
    assert forall|a: int, b: int| 0 <= a < b < after.len() implies (#[trigger] after[a]).key() != (
    #[trigger] after[b]).key() by {
        assert(rows[a].key() != rows[b].key());
    }
    table_holds_the_rows(rows);
    let wanted = table(rows).insert(row.key(), row);
    assert forall|j: int| 0 <= j < after.len() implies wanted.contains_key(
        (#[trigger] after[j]).key(),
    ) && wanted[after[j].key()] == after[j] by {
        if j != i {
            assert(after[j] == rows[j]);
            if j < i {
                assert(rows[j].key() != rows[i].key());
            } else {
                assert(rows[i].key() != rows[j].key());
            }
        }
    }
    assert forall|key: Seq<char>| #[trigger] wanted.contains_key(key) implies exists|j: int|
        0 <= j < after.len() && (#[trigger] after[j]).key() == key by {
        if key == row.key() {
            assert(after[i].key() == key);
        } else {
            let j = position(rows, key);
            assert(rows[j].key() == key);
            assert(after[j].key() == key);
        }
    }
    table_is(after, wanted);
}

/// Adding a row with a new key adds it to the table.
pub proof fn table_of_push<R: Row>(rows: Seq<R>, row: R)
    requires
        distinct(rows),
        !table(rows).contains_key(row.key()),
    ensures
        distinct(rows.push(row)),
        table(rows.push(row)) == table(rows).insert(row.key(), row),
{
    table_holds_the_rows(rows);
    let after = rows.push(row);
    assert(after.drop_last() =~= rows);
    assert forall|a: int, b: int| 0 <= a < b < after.len() implies (#[trigger] after[a]).key() != (
    #[trigger] after[b]).key() by {
        assert(after[a] == rows[a]);
        if b < rows.len() {
            assert(after[b] == rows[b]);
        } else {
            assert(table(rows).contains_key(rows[a].key()));
        }
    }
}

/// Whether a row is one of the first of a list that is kept, with its change.
pub open spec fn kept_from<R: Row>(
    rows: Seq<R>,
    count: int,
    row: R,
    keep: spec_fn(R) -> bool,
    change: spec_fn(R) -> R,
) -> bool {
    exists|j: int| 0 <= j < count && keep(#[trigger] rows[j]) && row == change(rows[j])
}

/// Whether a list holds, in some order, the rows among the first of another that are kept, each
/// with a change.
pub open spec fn filtered<R: Row>(
    rows: Seq<R>,
    count: int,
    kept: Seq<R>,
    keep: spec_fn(R) -> bool,
    change: spec_fn(R) -> R,
) -> bool {
    &&& distinct(kept)
    &&& forall|k: int|
        0 <= k < kept.len() ==> kept_from(rows, count, #[trigger] kept[k], keep, change)
    &&& forall|j: int|
        0 <= j < count && keep(#[trigger] rows[j]) ==> kept.contains(change(rows[j]))
}

/// One more row is considered: it is kept with its change, or not.
pub proof fn filtered_grows<R: Row>(
    rows: Seq<R>,
    count: int,
    kept: Seq<R>,
    keep: spec_fn(R) -> bool,
    change: spec_fn(R) -> R,
)
    requires
        distinct(rows),
        0 <= count < rows.len(),
        filtered(rows, count, kept, keep, change),
        forall|row: R| (#[trigger] change(row)).key() == row.key(),
    ensures
        keep(rows[count]) ==> filtered(rows, count + 1, kept.push(change(rows[count])), keep, change),
        !keep(rows[count]) ==> filtered(rows, count + 1, kept, keep, change),
{
    assert forall|row: R| kept_from(rows, count, row, keep, change) implies #[trigger] kept_from(
        rows,
        count + 1,
        row,
        keep,
        change,
    ) by {
        let j = choose|j: int|
            0 <= j < count && keep(#[trigger] rows[j]) && row == change(rows[j]);
        assert(keep(rows[j]));
    }
    if keep(rows[count]) {
        let new = change(rows[count]);
        let after = kept.push(new);
        assert(kept_from(rows, count + 1, new, keep, change));
        assert forall|a: int, b: int| 0 <= a < b < after.len() implies (#[trigger] after[a]).key() != (
        #[trigger] after[b]).key() by {
            assert(after[a] == kept[a]);
            if b < kept.len() {
                assert(after[b] == kept[b]);
            } else {
                let row = kept[a];
                assert(kept_from(rows, count, row, keep, change));
                let j = choose|j: int|
                    0 <= j < count && keep(#[trigger] rows[j]) && row == change(rows[j]);
                assert(rows[j].key() != rows[count].key());
                assert(change(rows[j]).key() == rows[j].key());
                assert(change(rows[count]).key() == rows[count].key());
            }
        }
        assert forall|k: int| 0 <= k < after.len() implies kept_from(
            rows,
            count + 1,
            #[trigger] after[k],
            keep,
            change,
        ) by {
            if k < kept.len() {
                assert(after[k] == kept[k]);
                assert(kept_from(rows, count, kept[k], keep, change));
            }
        }
        assert forall|j: int| 0 <= j < count + 1 && keep(#[trigger] rows[j]) implies after.contains(
            change(rows[j]),
        ) by {
            if j < count {
                let row = change(rows[j]);
                assert(kept.contains(row));
                let k = choose|k: int| 0 <= k < kept.len() && kept[k] == row;
                assert(after[k] == row);
            } else {
                assert(after[kept.len() as int] == new);
            }
        }
    } else {
        assert forall|k: int| 0 <= k < kept.len() implies kept_from(
            rows,
            count + 1,
            #[trigger] kept[k],
            keep,
            change,
        ) by {
            assert(kept_from(rows, count, kept[k], keep, change));
        }
        assert forall|j: int| 0 <= j < count + 1 && keep(#[trigger] rows[j]) implies kept.contains(
            change(rows[j]),
        ) by {
            assert(j < count);
        }
    }
}

/// The table of the rows that are kept is what is kept of the table.
pub proof fn table_of_filtered<R: Row>(
    rows: Seq<R>,
    kept: Seq<R>,
    keep: spec_fn(R) -> bool,
    change: spec_fn(R) -> R,
    wanted: Map<Seq<char>, R>,
)
    requires
        distinct(rows),
        filtered(rows, rows.len() as int, kept, keep, change),
        forall|row: R| (#[trigger] change(row)).key() == row.key(),
        forall|key: Seq<char>| #[trigger]
            wanted.contains_key(key) <==> table(rows).contains_key(key) && keep(table(rows)[key]),
        forall|key: Seq<char>| #[trigger]
            wanted.contains_key(key) ==> wanted[key] == change(table(rows)[key]),
    ensures
        table(kept) == wanted,
{
    table_holds_the_rows(rows);
    assert forall|k: int| 0 <= k < kept.len() implies wanted.contains_key(
        (#[trigger] kept[k]).key(),
    ) && wanted[kept[k].key()] == kept[k] by {
        let row = kept[k];
        assert(kept_from(rows, rows.len() as int, row, keep, change));
        let j = choose|j: int|
            0 <= j < rows.len() && keep(#[trigger] rows[j]) && row == change(rows[j]);
        assert(change(rows[j]).key() == rows[j].key());
        assert(table(rows)[rows[j].key()] == rows[j]);
    }
    assert forall|key: Seq<char>| #[trigger] wanted.contains_key(key) implies exists|k: int|
        0 <= k < kept.len() && (#[trigger] kept[k]).key() == key by {
        let j = position(rows, key);
        assert(rows[j].key() == key);
        assert(keep(rows[j]));
        let row = change(rows[j]);
        assert(kept.contains(row));
        let k = choose|k: int| 0 <= k < kept.len() && kept[k] == row;
        assert(change(rows[j]).key() == key);
        assert(kept[k].key() == key);
    }
    table_is(kept, wanted);
}

} // verus!
