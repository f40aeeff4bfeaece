use crate::column_path::{key_of, PathMemberView};
use crate::model::{
    absorbed, absorbed_path, absorbed_record, accumulated, all_wrappers, contribution,
    distinct_keys, extended, first_seen, gathered, gathered_record, has_column, is_wrapper,
    keys_of, row_at, synthesized, well_formed, width, with_new, ColumnView,
};
use crate::nu::resolved;
use crate::value::ValueView;
use vstd::prelude::*;

verus! {

// Taking entries in under a key.

/// The keys of the columns, in the columns' order.
spec fn column_keys(columns: Seq<ColumnView>) -> Seq<Seq<char>> {
    Seq::new(columns.len(), |k: int| columns[k].key)
}

proof fn lemma_has_column_keys(columns: Seq<ColumnView>, key: Seq<char>)
    ensures
        has_column(columns, key) <==> column_keys(columns).contains(key),
{
    let keys = column_keys(columns);
    if has_column(columns, key) {
        let i = choose|i: int| 0 <= i < columns.len() && (#[trigger] columns[i]).key == key;
        assert(keys[i] == key);
    }
}

/// Taking entries in under a key keeps the order of the keys; only a key not
/// seen before is added, and it goes last.
proof fn lemma_extended_keys(columns: Seq<ColumnView>, key: Seq<char>, more: Seq<ValueView>)
    ensures
        column_keys(extended(columns, key, more)) == if column_keys(columns).contains(key) {
            column_keys(columns)
        } else {
            column_keys(columns).push(key)
        },
{
    lemma_has_column_keys(columns, key);
}

proof fn lemma_extended_distinct(columns: Seq<ColumnView>, key: Seq<char>, more: Seq<ValueView>)
    requires
        distinct_keys(columns),
    ensures
        distinct_keys(extended(columns, key, more)),
{
}

/// A well-formed map stays so when wrapper records of `key` come in under `key`.
pub proof fn lemma_extended_well_formed(
    columns: Seq<ColumnView>,
    key: Seq<char>,
    more: Seq<ValueView>,
)
    requires
        well_formed(columns),
        all_wrappers(more, key),
    ensures
        well_formed(extended(columns, key, more)),
{
}

/// The entries kept under `key`; none where no column has that key.
spec fn entries_under(columns: Seq<ColumnView>, key: Seq<char>) -> Seq<ValueView>
    decreases columns.len(),
{
    if columns.len() == 0 {
        Seq::empty()
    } else if columns.last().key == key {
        columns.last().entries
    } else {
        entries_under(columns.drop_last(), key)
    }
}

proof fn lemma_entries_under_absent(columns: Seq<ColumnView>, key: Seq<char>)
    requires
        !has_column(columns, key),
    ensures
        entries_under(columns, key) == Seq::<ValueView>::empty(),
    decreases columns.len(),
{
    if columns.len() > 0 {
        lemma_entries_under_absent(columns.drop_last(), key);
    }
}

proof fn lemma_entries_under_present(columns: Seq<ColumnView>, k: int)
    requires
        distinct_keys(columns),
        0 <= k < columns.len(),
    ensures
        entries_under(columns, columns[k].key) == columns[k].entries,
    decreases columns.len(),
{
    if k < columns.len() - 1 {
        let front = columns.drop_last();
        lemma_entries_under_present(front, k);
    }
}

proof fn lemma_extended_entries(
    columns: Seq<ColumnView>,
    key: Seq<char>,
    more: Seq<ValueView>,
    other: Seq<char>,
)
    requires
        distinct_keys(columns),
    ensures
        entries_under(extended(columns, key, more), other) == if other == key {
            entries_under(columns, other) + more
        } else {
            entries_under(columns, other)
        },
{
    let after = extended(columns, key, more);
    lemma_extended_distinct(columns, key, more);
    if has_column(columns, key) {
        if has_column(columns, other) {
            let j = choose|j: int| 0 <= j < columns.len() && (#[trigger] columns[j]).key == other;
            lemma_entries_under_present(columns, j);
            lemma_entries_under_present(after, j);
        } else {
            lemma_entries_under_absent(columns, other);
            lemma_entries_under_absent(after, other);
        }
    } else {
        assert(after.drop_last() =~= columns);
        if other == key {
            lemma_entries_under_absent(columns, key);
        }
    }
}

// First-seen order.

proof fn lemma_with_new_keeps(seen: Seq<Seq<char>>, keys: Seq<Seq<char>>)
    ensures
        forall|i: int| 0 <= i < seen.len() ==> with_new(seen, keys).contains(#[trigger] seen[i]),
        forall|j: int| 0 <= j < keys.len() ==> with_new(seen, keys).contains(#[trigger] keys[j]),
    decreases keys.len(),
{
    let after = with_new(seen, keys);
    if keys.len() > 0 {
        let before = with_new(seen, keys.drop_last());
        lemma_with_new_keeps(seen, keys.drop_last());
        assert forall|x: Seq<char>| before.contains(x) implies after.contains(x) by {
            let i = choose|i: int| 0 <= i < before.len() && before[i] == x;
            assert(after[i] == x);
        }
        assert forall|j: int| 0 <= j < keys.len() implies after.contains(#[trigger] keys[j]) by {
            if j < keys.len() - 1 {
                assert(before.contains(keys.drop_last()[j]));
            } else {
                if !before.contains(keys.last()) {
                    assert(after[after.len() - 1] == keys.last());
                }
            }
        }
    }
}

proof fn lemma_with_new_nothing(seen: Seq<Seq<char>>, keys: Seq<Seq<char>>)
    requires
        forall|j: int| 0 <= j < keys.len() ==> seen.contains(#[trigger] keys[j]),
    ensures
        with_new(seen, keys) == seen,
    decreases keys.len(),
{
    if keys.len() > 0 {
        lemma_with_new_nothing(seen, keys.drop_last());
    }
}

proof fn lemma_with_new_only(seen: Seq<Seq<char>>, keys: Seq<Seq<char>>)
    requires
        seen.no_duplicates(),
    ensures
        with_new(seen, keys).no_duplicates(),
        forall|i: int|
            0 <= i < with_new(seen, keys).len() ==> seen.contains(
                #[trigger] with_new(seen, keys)[i],
            ) || keys.contains(with_new(seen, keys)[i]),
    decreases keys.len(),
{
    let after = with_new(seen, keys);
    if keys.len() > 0 {
        lemma_with_new_only(seen, keys.drop_last());
        assert forall|i: int| 0 <= i < after.len() implies seen.contains(#[trigger] after[i])
            || keys.contains(after[i]) by {}
    }
}

/// What first-seen order is: every key is there, nothing else is, and nothing
/// is there twice.
pub proof fn lemma_first_seen(keys: Seq<Seq<char>>)
    ensures
        first_seen(keys).no_duplicates(),
        forall|j: int| 0 <= j < keys.len() ==> first_seen(keys).contains(#[trigger] keys[j]),
        forall|i: int|
            0 <= i < first_seen(keys).len() ==> keys.contains(#[trigger] first_seen(keys)[i]),
{
    lemma_with_new_keeps(Seq::empty(), keys);
    lemma_with_new_only(Seq::empty(), keys);
}

// Taking records in.

/// What a look-up gives to its column are wrapper records of the column's key.
pub proof fn lemma_contribution_wrappers(key: Seq<char>, found: Result<ValueView, PathMemberView>)
    ensures
        all_wrappers(contribution(key, found), key),
{
}

/// Table flattening: a table that was found gives its column one entry per
/// item, any other value that was found gives one, and a look-up that found
/// nothing gives none.
pub proof fn lemma_contribution_len(key: Seq<char>, found: Result<ValueView, PathMemberView>)
    ensures
        found matches Ok(ValueView::Table(items)) ==> contribution(key, found).len()
            == items.len(),
        found is Ok && !(found->Ok_0 is Table) ==> contribution(key, found).len() == 1,
        found is Err ==> contribution(key, found).len() == 0,
{
}

/// One look-up touches one column only: the column of the path's key grows by
/// what the look-up gives, and every other column stays as it was.
pub proof fn lemma_absorbed_path_column(
    columns: Seq<ColumnView>,
    record: ValueView,
    path: Seq<PathMemberView>,
    k: int,
)
    requires
        0 <= k < columns.len(),
    ensures
        k < absorbed_path(columns, record, path).len(),
        absorbed_path(columns, record, path)[k].key == columns[k].key,
        absorbed_path(columns, record, path)[k].entries == if columns[k].key == key_of(path) {
            columns[k].entries + contribution(key_of(path), resolved(record, path))
        } else {
            columns[k].entries
        },
{
}

proof fn lemma_absorbed_record_keys(
    columns: Seq<ColumnView>,
    record: ValueView,
    paths: Seq<Seq<PathMemberView>>,
)
    ensures
        column_keys(absorbed_record(columns, record, paths)) == with_new(
            column_keys(columns),
            keys_of(paths),
        ),
    decreases paths.len(),
{
    if paths.len() > 0 {
        lemma_absorbed_record_keys(columns, record, paths.drop_last());
        let before = absorbed_record(columns, record, paths.drop_last());
        assert(keys_of(paths).drop_last() =~= keys_of(paths.drop_last()));
        let key = key_of(paths.last());
        lemma_extended_keys(
            before,
            key,
            contribution(key, resolved(record, paths.last())),
        );
    }
}

proof fn lemma_absorbed_keys(input: Seq<ValueView>, paths: Seq<Seq<PathMemberView>>)
    ensures
        column_keys(absorbed(Seq::empty(), input, paths)) == if input.len() == 0 {
            Seq::<Seq<char>>::empty()
        } else {
            first_seen(keys_of(paths))
        },
    decreases input.len(),
{
    if input.len() == 0 {
    } else {
        let before = absorbed(Seq::empty(), input.drop_last(), paths);
        lemma_absorbed_keys(input.drop_last(), paths);
        lemma_absorbed_record_keys(before, input.last(), paths);
        if input.len() > 1 {
            lemma_with_new_keeps(Seq::empty(), keys_of(paths));
            lemma_with_new_nothing(first_seen(keys_of(paths)), keys_of(paths));
        }
    }
}

proof fn lemma_absorbed_record_distinct(
    columns: Seq<ColumnView>,
    record: ValueView,
    paths: Seq<Seq<PathMemberView>>,
)
    requires
        distinct_keys(columns),
    ensures
        distinct_keys(absorbed_record(columns, record, paths)),
    decreases paths.len(),
{
    if paths.len() > 0 {
        lemma_absorbed_record_distinct(columns, record, paths.drop_last());
        let key = key_of(paths.last());
        lemma_extended_distinct(
            absorbed_record(columns, record, paths.drop_last()),
            key,
            contribution(key, resolved(record, paths.last())),
        );
    }
}

proof fn lemma_absorbed_distinct(
    columns: Seq<ColumnView>,
    input: Seq<ValueView>,
    paths: Seq<Seq<PathMemberView>>,
)
    requires
        distinct_keys(columns),
    ensures
        distinct_keys(absorbed(columns, input, paths)),
    decreases input.len(),
{
    if input.len() > 0 {
        lemma_absorbed_distinct(columns, input.drop_last(), paths);
        lemma_absorbed_record_distinct(
            absorbed(columns, input.drop_last(), paths),
            input.last(),
            paths,
        );
    }
}

proof fn lemma_absorbed_record_well_formed(
    columns: Seq<ColumnView>,
    record: ValueView,
    paths: Seq<Seq<PathMemberView>>,
)
    requires
        well_formed(columns),
    ensures
        well_formed(absorbed_record(columns, record, paths)),
    decreases paths.len(),
{
    if paths.len() > 0 {
        lemma_absorbed_record_well_formed(columns, record, paths.drop_last());
        let key = key_of(paths.last());
        lemma_contribution_wrappers(key, resolved(record, paths.last()));
        lemma_extended_well_formed(
            absorbed_record(columns, record, paths.drop_last()),
            key,
            contribution(key, resolved(record, paths.last())),
        );
    }
}

/// Taking records in keeps a map well-formed.
pub proof fn lemma_absorbed_well_formed(
    columns: Seq<ColumnView>,
    input: Seq<ValueView>,
    paths: Seq<Seq<PathMemberView>>,
)
    requires
        well_formed(columns),
    ensures
        well_formed(absorbed(columns, input, paths)),
    decreases input.len(),
{
    if input.len() > 0 {
        lemma_absorbed_well_formed(columns, input.drop_last(), paths);
        lemma_absorbed_record_well_formed(
            absorbed(columns, input.drop_last(), paths),
            input.last(),
            paths,
        );
    }
}

proof fn lemma_absorbed_record_entries(
    columns: Seq<ColumnView>,
    record: ValueView,
    paths: Seq<Seq<PathMemberView>>,
    key: Seq<char>,
)
    requires
        distinct_keys(columns),
    ensures
        entries_under(absorbed_record(columns, record, paths), key) == entries_under(columns, key)
            + gathered_record(record, paths, key),
    decreases paths.len(),
{
    if paths.len() == 0 {
    } else {
        let before = absorbed_record(columns, record, paths.drop_last());
        lemma_absorbed_record_entries(columns, record, paths.drop_last(), key);
        lemma_absorbed_record_distinct(columns, record, paths.drop_last());
        let last = key_of(paths.last());
        let more = contribution(last, resolved(record, paths.last()));
        lemma_extended_entries(before, last, more, key);
    }
}

proof fn lemma_absorbed_entries(
    columns: Seq<ColumnView>,
    input: Seq<ValueView>,
    paths: Seq<Seq<PathMemberView>>,
    key: Seq<char>,
)
    requires
        distinct_keys(columns),
    ensures
        entries_under(absorbed(columns, input, paths), key) == entries_under(columns, key)
            + gathered(input, paths, key),
    decreases input.len(),
{
    if input.len() == 0 {
    } else {
        let before = absorbed(columns, input.drop_last(), paths);
        lemma_absorbed_entries(columns, input.drop_last(), paths, key);
        lemma_absorbed_distinct(columns, input.drop_last(), paths);
        lemma_absorbed_record_entries(before, input.last(), paths, key);
    }
}

/// Taking the records in one by one, each along every path in turn, gives the
/// accumulation map: its columns stand in the first-seen order of the keys, and
/// each holds what the input gives to its key, record by record in arrival
/// order and within a record path by path, so that a path requested twice
/// gives twice.
pub proof fn lemma_accumulated_is_absorbed(input: Seq<ValueView>, paths: Seq<Seq<PathMemberView>>)
    ensures
        absorbed(Seq::empty(), input, paths) == accumulated(input, paths),
{
    let taken = absorbed(Seq::empty(), input, paths);
    let direct = accumulated(input, paths);
    lemma_absorbed_keys(input, paths);
    lemma_absorbed_distinct(Seq::empty(), input, paths);
    assert forall|k: int| 0 <= k < taken.len() implies taken[k] == direct[k] by {
        let key = taken[k].key;
        lemma_entries_under_present(taken, k);
        lemma_absorbed_entries(Seq::empty(), input, paths, key);
    }
}

/// Taking one more record in gives the accumulation map of the longer input.
pub proof fn lemma_accumulated_step(
    input: Seq<ValueView>,
    record: ValueView,
    paths: Seq<Seq<PathMemberView>>,
)
    ensures
        accumulated(input.push(record), paths) == absorbed_record(
            accumulated(input, paths),
            record,
            paths,
        ),
{
    lemma_accumulated_is_absorbed(input, paths);
    lemma_accumulated_is_absorbed(input.push(record), paths);
    assert(input.push(record).drop_last() =~= input);
}

/// An accumulation map keeps no key twice, and under each key wrapper records
/// of that key only.
pub proof fn lemma_accumulated_well_formed(input: Seq<ValueView>, paths: Seq<Seq<PathMemberView>>)
    ensures
        well_formed(accumulated(input, paths)),
{
    lemma_absorbed_well_formed(Seq::empty(), input, paths);
    lemma_accumulated_is_absorbed(input, paths);
}

/// Without input there is no column, and so no row, whatever was asked for.
pub proof fn lemma_empty_input(paths: Seq<Seq<PathMemberView>>)
    ensures
        accumulated(Seq::empty(), paths) == Seq::<ColumnView>::empty(),
        width(accumulated(Seq::empty(), paths)) == 0,
        synthesized(accumulated(Seq::empty(), paths)) == Seq::<ValueView>::empty(),
{
}

// Giving rows out.

/// The names of a record's fields, in the record's order.
pub open spec fn field_names(record: ValueView) -> Seq<Seq<char>>
    recommends
        record is Row,
{
    Seq::new(record->Row_0.len(), |k: int| record->Row_0[k].0)
}

/// Order preservation: every output row has one field per requested key, in
/// the order in which the keys are first seen among the requested paths.
pub proof fn lemma_field_order(input: Seq<ValueView>, paths: Seq<Seq<PathMemberView>>, row: int)
    requires
        0 <= row < synthesized(accumulated(input, paths)).len(),
    ensures
        synthesized(accumulated(input, paths))[row] is Row,
        field_names(synthesized(accumulated(input, paths))[row]) == first_seen(keys_of(paths)),
{
}

/// Width law: there are as many output rows as the longest column has
/// entries; no column is longer, some column is that long, and where no column
/// has an entry there is no row.
pub proof fn lemma_width_is_longest(columns: Seq<ColumnView>)
    ensures
        synthesized(columns).len() == width(columns),
        forall|k: int|
            0 <= k < columns.len() ==> (#[trigger] columns[k]).entries.len() <= width(columns),
        columns.len() > 0 ==> exists|k: int|
            0 <= k < columns.len() && (#[trigger] columns[k]).entries.len() == width(columns),
        (forall|k: int| 0 <= k < columns.len() ==> (#[trigger] columns[k]).entries.len() == 0)
            ==> width(columns) == 0,
    decreases columns.len(),
{
    if columns.len() > 0 {
        let front = columns.drop_last();
        lemma_width_is_longest(front);
        assert forall|k: int| 0 <= k < columns.len() implies (#[trigger] columns[k]).entries.len()
            <= width(columns) by {
            if k < front.len() {
                assert(front[k] == columns[k]);
            }
        }
        if columns.last().entries.len() > width(front) || front.len() == 0 {
            assert(columns[columns.len() - 1].entries.len() == width(columns));
        } else {
            let k = choose|k: int|
                0 <= k < front.len() && (#[trigger] front[k]).entries.len() == width(front);
            assert(columns[k].entries.len() == width(columns));
        }
    }
}

/// Width law: the output of a selection has as many rows as the input gives
/// entries to the key it gives most to. No key is given more, some key is
/// given that many, and where no key is given any there is no row.
pub proof fn lemma_row_count(input: Seq<ValueView>, paths: Seq<Seq<PathMemberView>>)
    requires
        input.len() > 0,
    ensures
        forall|key: Seq<char>|
            first_seen(keys_of(paths)).contains(key) ==> (#[trigger] gathered(
                input,
                paths,
                key,
            )).len() <= synthesized(accumulated(input, paths)).len(),
        paths.len() > 0 ==> exists|key: Seq<char>|
            first_seen(keys_of(paths)).contains(key) && (#[trigger] gathered(
                input,
                paths,
                key,
            )).len() == synthesized(accumulated(input, paths)).len(),
        (forall|key: Seq<char>|
            first_seen(keys_of(paths)).contains(key) ==> (#[trigger] gathered(
                input,
                paths,
                key,
            )).len() == 0) ==> synthesized(accumulated(input, paths)).len() == 0,
{
    let keys = first_seen(keys_of(paths));
    let columns = accumulated(input, paths);
    lemma_width_is_longest(columns);
    assert forall|key: Seq<char>| keys.contains(key) implies (#[trigger] gathered(
        input,
        paths,
        key,
    )).len() <= width(columns) by {
        let k = choose|k: int| 0 <= k < keys.len() && keys[k] == key;
        assert(columns[k].entries == gathered(input, paths, key));
    }
    if paths.len() > 0 {
        lemma_first_seen(keys_of(paths));
        assert(keys.contains(keys_of(paths)[0]));
        let k = choose|k: int|
            0 <= k < columns.len() && (#[trigger] columns[k]).entries.len() == width(columns);
        assert(keys.contains(keys[k]));
        assert(gathered(input, paths, keys[k]).len() == width(columns));
    }
    if forall|key: Seq<char>|
        keys.contains(key) ==> (#[trigger] gathered(input, paths, key)).len() == 0 {
        assert forall|k: int| 0 <= k < columns.len() implies (#[trigger] columns[k]).entries.len()
            == 0 by {
            assert(keys.contains(keys[k]));
        }
    }
}

/// Missing-cell law: row `row` has one field per column, named by the column's
/// key, and past the end of a column that field holds the null marker.
pub proof fn lemma_missing_cell(columns: Seq<ColumnView>, row: int, k: int)
    requires
        0 <= k < columns.len(),
    ensures
        row_at(columns, row) is Row,
        row_at(columns, row)->Row_0.len() == columns.len(),
        row_at(columns, row)->Row_0[k].0 == columns[k].key,
        !(0 <= row < columns[k].entries.len()) ==> row_at(columns, row)->Row_0[k].1
            == ValueView::nothing(),
{
}

/// Within a column's length, the field of row `row` holds what the column's
/// entry at `row` wraps.
pub proof fn lemma_present_cell(columns: Seq<ColumnView>, row: int, k: int)
    requires
        well_formed(columns),
        0 <= k < columns.len(),
        0 <= row < columns[k].entries.len(),
    ensures
        columns[k].entries[row] == ValueView::wrapper(
            columns[k].key,
            row_at(columns, row)->Row_0[k].1,
        ),
{
    let entry = columns[k].entries[row];
    let fields = entry->Row_0;
    assert(fields =~= seq![(columns[k].key, fields[0].1)]);
}

} // verus!
