use crate::column_path::{key_of, PathMemberView};
use crate::nu::resolved;
use crate::value::ValueView;
use vstd::prelude::*;

verus! {

// The accumulation map.

/// One column of the accumulation map: its key and, in arrival order, the
/// wrapper records that were kept under it.
pub struct ColumnView {
    pub key: Seq<char>,
    pub entries: Seq<ValueView>,
}

/// Whether a column is kept under `key`.
pub open spec fn has_column(columns: Seq<ColumnView>, key: Seq<char>) -> bool {
    exists|i: int| 0 <= i < columns.len() && (#[trigger] columns[i]).key == key
}

/// `keys` are the keys of the columns, in the columns' order.
pub open spec fn keyed_by(columns: Seq<ColumnView>, keys: Seq<String>) -> bool {
    &&& keys.len() == columns.len()
    &&& forall|k: int| 0 <= k < keys.len() ==> (#[trigger] keys[k])@ == columns[k].key
}

/// No key is kept twice.
pub open spec fn distinct_keys(columns: Seq<ColumnView>) -> bool {
    forall|i: int, j: int|
        0 <= i < j < columns.len() ==> (#[trigger] columns[i]).key != (#[trigger] columns[j]).key
}

/// Whether `entry` is a record of the single field `key`.
pub open spec fn is_wrapper(entry: ValueView, key: Seq<char>) -> bool {
    &&& entry is Row
    &&& entry->Row_0.len() == 1
    &&& entry->Row_0[0].0 == key
}

/// Every entry of `entries` is a record of the single field `key`.
pub open spec fn all_wrappers(entries: Seq<ValueView>, key: Seq<char>) -> bool {
    forall|j: int| 0 <= j < entries.len() ==> is_wrapper(#[trigger] entries[j], key)
}

/// What an accumulation map always is: no key twice, and under each key
/// wrapper records of that key only.
pub open spec fn well_formed(columns: Seq<ColumnView>) -> bool {
    &&& distinct_keys(columns)
    &&& forall|i: int|
        0 <= i < columns.len() ==> all_wrappers((#[trigger] columns[i]).entries, columns[i].key)
}

// What a look-up gives.

/// The entries that a resolved value gives to the column `key`: a table gives
/// one per item, anything else gives one.
pub open spec fn wrapped(key: Seq<char>, value: ValueView) -> Seq<ValueView> {
    match value {
        ValueView::Table(items) => Seq::new(
            items.len(),
            |i: int| ValueView::wrapper(key, items[i]),
        ),
        _ => seq![ValueView::wrapper(key, value)],
    }
}

/// The entries that one look-up gives to the column `key`: those of the value
/// that was found, and none where nothing was.
pub open spec fn contribution(key: Seq<char>, found: Result<ValueView, PathMemberView>) -> Seq<
    ValueView,
> {
    match found {
        Ok(value) => wrapped(key, value),
        Err(_) => Seq::empty(),
    }
}

/// Whether `record` has nothing along `path`.
pub open spec fn missing(record: ValueView, path: Seq<PathMemberView>) -> bool {
    resolved(record, path) is Err
}

/// `record` has nothing along some path of `paths`.
pub open spec fn misses(record: ValueView, paths: Seq<Seq<PathMemberView>>) -> bool {
    exists|j: int| 0 <= j < paths.len() && missing(record, #[trigger] paths[j])
}

// The map of a whole input.

/// The keys of the requested paths, in request order.
pub open spec fn keys_of(paths: Seq<Seq<PathMemberView>>) -> Seq<Seq<char>> {
    Seq::new(paths.len(), |j: int| key_of(paths[j]))
}

/// `seen`, followed by those of `keys` that are new, each where it first occurs.
pub open spec fn with_new(seen: Seq<Seq<char>>, keys: Seq<Seq<char>>) -> Seq<Seq<char>>
    decreases keys.len(),
{
    if keys.len() == 0 {
        seen
    } else {
        let before = with_new(seen, keys.drop_last());
        if before.contains(keys.last()) {
            before
        } else {
            before.push(keys.last())
        }
    }
}

/// The keys in first-seen order: each key once, where it first occurs.
pub open spec fn first_seen(keys: Seq<Seq<char>>) -> Seq<Seq<char>> {
    with_new(Seq::empty(), keys)
}

/// The entries that `record` gives to the column `key`: what each path of
/// that key finds in it, in request order.
pub open spec fn gathered_record(
    record: ValueView,
    paths: Seq<Seq<PathMemberView>>,
    key: Seq<char>,
) -> Seq<ValueView>
    decreases paths.len(),
{
    if paths.len() == 0 {
        Seq::empty()
    } else {
        let before = gathered_record(record, paths.drop_last(), key);
        if key_of(paths.last()) == key {
            before + contribution(key, resolved(record, paths.last()))
        } else {
            before
        }
    }
}

/// The entries that the whole input gives to the column `key`, record by record.
pub open spec fn gathered(
    input: Seq<ValueView>,
    paths: Seq<Seq<PathMemberView>>,
    key: Seq<char>,
) -> Seq<ValueView>
    decreases input.len(),
{
    if input.len() == 0 {
        Seq::empty()
    } else {
        gathered(input.drop_last(), paths, key) + gathered_record(input.last(), paths, key)
    }
}

/// The accumulation map of a whole input: one column per key, in first-seen
/// order, each with what the input gives to it. Without input there is no
/// column.
pub open spec fn accumulated(input: Seq<ValueView>, paths: Seq<Seq<PathMemberView>>) -> Seq<
    ColumnView,
> {
    if input.len() == 0 {
        Seq::empty()
    } else {
        let keys = first_seen(keys_of(paths));
        Seq::new(
            keys.len(),
            |k: int| ColumnView { key: keys[k], entries: gathered(input, paths, keys[k]) },
        )
    }
}

// The map, record by record.

/// The map once `more` has come in under `key`: appended to that key's
/// entries, or, for a key not seen before, a new last column.
pub open spec fn extended(columns: Seq<ColumnView>, key: Seq<char>, more: Seq<ValueView>) -> Seq<
    ColumnView,
> {
    if has_column(columns, key) {
        Seq::new(
            columns.len(),
            |i: int|
                if columns[i].key == key {
                    ColumnView { key, entries: columns[i].entries + more }
                } else {
                    columns[i]
                },
        )
    } else {
        columns.push(ColumnView { key, entries: more })
    }
}

/// The map once `record` has been looked up along `path`.
pub open spec fn absorbed_path(
    columns: Seq<ColumnView>,
    record: ValueView,
    path: Seq<PathMemberView>,
) -> Seq<ColumnView> {
    extended(columns, key_of(path), contribution(key_of(path), resolved(record, path)))
}

/// The map once `record` has been looked up along each of `paths`, in order.
pub open spec fn absorbed_record(
    columns: Seq<ColumnView>,
    record: ValueView,
    paths: Seq<Seq<PathMemberView>>,
) -> Seq<ColumnView>
    decreases paths.len(),
{
    if paths.len() == 0 {
        columns
    } else {
        absorbed_path(absorbed_record(columns, record, paths.drop_last()), record, paths.last())
    }
}

/// The map once each record of `input` has come in, in order, starting from
/// `columns`.
pub open spec fn absorbed(
    columns: Seq<ColumnView>,
    input: Seq<ValueView>,
    paths: Seq<Seq<PathMemberView>>,
) -> Seq<ColumnView>
    decreases input.len(),
{
    if input.len() == 0 {
        columns
    } else {
        absorbed_record(absorbed(columns, input.drop_last(), paths), input.last(), paths)
    }
}

// Where a strict selection ends.

/// `at` is the first of `paths` along which `record` has nothing.
pub open spec fn first_missing(
    record: ValueView,
    paths: Seq<Seq<PathMemberView>>,
    at: int,
) -> bool {
    &&& 0 <= at < paths.len()
    &&& missing(record, paths[at])
    &&& forall|k: int| 0 <= k < at ==> !missing(record, #[trigger] paths[k])
}

/// Some record of `input` has nothing along some path of `paths`.
pub open spec fn any_missing(input: Seq<ValueView>, paths: Seq<Seq<PathMemberView>>) -> bool {
    exists|i: int, j: int|
        0 <= i < input.len() && 0 <= j < paths.len() && missing(
            #[trigger] input[i],
            #[trigger] paths[j],
        )
}

/// The look-up of record `record` along path `at` is the first, going record by
/// record and within a record path by path, that finds nothing.
pub open spec fn first_failure(
    input: Seq<ValueView>,
    paths: Seq<Seq<PathMemberView>>,
    record: int,
    at: int,
) -> bool {
    &&& 0 <= record < input.len()
    &&& first_missing(input[record], paths, at)
    &&& forall|i: int, j: int|
        0 <= i < record && 0 <= j < paths.len() ==> !missing(
            #[trigger] input[i],
            #[trigger] paths[j],
        )
}

/// The look-up along path `at` is the first that finds nothing in `record`, and
/// `member` is the step that it could not take.
pub open spec fn stopped_at(
    record: ValueView,
    paths: Seq<Seq<PathMemberView>>,
    at: int,
    member: PathMemberView,
) -> bool {
    &&& first_missing(record, paths, at)
    &&& resolved(record, paths[at]) == Err::<ValueView, PathMemberView>(member)
}

/// The look-up of record `record` along path `at` is the first of all that
/// finds nothing, and `member` is the step that it could not take.
pub open spec fn failed_at(
    input: Seq<ValueView>,
    paths: Seq<Seq<PathMemberView>>,
    record: int,
    at: int,
    member: PathMemberView,
) -> bool {
    &&& first_failure(input, paths, record, at)
    &&& resolved(input[record], paths[at]) == Err::<ValueView, PathMemberView>(member)
}

// The rows.

/// The number of output rows: the length of the longest column, 0 without one.
pub open spec fn width(columns: Seq<ColumnView>) -> nat
    decreases columns.len(),
{
    if columns.len() == 0 {
        0
    } else {
        let before = width(columns.drop_last());
        let last = columns.last().entries.len();
        if last > before {
            last
        } else {
            before
        }
    }
}

/// The cell of `column` in output row `row`: what the entry at that index holds
/// under the column's key, and the null marker past the column's end.
pub open spec fn cell_at(column: ColumnView, row: int) -> ValueView {
    if 0 <= row < column.entries.len() {
        column.entries[row].get_data(column.key)
    } else {
        ValueView::nothing()
    }
}

/// Output row `row`: one field per column, in the columns' order.
pub open spec fn row_at(columns: Seq<ColumnView>, row: int) -> ValueView {
    ValueView::Row(Seq::new(columns.len(), |k: int| (columns[k].key, cell_at(columns[k], row))))
}

/// The output: `width` rows, each stitched from the columns at its own index.
pub open spec fn synthesized(columns: Seq<ColumnView>) -> Seq<ValueView> {
    Seq::new(width(columns), |row: int| row_at(columns, row))
}

} // verus!
