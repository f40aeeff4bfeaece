use crate::column_path::{ColumnPath, PathMemberView};
use crate::laws::{lemma_accumulated_is_absorbed, lemma_extended_well_formed};
use crate::model;
use crate::model::{
    absorbed, absorbed_record, accumulated, all_wrappers, any_missing, cell_at, contribution,
    distinct_keys, extended, failed_at, has_column, keyed_by, misses, missing, row_at, stopped_at,
    synthesized, well_formed, wrapped, ColumnView,
};
use crate::ordered_map::{entries, get, group_mut, has_key, holds_at, keys, lists, new_map};
use crate::resolve::{outcome, resolve, NotFound};
use crate::value::{lemma_view_row, lemma_view_table, Value, ValueView};
use indexmap::IndexMap;
use vstd::prelude::*;

verus! {

/// What is done where a record has nothing along a requested path.
#[derive(Debug, Clone, Copy, PartialEq, Eq)]
pub enum OnMissingColumn {
    /// The record gives the column no entry; the column itself is still kept.
    Lenient,
    /// The look-up's failure ends the work.
    Fail,
}

impl Default for OnMissingColumn {
    /// The policy where none is asked for: `Lenient`.
    fn default() -> (policy: Self)
        ensures
            policy is Lenient,
    {
        OnMissingColumn::Lenient
    }
}

/// The contents of each value of a sequence.
spec fn views(values: Seq<Value>) -> Seq<ValueView> {
    Seq::new(values.len(), |i: int| values[i]@)
}

/// The columns that a map's entries stand for.
spec fn lift(entries: Seq<(Seq<char>, Seq<Value>)>) -> Seq<ColumnView> {
    Seq::new(
        entries.len(),
        |i: int| ColumnView { key: entries[i].0, entries: views(entries[i].1) },
    )
}

proof fn lemma_has_key_lift(entries: Seq<(Seq<char>, Seq<Value>)>, key: Seq<char>)
    ensures
        has_key(entries, key) <==> has_column(lift(entries), key),
{
    if has_key(entries, key) {
        let at = choose|at: int| holds_at(entries, at, key);
        assert(lift(entries)[at].key == key);
    }
    if has_column(lift(entries), key) {
        let at = choose|at: int|
            0 <= at < lift(entries).len() && (#[trigger] lift(entries)[at]).key == key;
        assert(holds_at(entries, at, key));
    }
}

proof fn lemma_extend_absent(
    entries: Seq<(Seq<char>, Seq<Value>)>,
    key: Seq<char>,
    list: Seq<Value>,
)
    requires
        !has_key(entries, key),
    ensures
        lift(entries.push((key, list))) == extended(lift(entries), key, views(list)),
{
    lemma_has_key_lift(entries, key);
}

proof fn lemma_extend_present(
    entries: Seq<(Seq<char>, Seq<Value>)>,
    at: int,
    key: Seq<char>,
    list: Seq<Value>,
    more: Seq<ValueView>,
)
    requires
        distinct_keys(lift(entries)),
        0 <= at < entries.len(),
        entries[at].0 == key,
        views(list) == views(entries[at].1) + more,
    ensures
        lift(entries.update(at, (key, list))) == extended(lift(entries), key, more),
{
    let before = lift(entries);
    assert(before[at].key == key);
}

/// The entries that `value` gives to the column `key`: a table gives one
/// wrapper record per item, anything else gives one.
pub fn wrap(key: &String, value: Value) -> (more: Vec<Value>)
    ensures
        more.deep_view() == wrapped(key@, value@),
        all_wrappers(more.deep_view(), key@),
{
    let mut more: Vec<Value> = Vec::new();
    match value {
        Value::Table(items) => {
            proof {
                lemma_view_table(Value::Table(items));
            }
            let mut i: usize = 0;
            while i < items.len()
                invariant
                    i <= items.len(),
                    more.len() == i,
                    forall|j: int|
                        0 <= j < i ==> (#[trigger] more[j])@ == ValueView::wrapper(
                            key@,
                            items[j]@,
                        ),
                decreases items.len() - i,
            {
                more.push(Value::wrapper(key.clone(), items[i].clone()));
                i += 1;
            }
        },
        other => {
            more.push(Value::wrapper(key.clone(), other));
        },
    }
    more
}

/// The accumulation map: for each key, in the order in which the keys first
/// came in, the wrapper records kept under it, in arrival order.
pub struct Columns {
    map: IndexMap<String, Vec<Value>>,
}

impl View for Columns {
    type V = Seq<ColumnView>;

    closed spec fn view(&self) -> Seq<ColumnView> {
        lift(entries(self.map))
    }
}

impl Columns {
    /// The map that holds nothing yet.
    pub fn new() -> (columns: Columns)
        ensures
            columns@ == Seq::<ColumnView>::empty(),
            well_formed(columns@),
    {
        Columns { map: new_map() }
    }

    /// Takes in what one look-up gave for the column `key`. A value goes under
    /// the key as its entries. A failure leaves the column without a new
    /// entry, or, under `Fail`, is handed back with the map untouched.
    pub fn absorb(
        &mut self,
        key: &String,
        found: Result<Value, NotFound>,
        policy: OnMissingColumn,
    ) -> (done: Result<(), NotFound>)
        requires
            well_formed(old(self)@),
        ensures
            done is Err <==> found is Err && policy is Fail,
            done is Err ==> found == Err::<Value, NotFound>(done->Err_0),
            done is Err ==> final(self)@ == old(self)@,
            done is Ok ==> final(self)@ == extended(
                old(self)@,
                key@,
                contribution(key@, outcome(found)),
            ),
            well_formed(final(self)@),
    {
        let mut more: Vec<Value> = match found {
            Ok(value) => wrap(key, value),
            Err(reason) => {
                match policy {
                    OnMissingColumn::Fail => {
                        return Err(reason);
                    },
                    OnMissingColumn::Lenient => Vec::new(),
                }
            },
        };
        let ghost before = entries(self.map);
        let ghost added = more.deep_view();
        let ghost fresh = more@;
        let group = group_mut(&mut self.map, key.clone());
        let ghost kept = group@;
        group.append(&mut more);
        proof {
            assert(views(kept + fresh) =~= views(kept) + added);
            if has_key(before, key@) {
                let at = choose|at: int| holds_at(before, at, key@);
                lemma_extend_present(before, at, key@, kept + fresh, added);
            } else {
                assert(views(kept) =~= Seq::<ValueView>::empty());
                lemma_extend_absent(before, key@, kept + fresh);
            }
            lemma_extended_well_formed(lift(before), key@, added);
        }
        Ok(())
    }

    /// Takes in one record: looks it up along each path in turn and takes in
    /// what was found. Under `Fail` the first look-up that finds nothing ends
    /// the work, with the map as the paths before it left it.
    pub fn absorb_record(
        &mut self,
        record: &Value,
        paths: &Vec<ColumnPath>,
        policy: OnMissingColumn,
    ) -> (done: Result<(), NotFound>)
        requires
            well_formed(old(self)@),
        ensures
            well_formed(final(self)@),
            done is Err <==> policy is Fail && misses(record@, paths.deep_view()),
            done is Ok ==> final(self)@ == absorbed_record(
                old(self)@,
                record@,
                paths.deep_view(),
            ),
            done is Err ==> exists|j: int|
                #[trigger] stopped_at(record@, paths.deep_view(), j, done->Err_0.member@)
                    && final(self)@ == absorbed_record(
                    old(self)@,
                    record@,
                    paths.deep_view().take(j),
                ),
    {
        let ghost start = self@;
        let ghost all = paths.deep_view();
        let mut j: usize = 0;
        while j < paths.len()
            invariant
                j <= paths.len(),
                all == paths.deep_view(),
                all.len() == paths.len(),
                start == old(self)@,
                well_formed(self@),
                self@ == absorbed_record(start, record@, all.take(j as int)),
                policy is Fail ==> forall|k: int|
                    0 <= k < j ==> !missing(record@, #[trigger] all[k]),
            decreases paths.len() - j,
        {
            let path = &paths[j];
            let key = path.key();
            let found = resolve(record, path);
            match self.absorb(&key, found, policy) {
                Err(reason) => {
                    assert(stopped_at(record@, all, j as int, reason.member@));
                    return Err(reason);
                },
                Ok(()) => {},
            }
            proof {
                assert(all.take(j + 1).drop_last() =~= all.take(j as int));
            }
            j += 1;
        }
        assert(all.take(j as int) =~= all);
        Ok(())
    }

    /// Takes in each record of `input`, in order. Under `Fail` the first look-up
    /// that finds nothing ends the work.
    pub fn absorb_all(
        &mut self,
        input: &Vec<Value>,
        paths: &Vec<ColumnPath>,
        policy: OnMissingColumn,
    ) -> (done: Result<(), NotFound>)
        requires
            well_formed(old(self)@),
        ensures
            well_formed(final(self)@),
            done is Err <==> policy is Fail && any_missing(input.deep_view(), paths.deep_view()),
            done is Ok ==> final(self)@ == absorbed(
                old(self)@,
                input.deep_view(),
                paths.deep_view(),
            ),
            done is Err ==> exists|i: int, j: int| #[trigger]
                failed_at(input.deep_view(), paths.deep_view(), i, j, done->Err_0.member@),
    {
        let ghost start = self@;
        let ghost records = input.deep_view();
        let ghost all = paths.deep_view();
        let mut i: usize = 0;
        while i < input.len()
            invariant
                i <= input.len(),
                records == input.deep_view(),
                records.len() == input.len(),
                all == paths.deep_view(),
                start == old(self)@,
                well_formed(self@),
                self@ == absorbed(start, records.take(i as int), all),
                policy is Fail ==> forall|r: int, j: int|
                    0 <= r < i && 0 <= j < all.len() ==> !missing(
                        #[trigger] records[r],
                        #[trigger] all[j],
                    ),
            decreases input.len() - i,
        {
            match self.absorb_record(&input[i], paths, policy) {
                Err(reason) => {
                    proof {
                        let j = choose|j: int| #[trigger]
                            stopped_at(records[i as int], all, j, reason.member@);
                        assert(failed_at(records, all, i as int, j, reason.member@));
                    }
                    return Err(reason);
                },
                Ok(()) => {},
            }
            proof {
                assert(records.take(i + 1).drop_last() =~= records.take(i as int));
            }
            i += 1;
        }
        assert(records.take(i as int) =~= records);
        Ok(())
    }

    /// The keys, in the order in which they first came in.
    pub fn keys(&self) -> (keys: Vec<String>)
        ensures
            keyed_by(self@, keys@),
    {
        keys(&self.map)
    }

    /// The wrapper records kept under `key`, if there is such a column.
    pub fn column(&self, key: &String) -> (found: Option<&Vec<Value>>)
        ensures
            found is Some <==> has_column(self@, key@),
            forall|k: int|
                found is Some && 0 <= k < self@.len() && (#[trigger] self@[k]).key == key@
                    ==> found->Some_0.deep_view() == self@[k].entries,
    {
        let found = get(&self.map, key);
        proof {
            lemma_has_key_lift(entries(self.map), key@);
            assert forall|k: int|
                found is Some && 0 <= k < self@.len() && (#[trigger] self@[k]).key
                    == key@ implies found->Some_0.deep_view() == self@[k].entries by {
                assert(holds_at(entries(self.map), k, key@));
            }
        }
        found
    }

    /// The number of output rows: the length of the longest column.
    pub fn width(&self) -> (width: usize)
        ensures
            width == model::width(self@),
    {
        let lists = lists(&self.map);
        let mut width: usize = 0;
        let mut k: usize = 0;
        while k < lists.len()
            invariant
                k <= lists.len(),
                lists@.len() == self@.len(),
                forall|i: int|
                    0 <= i < lists@.len() ==> (#[trigger] lists@[i])@.len()
                        == self@[i].entries.len(),
                width == model::width(self@.take(k as int)),
            decreases lists.len() - k,
        {
            proof {
                assert(self@.take(k + 1).drop_last() =~= self@.take(k as int));
            }
            let length = lists[k].len();
            if length > width {
                width = length;
            }
            k += 1;
        }
        assert(self@.take(k as int) =~= self@);
        width
    }

    /// Output row `index`: for each key in turn, what the entry at `index`
    /// holds under it, or the null marker where the column is shorter.
    pub fn row(&self, index: usize) -> (row: Value)
        ensures
            row@ == row_at(self@, index as int),
    {
        let keys = self.keys();
        self.row_by(&keys, index)
    }

    /// Output row `index`, with the keys at hand.
    pub(crate) fn row_by(&self, keys: &Vec<String>, index: usize) -> (row: Value)
        requires
            keyed_by(self@, keys@),
        ensures
            row@ == row_at(self@, index as int),
    {
        let mut fields: Vec<(String, Value)> = Vec::new();
        let mut k: usize = 0;
        while k < keys.len()
            invariant
                k <= keys.len(),
                keyed_by(self@, keys@),
                fields.len() == k,
                forall|m: int|
                    0 <= m < k ==> (#[trigger] fields[m]).0@ == self@[m].key && fields[m].1@
                        == cell_at(self@[m], index as int),
            decreases keys.len() - k,
        {
            let key = &keys[k];
            assert(holds_at(entries(self.map), k as int, key@));
            let cell = match get(&self.map, key) {
                Some(list) => {
                    if index < list.len() {
                        list[index].get_data(key)
                    } else {
                        Value::nothing()
                    }
                },
                None => Value::nothing(),
            };
            fields.push((key.clone(), cell));
            k += 1;
        }
        let row = Value::Row(fields);
        proof {
            lemma_view_row(row);
            assert(row@->Row_0 =~= row_at(self@, index as int)->Row_0);
        }
        row
    }

    /// The output rows, in order, as many as the longest column is long.
    pub fn synthesize(&self) -> (rows: Vec<Value>)
        ensures
            rows.deep_view() == synthesized(self@),
    {
        let width = self.width();
        let keys = self.keys();
        let mut rows: Vec<Value> = Vec::new();
        let mut index: usize = 0;
        while index < width
            invariant
                index <= width,
                width == model::width(self@),
                keyed_by(self@, keys@),
                rows.len() == index,
                forall|i: int| 0 <= i < index ==> (#[trigger] rows[i])@ == row_at(self@, i),
            decreases width - index,
        {
            rows.push(self.row_by(&keys, index));
            index += 1;
        }
        rows
    }
}

/// The accumulation map of a whole input. Under `Fail` the first look-up that
/// finds nothing, going record by record and within a record path by path, is
/// handed back in its place.
pub fn accumulate(
    input: &Vec<Value>,
    paths: &Vec<ColumnPath>,
    policy: OnMissingColumn,
) -> (done: Result<Columns, NotFound>)
    ensures
        done is Err <==> policy is Fail && any_missing(input.deep_view(), paths.deep_view()),
        done is Ok ==> done->Ok_0@ == accumulated(input.deep_view(), paths.deep_view()),
        done is Ok ==> well_formed(done->Ok_0@),
        done is Err ==> exists|i: int, j: int| #[trigger]
            failed_at(input.deep_view(), paths.deep_view(), i, j, done->Err_0.member@),
{
    let mut columns = Columns::new();
    proof {
        lemma_accumulated_is_absorbed(input.deep_view(), paths.deep_view());
    }
    match columns.absorb_all(input, paths, policy) {
        Ok(()) => Ok(columns),
        Err(reason) => Err(reason),
    }
}

} // verus!
