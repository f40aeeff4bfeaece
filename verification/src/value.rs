use vstd::prelude::*;

verus! {

/// A scalar: the leaves of a value tree.
#[derive(Debug, PartialEq, Eq)]
pub enum Primitive {
    /// The null marker: "no data present".
    Nothing,
    Boolean(bool),
    Int(i64),
    String(String),
}

/// The mathematical content of a [`Primitive`].
pub enum PrimitiveView {
    Nothing,
    Boolean(bool),
    Int(int),
    String(Seq<char>),
}

impl View for Primitive {
    type V = PrimitiveView;

    open spec fn view(&self) -> PrimitiveView {
        match self {
            Primitive::Nothing => PrimitiveView::Nothing,
            Primitive::Boolean(b) => PrimitiveView::Boolean(*b),
            Primitive::Int(n) => PrimitiveView::Int(*n as int),
            Primitive::String(s) => PrimitiveView::String(s@),
        }
    }
}

impl Clone for Primitive {
    fn clone(&self) -> (copy: Self)
        ensures
            copy@ == self@,
    {
        match self {
            Primitive::Nothing => Primitive::Nothing,
            Primitive::Boolean(b) => Primitive::Boolean(*b),
            Primitive::Int(n) => Primitive::Int(*n),
            Primitive::String(s) => Primitive::String(s.clone()),
        }
    }
}

/// A structured value: a scalar, a record of named fields, or a table of values.
///
/// A record keeps its fields in the order they were given, and is meant to
/// name each field once. Where the value came from is not kept.
#[derive(Debug, PartialEq, Eq)]
pub enum Value {
    Primitive(Primitive),
    Row(Vec<(String, Value)>),
    Table(Vec<Value>),
}

/// The mathematical content of a [`Value`].
pub enum ValueView {
    Primitive(PrimitiveView),
    Row(Seq<(Seq<char>, ValueView)>),
    Table(Seq<ValueView>),
}

impl ValueView {
    /// The null marker.
    pub open spec fn nothing() -> ValueView {
        ValueView::Primitive(PrimitiveView::Nothing)
    }

    /// The record with the single field `key`, holding `cell`.
    pub open spec fn wrapper(key: Seq<char>, cell: ValueView) -> ValueView {
        ValueView::Row(seq![(key, cell)])
    }

    /// What a look-up of the field `name` gives: a scalar answers with itself, a
    /// record with its first field of that name, and everything else, a record
    /// without such a field included, with the null marker.
    pub open spec fn get_data(self, name: Seq<char>) -> ValueView {
        match self {
            ValueView::Primitive(_) => self,
            ValueView::Row(fields) => match first_field(fields, name) {
                Some(cell) => cell,
                None => ValueView::nothing(),
            },
            ValueView::Table(_) => ValueView::nothing(),
        }
    }
}

/// The first field called `name`, if there is one.
pub open spec fn first_field(fields: Seq<(Seq<char>, ValueView)>, name: Seq<char>) -> Option<
    ValueView,
>
    decreases fields.len(),
{
    if fields.len() == 0 {
        None
    } else if fields[0].0 == name {
        Some(fields[0].1)
    } else {
        first_field(fields.drop_first(), name)
    }
}

/// The content of a value: what [`Value`]'s view is.
pub open spec fn view_of(value: Value) -> ValueView
    decreases value,
{
    match value {
        Value::Primitive(p) => ValueView::Primitive(p@),
        Value::Row(fields) => ValueView::Row(
            Seq::new(
                fields@.len(),
                |i: int|
                    if 0 <= i < fields@.len() {
                        (fields@[i].0@, view_of(fields@[i].1))
                    } else {
                        (Seq::empty(), ValueView::nothing())
                    },
            ),
        ),
        Value::Table(rows) => ValueView::Table(
            Seq::new(
                rows@.len(),
                |i: int|
                    if 0 <= i < rows@.len() {
                        view_of(rows@[i])
                    } else {
                        ValueView::nothing()
                    },
            ),
        ),
    }
}

impl View for Value {
    type V = ValueView;

    open spec fn view(&self) -> ValueView {
        view_of(*self)
    }
}

impl DeepView for Value {
    type V = ValueView;

    open spec fn deep_view(&self) -> ValueView {
        self@
    }
}

/// The view of a record, field by field.
pub proof fn lemma_view_row(value: Value)
    requires
        value is Row,
    ensures
        value@ is Row,
        value@->Row_0.len() == value->Row_0@.len(),
        forall|i: int|
            0 <= i < value->Row_0@.len() ==> value@->Row_0[i] == (
                value->Row_0@[i].0@,
                value->Row_0@[i].1@,
            ),
{
}

/// The view of a table, item by item.
pub proof fn lemma_view_table(value: Value)
    requires
        value is Table,
    ensures
        value@ is Table,
        value@->Table_0.len() == value->Table_0@.len(),
        forall|i: int|
            0 <= i < value->Table_0@.len() ==> value@->Table_0[i] == value->Table_0@[i]@,
{
}

impl Value {
    /// The null marker.
    pub fn nothing() -> (marker: Value)
        ensures
            marker@ == ValueView::nothing(),
    {
        Value::Primitive(Primitive::Nothing)
    }

    /// The record with the single field `key`, holding `cell`.
    pub fn wrapper(key: String, cell: Value) -> (record: Value)
        ensures
            record@ == ValueView::wrapper(key@, cell@),
    {
        let mut fields: Vec<(String, Value)> = Vec::new();
        fields.push((key, cell));
        let record = Value::Row(fields);
        assert(record@->Row_0 =~= seq![(key@, cell@)]);
        record
    }

    /// Looks the field `name` up: a scalar answers with itself, a record with
    /// its first field of that name, and everything else, a record without such
    /// a field included, with the null marker.
    pub fn get_data(&self, name: &String) -> (cell: Value)
        ensures
            cell@ == self@.get_data(name@),
    {
        match self {
            Value::Primitive(_) => self.clone(),
            Value::Row(fields) => {
                let ghost all = self@->Row_0;
                proof {
                    lemma_view_row(*self);
                    assert(all.skip(0) =~= all);
                }
                let mut i: usize = 0;
                while i < fields.len()
                    invariant
                        i <= fields.len(),
                        self is Row,
                        self->Row_0 == *fields,
                        all == self@->Row_0,
                        all.len() == fields.len(),
                        forall|j: int|
                            0 <= j < fields.len() ==> all[j] == (fields[j].0@, fields[j].1@),
                        first_field(all, name@) == first_field(all.skip(i as int), name@),
                    decreases fields.len() - i,
                {
                    proof {
                        assert(all.skip(i as int).drop_first() =~= all.skip(i as int + 1));
                    }
                    if fields[i].0 == *name {
                        return fields[i].1.clone();
                    }
                    i += 1;
                }
                Value::nothing()
            },
            Value::Table(_) => Value::nothing(),
        }
    }
}

impl Clone for Value {
    fn clone(&self) -> (copy: Self)
        ensures
            copy@ == self@,
        decreases self,
    {
        match self {
            Value::Primitive(p) => Value::Primitive(p.clone()),
            Value::Row(fields) => {
                let mut copied: Vec<(String, Value)> = Vec::new();
                let mut i: usize = 0;
                while i < fields.len()
                    invariant
                        self is Row,
                        self->Row_0 == *fields,
                        i <= fields.len(),
                        copied.len() == i,
                        forall|j: int|
                            0 <= j < i ==> copied[j].0@ == fields[j].0@ && copied[j].1@
                                == fields[j].1@,
                    decreases fields.len() - i,
                {
                    let name = fields[i].0.clone();
                    let cell = fields[i].1.clone();
                    copied.push((name, cell));
                    i += 1;
                }
                let copy = Value::Row(copied);
                assert(copy@->Row_0 =~= self@->Row_0);
                copy
            },
            Value::Table(rows) => {
                let mut copied: Vec<Value> = Vec::new();
                let mut i: usize = 0;
                while i < rows.len()
                    invariant
                        self is Table,
                        self->Table_0 == *rows,
                        i <= rows.len(),
                        copied.len() == i,
                        forall|j: int| 0 <= j < i ==> copied[j]@ == rows[j]@,
                    decreases rows.len() - i,
                {
                    let item = rows[i].clone();
                    copied.push(item);
                    i += 1;
                }
                let copy = Value::Table(copied);
                assert(copy@->Table_0 =~= self@->Table_0);
                copy
            },
        }
    }
}

} // verus!
