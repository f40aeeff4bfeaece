use nu_select::column_path::{ColumnPath, PathMember};
use nu_select::resolve::{resolve, NotFound};
use nu_select::value::{Primitive, Value};

fn text(s: &str) -> Value {
    Value::Primitive(Primitive::String(s.to_string()))
}

fn number(n: i64) -> Value {
    Value::Primitive(Primitive::Int(n))
}

fn row(fields: Vec<(&str, Value)>) -> Value {
    Value::Row(fields.into_iter().map(|(name, cell)| (name.to_string(), cell)).collect())
}

fn name(s: &str) -> PathMember {
    PathMember::String(s.to_string())
}

fn path(members: Vec<PathMember>) -> ColumnPath {
    ColumnPath::new(members).unwrap()
}

#[test]
fn a_path_needs_a_step() {
    assert_eq!(ColumnPath::new(vec![]), None);
    let one = ColumnPath::new(vec![name("a")]).unwrap();
    assert_eq!(one.members(), &vec![name("a")]);
}

#[test]
fn key_of_a_single_name_is_the_name() {
    assert_eq!(path(vec![name("name")]).key(), "name");
    assert_eq!(path(vec![name("")]).key(), "");
    assert_eq!(path(vec![name("two words")]).key(), "two words");
}

#[test]
fn key_joins_steps_with_dots() {
    assert_eq!(path(vec![name("a"), name("b")]).key(), "a.b");
    assert_eq!(path(vec![name("a"), PathMember::Int(0), name("b")]).key(), "a.0.b");
    assert_eq!(path(vec![name("a"), name(""), name("b")]).key(), "a..b");
}

#[test]
fn key_writes_an_index_in_decimal() {
    assert_eq!(path(vec![PathMember::Int(0)]).key(), "0");
    assert_eq!(path(vec![PathMember::Int(7)]).key(), "7");
    assert_eq!(path(vec![PathMember::Int(10)]).key(), "10");
    assert_eq!(path(vec![PathMember::Int(1203)]).key(), "1203");
    assert_eq!(path(vec![PathMember::Int(u64::MAX)]).key(), "18446744073709551615");
}

#[test]
fn step_text_is_what_the_key_is_made_of() {
    assert_eq!(name("size").text(), "size");
    assert_eq!(PathMember::Int(0).text(), "0");
    assert_eq!(PathMember::Int(42).text(), "42");
    assert_eq!(PathMember::Int(u64::MAX).text(), "18446744073709551615");
}

#[test]
fn a_cloned_path_is_the_same_path() {
    let first = path(vec![name("a"), PathMember::Int(3)]);
    let copy = first.clone();
    assert_eq!(copy, first);
    assert_eq!(copy.key(), "a.3");
    assert_eq!(name("x").clone(), name("x"));
    assert_eq!(PathMember::Int(9).clone(), PathMember::Int(9));
}

#[test]
fn resolve_finds_a_field() {
    let record = row(vec![("name", text("a")), ("size", number(1))]);
    assert_eq!(resolve(&record, &path(vec![name("size")])), Ok(number(1)));
    assert_eq!(resolve(&record, &path(vec![name("name")])), Ok(text("a")));
}

#[test]
fn resolve_walks_nested_records() {
    let record = row(vec![("outer", row(vec![("inner", row(vec![("leaf", number(5))]))]))]);
    assert_eq!(
        resolve(&record, &path(vec![name("outer"), name("inner"), name("leaf")])),
        Ok(number(5))
    );
    assert_eq!(
        resolve(&record, &path(vec![name("outer"), name("inner")])),
        Ok(row(vec![("leaf", number(5))]))
    );
}

#[test]
fn resolve_indexes_into_a_table() {
    let record = row(vec![("items", Value::Table(vec![number(10), number(20), number(30)]))]);
    assert_eq!(resolve(&record, &path(vec![name("items"), PathMember::Int(1)])), Ok(number(20)));
    assert_eq!(
        resolve(&record, &path(vec![name("items"), PathMember::Int(3)])),
        Err(NotFound { member: PathMember::Int(3) })
    );
}

#[test]
fn resolve_maps_a_name_over_the_rows_of_a_table() {
    let record = row(vec![(
        "t",
        Value::Table(vec![
            row(vec![("x", number(1))]),
            row(vec![("y", number(2))]),
            row(vec![("x", number(3))]),
        ]),
    )]);
    assert_eq!(
        resolve(&record, &path(vec![name("t"), name("x")])),
        Ok(Value::Table(vec![number(1), number(3)]))
    );
    assert_eq!(
        resolve(&record, &path(vec![name("t"), name("z")])),
        Err(NotFound { member: name("z") })
    );
}

#[test]
fn resolve_reports_the_step_that_failed() {
    let record = row(vec![("a", row(vec![("b", number(1))]))]);
    assert_eq!(
        resolve(&record, &path(vec![name("missing")])),
        Err(NotFound { member: name("missing") })
    );
    assert_eq!(
        resolve(&record, &path(vec![name("a"), name("c"), name("d")])),
        Err(NotFound { member: name("c") })
    );
    assert_eq!(
        resolve(&record, &path(vec![name("a"), name("b"), name("c")])),
        Err(NotFound { member: name("c") })
    );
    assert_eq!(
        resolve(&record, &path(vec![PathMember::Int(0)])),
        Err(NotFound { member: PathMember::Int(0) })
    );
}

#[test]
fn resolve_keeps_every_kind_of_scalar() {
    let record = row(vec![
        ("nothing", Value::Primitive(Primitive::Nothing)),
        ("yes", Value::Primitive(Primitive::Boolean(true))),
        ("no", Value::Primitive(Primitive::Boolean(false))),
        ("low", number(i64::MIN)),
        ("high", number(i64::MAX)),
        ("text", text("a b.c")),
    ]);
    for (field, cell) in [
        ("nothing", Value::Primitive(Primitive::Nothing)),
        ("yes", Value::Primitive(Primitive::Boolean(true))),
        ("no", Value::Primitive(Primitive::Boolean(false))),
        ("low", number(i64::MIN)),
        ("high", number(i64::MAX)),
        ("text", text("a b.c")),
    ] {
        assert_eq!(resolve(&record, &path(vec![name(field)])), Ok(cell));
    }
}
