use nu_select::column_path::{ColumnPath, PathMember};
use nu_select::columns::OnMissingColumn;
use nu_select::operator::{Operator, Stage};
use nu_select::resolve::NotFound;
use nu_select::select::{select, SelectError};
use nu_select::value::{Primitive, Value};

fn number(n: i64) -> Value {
    Value::Primitive(Primitive::Int(n))
}

fn row(fields: Vec<(&str, Value)>) -> Value {
    Value::Row(fields.into_iter().map(|(name, cell)| (name.to_string(), cell)).collect())
}

fn column(s: &str) -> ColumnPath {
    ColumnPath::new(vec![PathMember::String(s.to_string())]).unwrap()
}

fn lenient(paths: Vec<ColumnPath>) -> Operator {
    Operator::new(paths, OnMissingColumn::Lenient).ok().unwrap()
}

#[test]
fn an_operator_needs_a_path() {
    assert!(matches!(Operator::new(vec![], OnMissingColumn::Lenient), Err(SelectError::NoColumns)));
    assert!(matches!(Operator::new(vec![], OnMissingColumn::Fail), Err(SelectError::NoColumns)));
    assert_eq!(lenient(vec![column("a")]).stage(), Stage::Collecting);
}

#[test]
fn an_operator_gives_what_select_gives() {
    let input = vec![
        row(vec![("a", number(1)), ("t", Value::Table(vec![number(7), number(8), number(9)]))]),
        row(vec![("a", number(2))]),
    ];
    let paths = vec![column("a"), column("t"), column("gone")];
    let mut operator = lenient(vec![column("a"), column("t"), column("gone")]);
    for record in &input {
        assert_eq!(operator.push(record), Ok(true));
        assert_eq!(operator.stage(), Stage::Collecting);
    }
    operator.finish();
    assert_eq!(operator.stage(), Stage::Synthesizing);
    let mut rows = vec![];
    while let Some(next) = operator.pull() {
        rows.push(next);
    }
    assert_eq!(operator.stage(), Stage::Done);
    assert_eq!(rows.len(), 3);
    assert_eq!(Ok(rows), select(&input, &paths));
}

#[test]
fn an_operator_without_rows_is_done_at_once() {
    let mut operator = lenient(vec![column("a")]);
    operator.finish();
    assert_eq!(operator.stage(), Stage::Done);
    assert_eq!(operator.pull(), None);

    let mut operator = lenient(vec![column("a")]);
    assert_eq!(operator.push(&row(vec![("b", number(1))])), Ok(true));
    operator.finish();
    assert_eq!(operator.stage(), Stage::Done);
    assert_eq!(operator.pull(), None);
}

#[test]
fn an_operator_gives_no_row_while_collecting() {
    let mut operator = lenient(vec![column("a")]);
    assert_eq!(operator.push(&row(vec![("a", number(1))])), Ok(true));
    assert_eq!(operator.pull(), None);
    assert_eq!(operator.stage(), Stage::Collecting);
    operator.finish();
    assert_eq!(operator.pull(), Some(row(vec![("a", number(1))])));
    assert_eq!(operator.pull(), None);
}

#[test]
fn an_operator_never_goes_back_to_collecting() {
    let mut operator = lenient(vec![column("a")]);
    assert_eq!(operator.push(&row(vec![("a", number(1))])), Ok(true));
    assert_eq!(operator.push(&row(vec![("a", number(2))])), Ok(true));
    operator.finish();
    assert_eq!(operator.push(&row(vec![("a", number(3))])), Ok(false));
    assert_eq!(operator.stage(), Stage::Synthesizing);
    operator.finish();
    assert_eq!(operator.stage(), Stage::Synthesizing);
    assert_eq!(operator.pull(), Some(row(vec![("a", number(1))])));
    assert_eq!(operator.pull(), Some(row(vec![("a", number(2))])));
    assert_eq!(operator.stage(), Stage::Done);
    assert_eq!(operator.push(&row(vec![("a", number(4))])), Ok(false));
    operator.finish();
    assert_eq!(operator.stage(), Stage::Done);
    assert_eq!(operator.pull(), None);
}

#[test]
fn an_operator_can_be_stopped() {
    let mut operator = lenient(vec![column("a")]);
    assert_eq!(operator.push(&row(vec![("a", number(1))])), Ok(true));
    assert_eq!(operator.push(&row(vec![("a", number(2))])), Ok(true));
    operator.finish();
    assert_eq!(operator.pull(), Some(row(vec![("a", number(1))])));
    operator.stop();
    assert_eq!(operator.stage(), Stage::Done);
    assert_eq!(operator.pull(), None);

    let mut operator = lenient(vec![column("a")]);
    operator.stop();
    assert_eq!(operator.stage(), Stage::Done);
    assert_eq!(operator.push(&row(vec![("a", number(1))])), Ok(false));
}

#[test]
fn a_strict_operator_ends_on_a_missing_column() {
    let paths = vec![column("a"), column("b")];
    let mut operator = Operator::new(paths, OnMissingColumn::Fail).ok().unwrap();
    assert_eq!(operator.push(&row(vec![("a", number(1)), ("b", number(2))])), Ok(true));
    assert_eq!(
        operator.push(&row(vec![("a", number(1))])),
        Err(NotFound { member: PathMember::String("b".to_string()) })
    );
    assert_eq!(operator.stage(), Stage::Done);
    assert_eq!(operator.push(&row(vec![("a", number(1)), ("b", number(2))])), Ok(false));
    operator.finish();
    assert_eq!(operator.pull(), None);
}
