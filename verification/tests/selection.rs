use nu_select::column_path::{ColumnPath, PathMember};
use nu_select::columns::OnMissingColumn;
use nu_select::resolve::NotFound;
use nu_select::select::{select, select_with, Select, SelectError, Signature, SyntaxShape};
use nu_select::value::{Primitive, Value};

fn text(s: &str) -> Value {
    Value::Primitive(Primitive::String(s.to_string()))
}

fn number(n: i64) -> Value {
    Value::Primitive(Primitive::Int(n))
}

fn nothing() -> Value {
    Value::Primitive(Primitive::Nothing)
}

fn row(fields: Vec<(&str, Value)>) -> Value {
    Value::Row(fields.into_iter().map(|(name, cell)| (name.to_string(), cell)).collect())
}

fn name(s: &str) -> PathMember {
    PathMember::String(s.to_string())
}

fn column(s: &str) -> ColumnPath {
    ColumnPath::new(vec![name(s)]).unwrap()
}

fn path(members: Vec<PathMember>) -> ColumnPath {
    ColumnPath::new(members).unwrap()
}

#[test]
fn empty_input_gives_empty_output() {
    assert_eq!(select(&vec![], &vec![column("a")]), Ok(vec![]));
    assert_eq!(select(&vec![], &vec![column("a"), column("b"), column("a")]), Ok(vec![]));
    assert_eq!(select_with(&vec![], &vec![column("a")], OnMissingColumn::Fail), Ok(vec![]));
}

#[test]
fn no_paths_is_an_error_under_either_policy() {
    let input = vec![row(vec![("a", number(1))])];
    assert_eq!(select_with(&input, &vec![], OnMissingColumn::Lenient), Err(SelectError::NoColumns));
    assert_eq!(select_with(&input, &vec![], OnMissingColumn::Fail), Err(SelectError::NoColumns));
    assert_eq!(Select.run(&input, &vec![]), Err(SelectError::NoColumns));
}

#[test]
fn output_fields_follow_the_request_not_the_record() {
    let input = vec![row(vec![("a", number(1)), ("b", number(2)), ("c", number(3))])];
    assert_eq!(
        select(&input, &vec![column("c"), column("a")]),
        Ok(vec![row(vec![("c", number(3)), ("a", number(1))])])
    );
}

#[test]
fn a_path_requested_twice_gives_twice() {
    let input = vec![
        row(vec![("a", number(1)), ("b", number(5))]),
        row(vec![("a", number(2)), ("b", number(6))]),
    ];
    assert_eq!(
        select(&input, &vec![column("a"), column("b"), column("a")]),
        Ok(vec![
            row(vec![("a", number(1)), ("b", number(5))]),
            row(vec![("a", number(1)), ("b", number(6))]),
            row(vec![("a", number(2)), ("b", nothing())]),
            row(vec![("a", number(2)), ("b", nothing())]),
        ])
    );
}

#[test]
fn a_column_nobody_has_is_all_null() {
    let input = vec![row(vec![("a", number(1))]), row(vec![("a", number(2))])];
    assert_eq!(
        select(&input, &vec![column("gone"), column("a")]),
        Ok(vec![
            row(vec![("gone", nothing()), ("a", number(1))]),
            row(vec![("gone", nothing()), ("a", number(2))]),
        ])
    );
}

#[test]
fn no_column_resolved_gives_no_row() {
    let input = vec![row(vec![("a", number(1))]), row(vec![("a", number(2))])];
    assert_eq!(select(&input, &vec![column("x"), column("y")]), Ok(vec![]));
}

#[test]
fn a_table_grows_its_own_column_only() {
    let input = vec![
        row(vec![
            ("name", text("a")),
            ("items", Value::Table(vec![number(1), number(2), number(3)])),
        ]),
        row(vec![("name", text("b")), ("items", number(4))]),
    ];
    assert_eq!(
        select(&input, &vec![column("name"), column("items")]),
        Ok(vec![
            row(vec![("name", text("a")), ("items", number(1))]),
            row(vec![("name", text("b")), ("items", number(2))]),
            row(vec![("name", nothing()), ("items", number(3))]),
            row(vec![("name", nothing()), ("items", number(4))]),
        ])
    );
}

#[test]
fn an_empty_table_leaves_a_null_cell() {
    let input = vec![row(vec![("a", number(1)), ("items", Value::Table(vec![]))])];
    assert_eq!(
        select(&input, &vec![column("a"), column("items")]),
        Ok(vec![row(vec![("a", number(1)), ("items", nothing())])])
    );
}

#[test]
fn nested_paths_are_keyed_by_their_dotted_text() {
    let input = vec![row(vec![
        ("a", row(vec![("b", number(1))])),
        ("t", Value::Table(vec![text("x"), text("y")])),
    ])];
    let paths = vec![path(vec![name("a"), name("b")]), path(vec![name("t"), PathMember::Int(1)])];
    assert_eq!(select(&input, &paths), Ok(vec![row(vec![("a.b", number(1)), ("t.1", text("y"))])]));
}

#[test]
fn cells_keep_records_whole() {
    let inner = row(vec![("x", number(1)), ("y", Value::Table(vec![number(2)]))]);
    let input = vec![row(vec![("a", inner.clone())])];
    assert_eq!(select(&input, &vec![column("a")]), Ok(vec![row(vec![("a", inner)])]));
}

#[test]
fn strict_selection_fails_on_the_first_missing_column() {
    let input = vec![
        row(vec![("a", number(1)), ("b", number(1))]),
        row(vec![("b", number(2))]),
        row(vec![("a", number(3))]),
    ];
    let paths = vec![column("a"), column("b")];
    assert_eq!(
        select_with(&input, &paths, OnMissingColumn::Fail),
        Err(SelectError::NotFound(NotFound { member: name("a") }))
    );
    assert_eq!(
        select_with(&input, &paths, OnMissingColumn::Lenient),
        Ok(vec![
            row(vec![("a", number(1)), ("b", number(1))]),
            row(vec![("a", number(3)), ("b", number(2))]),
        ])
    );
}

#[test]
fn strict_selection_succeeds_where_nothing_is_missing() {
    let input = vec![row(vec![("a", number(1))]), row(vec![("a", number(2))])];
    assert_eq!(
        select_with(&input, &vec![column("a")], OnMissingColumn::Fail),
        Ok(vec![row(vec![("a", number(1))]), row(vec![("a", number(2))])])
    );
}

#[test]
fn errors_say_what_went_wrong() {
    assert_eq!(SelectError::NoColumns.message(), "Select requires columns to select");
    assert_eq!(SelectError::NoColumns.label(), "needs parameter");
    let reason = NotFound { member: name("size") };
    assert_eq!(reason.message(), "No data to fetch.");
    assert_eq!(reason.label(), "Couldn't select column \"size\"");
    assert_eq!(
        reason.hint(),
        "How about exploring it with \"get\"? Check the input is appropriate originating from here"
    );
    assert_eq!(NotFound { member: PathMember::Int(12) }.label(), "Couldn't select column \"12\"");
    let wrapped = SelectError::NotFound(NotFound { member: name("size") });
    assert_eq!(wrapped.message(), "No data to fetch.");
    assert_eq!(wrapped.label(), "Couldn't select column \"size\"");
}

#[test]
fn the_command_describes_itself() {
    assert_eq!(Select.name(), "select");
    assert_eq!(Select.usage(), "Down-select table to only these columns.");
    let rest = (SyntaxShape::ColumnPath, "the columns to select from the table");
    assert_eq!(Select.signature(), Signature { name: "select", rest_positional: Some(rest) });
    let examples = Select.examples();
    assert_eq!(examples.len(), 2);
    assert_eq!(examples[0].description, "Select just the name column");
    assert_eq!(examples[0].example, "ls | select name");
    assert_eq!(examples[0].result, None);
    assert_eq!(examples[1].description, "Select the name and size columns");
    assert_eq!(examples[1].example, "ls | select name size");
    assert_eq!(examples[1].result, None);
}
