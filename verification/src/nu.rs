use crate::column_path::{key_of, ColumnPath, PathMember, PathMemberView};
use crate::value::{Primitive, Value, ValueView};
use nu_protocol::Primitive as Outside;
use nu_protocol::{UnspannedPathMember, UntaggedValue};
use nu_source::Span;
use nu_value_ext::{as_string, get_data_by_column_path};
use vstd::prelude::*;

verus! {

/// `nu_protocol::UntaggedValue`: a value of the pipeline, without its tag.
#[verifier::external_type_specification]
#[verifier::external_body]
pub struct ExUntaggedValue(UntaggedValue);

/// `nu_protocol::UnspannedPathMember`: a step of a path, without its span.
#[verifier::external_type_specification]
#[verifier::external_body]
pub struct ExUnspannedPathMember(UnspannedPathMember);

/// What `nu_value_ext::get_data_by_column_path` finds in `record` along `path`:
/// the value there, or, where a step cannot be taken, that step.
pub uninterp spec fn resolved(record: ValueView, path: Seq<PathMemberView>) -> Result<
    ValueView,
    PathMemberView,
>;

/// Writes a value as `nu_protocol` holds it, variant by variant, with
/// `UntaggedValue`'s own constructors. No provenance is attached.
#[verifier::external_body]
fn to_outside(value: &Value) -> UntaggedValue {
    match value {
        Value::Primitive(Primitive::Nothing) => UntaggedValue::nothing(),
        Value::Primitive(Primitive::Boolean(b)) => UntaggedValue::boolean(*b),
        Value::Primitive(Primitive::Int(n)) => UntaggedValue::int(*n),
        Value::Primitive(Primitive::String(s)) => UntaggedValue::string(s.clone()),
        Value::Row(fields) => UntaggedValue::row(
            fields.iter().map(|f| (f.0.clone(), to_outside(&f.1).into_untagged_value())).collect(),
        ),
        Value::Table(rows) => UntaggedValue::Table(
            rows.iter().map(|row| to_outside(row).into_untagged_value()).collect(),
        ),
    }
}

/// Reads a value that `nu_protocol` holds, variant by variant. Of the scalars
/// only those kinds come back that [`to_outside`] writes; any other kind, which
/// no value written there holds, is read as the null marker.
#[verifier::external_body]
fn from_outside(value: &UntaggedValue) -> Value {
    let scalar = match value {
        UntaggedValue::Row(row) => {
            let cells = row.entries.iter();
            return Value::Row(cells.map(|(k, v)| (k.clone(), from_outside(&v.value))).collect());
        },
        UntaggedValue::Table(rows) => {
            return Value::Table(rows.iter().map(|row| from_outside(&row.value)).collect());
        },
        UntaggedValue::Primitive(Outside::Boolean(b)) => Primitive::Boolean(*b),
        UntaggedValue::Primitive(Outside::Int(n)) => i64::try_from(n).map_or(Primitive::Nothing, Primitive::Int),
        UntaggedValue::Primitive(Outside::String(s)) => Primitive::String(s.clone()),
        _ => Primitive::Nothing,
    };
    Value::Primitive(scalar)
}

/// Writes a step as `nu_protocol` holds it.
#[verifier::external_body]
fn member_to_outside(member: &PathMember) -> UnspannedPathMember {
    match member {
        PathMember::String(name) => UnspannedPathMember::String(name.clone()),
        PathMember::Int(index) => UnspannedPathMember::Int((*index).into()),
    }
}

/// Reads a step that `nu_protocol` holds. An index comes back as it was
/// written by [`member_to_outside`]; one beyond 64 bits, which is never written
/// there, is read as 0.
#[verifier::external_body]
fn member_from_outside(member: &UnspannedPathMember) -> PathMember {
    match member {
        UnspannedPathMember::String(name) => PathMember::String(name.clone()),
        UnspannedPathMember::Int(n) => PathMember::Int(u64::try_from(n).unwrap_or_default()),
    }
}

/// Calls `nu_value_ext::get_data_by_column_path`, which walks `path` into
/// `record` step by step and hands the step that cannot be taken to its error
/// callback. Record and path go in, and the outcome comes out, through the
/// conversions above. The contract names what comes of it: the same record and
/// path always give the same outcome.
#[verifier::external_body]
pub(crate) fn fetch(record: &Value, path: &ColumnPath) -> (found: Result<Value, PathMember>)
    ensures
        match found {
            Ok(value) => resolved(record@, path@) == Ok::<ValueView, PathMemberView>(value@),
            Err(member) => resolved(record@, path@) == Err::<ValueView, PathMemberView>(member@),
        },
{
    let members = path.members().iter();
    let steps = members.map(|m| member_to_outside(m).into_path_member(Span::unknown()));
    let mut tried = path.members()[0].clone();
    let found = get_data_by_column_path(
        &to_outside(record).into_untagged_value(),
        &nu_protocol::ColumnPath::new(steps.collect()),
        |_, step, error| { tried = member_from_outside(&step.unspanned); error },
    );
    match found {
        Ok(value) => Ok(from_outside(&value.value)),
        Err(_) => Err(tried),
    }
}

/// Calls `nu_value_ext::as_string` on the path as a cell. For such a cell it
/// always answers, with the steps joined by dots: a name as it stands, an
/// index in decimal.
#[verifier::external_body]
pub(crate) fn render_key(path: &ColumnPath) -> (key: String)
    ensures
        key@ == key_of(path@),
{
    let members = path.members().iter();
    let steps = members.map(|m| member_to_outside(m).into_path_member(Span::unknown()));
    let path = nu_protocol::ColumnPath::new(steps.collect());
    let cell = UntaggedValue::Primitive(Outside::ColumnPath(path));
    as_string(&cell.into_untagged_value()).unwrap_or_default()
}

} // verus!
