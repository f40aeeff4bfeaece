use crate::column_path::{ColumnPath, PathMember, PathMemberView};
use crate::nu::{fetch, resolved};
use crate::value::{Value, ValueView};
use vstd::prelude::*;
use vstd::string::StringExecFns;

verus! {

/// A path did not lead anywhere in a record: `member` is the step that could
/// not be taken.
#[derive(Debug, PartialEq, Eq)]
pub struct NotFound {
    pub member: PathMember,
}

impl NotFound {
    /// What went wrong, in a few words.
    pub open spec fn message_text() -> Seq<char> {
        "No data to fetch."@
    }

    /// Which column could not be had.
    pub open spec fn label_text(member: PathMemberView) -> Seq<char> {
        "Couldn't select column \""@ + member.text() + "\""@
    }

    /// What to try next.
    pub open spec fn hint_text() -> Seq<char> {
        "How about exploring it with \"get\"? Check the input is appropriate originating from here"@
    }

    /// What went wrong, in a few words.
    pub fn message(&self) -> (text: String)
        ensures
            text@ == Self::message_text(),
    {
        "No data to fetch.".to_owned()
    }

    /// Which column could not be had.
    pub fn label(&self) -> (text: String)
        ensures
            text@ == Self::label_text(self.member@),
    {
        let column = self.member.text();
        "Couldn't select column \"".to_owned().concat(column.as_str()).concat("\"")
    }

    /// What to try next.
    pub fn hint(&self) -> (text: String)
        ensures
            text@ == Self::hint_text(),
    {
        let hint =
            "How about exploring it with \"get\"? Check the input is appropriate originating from here";
        hint.to_owned()
    }
}

/// The content of a look-up's result.
pub open spec fn outcome(found: Result<Value, NotFound>) -> Result<ValueView, PathMemberView> {
    match found {
        Ok(value) => Ok(value@),
        Err(reason) => Err(reason.member@),
    }
}

/// Follows `path` into `record`, step by step: a name leads to the field of
/// that name, an index to the item at that place. The look-up is the value
/// model's own; where it cannot take a step, that step is handed back.
pub fn resolve(record: &Value, path: &ColumnPath) -> (found: Result<Value, NotFound>)
    ensures
        outcome(found) == resolved(record@, path@),
{
    match fetch(record, path) {
        Ok(value) => Ok(value),
        Err(member) => Err(NotFound { member }),
    }
}

} // verus!
