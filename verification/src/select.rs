use crate::column_path::ColumnPath;
use crate::columns::{accumulate, OnMissingColumn};
use crate::model::{accumulated, any_missing, failed_at, synthesized};
use crate::resolve::NotFound;
use crate::value::Value;
use vstd::prelude::*;

verus! {

/// Why a selection gave no output.
#[derive(Debug, PartialEq, Eq)]
pub enum SelectError {
    /// No column was asked for.
    NoColumns,
    /// A record had nothing along a requested path, and the policy was `Fail`.
    NotFound(NotFound),
}

impl SelectError {
    /// What went wrong, in a few words.
    pub open spec fn message_text(self) -> Seq<char> {
        match self {
            SelectError::NoColumns => "Select requires columns to select"@,
            SelectError::NotFound(_) => NotFound::message_text(),
        }
    }

    /// What to point at.
    pub open spec fn label_text(self) -> Seq<char> {
        match self {
            SelectError::NoColumns => "needs parameter"@,
            SelectError::NotFound(reason) => NotFound::label_text(reason.member@),
        }
    }

    /// What went wrong, in a few words.
    pub fn message(&self) -> (text: String)
        ensures
            text@ == self.message_text(),
    {
        match self {
            SelectError::NoColumns => "Select requires columns to select".to_owned(),
            SelectError::NotFound(reason) => reason.message(),
        }
    }

    /// What to point at.
    pub fn label(&self) -> (text: String)
        ensures
            text@ == self.label_text(),
    {
        match self {
            SelectError::NoColumns => "needs parameter".to_owned(),
            SelectError::NotFound(reason) => reason.label(),
        }
    }
}

/// A way to use the command, for its help text.
#[derive(Debug, PartialEq, Eq)]
pub struct Example {
    pub description: &'static str,
    pub example: &'static str,
    pub result: Option<Vec<Value>>,
}

/// The shape of the arguments that a command takes.
#[derive(Debug, Clone, Copy, PartialEq, Eq)]
pub enum SyntaxShape {
    /// A path to a column: names and indices, joined by dots.
    ColumnPath,
}

/// What a command takes: the name by which it is called, and what may follow
/// the name.
#[derive(Debug, PartialEq, Eq)]
pub struct Signature {
    pub name: &'static str,
    /// The arguments that may follow in any number: their shape, and what they
    /// are for.
    pub rest_positional: Option<(SyntaxShape, &'static str)>,
}

/// Selects columns under a policy for look-ups that find nothing. Without any
/// path there is no output. Otherwise the records are taken in one by one, each
/// along every path, and the columns so filled are stitched into rows.
pub fn select_with(
    input: &Vec<Value>,
    paths: &Vec<ColumnPath>,
    policy: OnMissingColumn,
) -> (output: Result<Vec<Value>, SelectError>)
    ensures
        output is Ok <==> paths.len() > 0
            && !(policy is Fail && any_missing(input.deep_view(), paths.deep_view())),
        output is Ok ==> output->Ok_0.deep_view()
            == synthesized(accumulated(input.deep_view(), paths.deep_view())),
        paths.len() == 0 ==> output == Err::<Vec<Value>, SelectError>(SelectError::NoColumns),
        paths.len() > 0 && output is Err ==> output->Err_0 is NotFound,
        paths.len() > 0 && output is Err ==> exists|i: int, j: int| #[trigger]
            failed_at(
                input.deep_view(),
                paths.deep_view(),
                i,
                j,
                output->Err_0->NotFound_0.member@,
            ),
{
    if paths.len() == 0 {
        return Err(SelectError::NoColumns);
    }
    match accumulate(input, paths, policy) {
        Ok(columns) => Ok(columns.synthesize()),
        Err(reason) => Err(SelectError::NotFound(reason)),
    }
}

/// Selects columns: the output holds, for each requested path, the column of
/// what the records have along it, and the null marker where a column is short.
/// A record that has nothing along a path gives that column no entry.
pub fn select(
    input: &Vec<Value>,
    paths: &Vec<ColumnPath>,
) -> (output: Result<Vec<Value>, SelectError>)
    ensures
        output is Ok <==> paths.len() > 0,
        output is Ok ==> output->Ok_0.deep_view()
            == synthesized(accumulated(input.deep_view(), paths.deep_view())),
        output is Err ==> output == Err::<Vec<Value>, SelectError>(SelectError::NoColumns),
{
    select_with(input, paths, OnMissingColumn::Lenient)
}

/// The command that down-selects a table to the requested columns.
pub struct Select;

impl Select {
    /// The command's name.
    pub fn name(&self) -> (name: &'static str)
        ensures
            name@ == "select"@,
    {
        "select"
    }

    /// The command's one-line description.
    pub fn usage(&self) -> (usage: &'static str)
        ensures
            usage@ == "Down-select table to only these columns."@,
    {
        "Down-select table to only these columns."
    }

    /// What the command takes: after its name, any number of column paths.
    pub fn signature(&self) -> (signature: Signature)
        ensures
            signature.name@ == "select"@,
            signature.rest_positional is Some,
            signature.rest_positional->Some_0.0 is ColumnPath,
            signature.rest_positional->Some_0.1@ == "the columns to select from the table"@,
    {
        let rest = (SyntaxShape::ColumnPath, "the columns to select from the table");
        Signature { name: self.name(), rest_positional: Some(rest) }
    }

    /// Runs the command on a whole input.
    pub fn run(
        &self,
        input: &Vec<Value>,
        paths: &Vec<ColumnPath>,
    ) -> (output: Result<Vec<Value>, SelectError>)
        ensures
            output is Ok <==> paths.len() > 0,
            output is Ok ==> output->Ok_0.deep_view()
                == synthesized(accumulated(input.deep_view(), paths.deep_view())),
            output is Err ==> output == Err::<Vec<Value>, SelectError>(SelectError::NoColumns),
    {
        select(input, paths)
    }

    /// Two ways to use the command.
    pub fn examples(&self) -> (examples: Vec<Example>)
        ensures
            examples@.len() == 2,
            examples@[0].description@ == "Select just the name column"@,
            examples@[0].example@ == "ls | select name"@,
            examples@[0].result is None,
            examples@[1].description@ == "Select the name and size columns"@,
            examples@[1].example@ == "ls | select name size"@,
            examples@[1].result is None,
    {
        let mut examples: Vec<Example> = Vec::new();
        examples.push(
            Example {
                description: "Select just the name column",
                example: "ls | select name",
                result: None,
            },
        );
        examples.push(
            Example {
                description: "Select the name and size columns",
                example: "ls | select name size",
                result: None,
            },
        );
        examples
    }
}

} // verus!
