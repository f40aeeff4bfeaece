use crate::column_path::{ColumnPath, PathMemberView};
use crate::columns::{Columns, OnMissingColumn};
use crate::laws::lemma_accumulated_step;
use crate::model;
use crate::model::{accumulated, keyed_by, misses, stopped_at, synthesized, well_formed};
use crate::resolve::NotFound;
use crate::select::SelectError;
use crate::value::{Value, ValueView};
use vstd::prelude::*;

verus! {

/// Where a selection stands: taking records in, giving rows out, or finished.
/// There is no way back.
#[derive(Debug, Clone, Copy, PartialEq, Eq)]
pub enum Stage {
    Collecting,
    Synthesizing,
    Done,
}

/// A selection that is fed record by record and then asked for its rows one
/// by one: no row is made before it is asked for, and none is made twice.
pub struct Operator {
    paths: Vec<ColumnPath>,
    policy: OnMissingColumn,
    columns: Columns,
    keys: Vec<String>,
    width: usize,
    given: usize,
    stage: Stage,
    taken: Ghost<Seq<ValueView>>,
}

impl Operator {
    /// The stage the selection is in.
    pub closed spec fn stage_of(&self) -> Stage {
        self.stage
    }

    /// The requested paths.
    pub closed spec fn paths_of(&self) -> Seq<Seq<PathMemberView>> {
        self.paths.deep_view()
    }

    /// The policy for look-ups that find nothing.
    pub closed spec fn policy_of(&self) -> OnMissingColumn {
        self.policy
    }

    /// The records taken in so far, in arrival order.
    pub closed spec fn taken_in(&self) -> Seq<ValueView> {
        self.taken@
    }

    /// The number of rows given out so far.
    pub closed spec fn given_out(&self) -> nat {
        self.given as nat
    }

    /// The rows of the selection, once the input has ended.
    pub open spec fn rows(&self) -> Seq<ValueView> {
        synthesized(accumulated(self.taken_in(), self.paths_of()))
    }

    /// What holds of every selection: there is a path; while records come in,
    /// no row has been given; and while rows go out, there is one more to give.
    pub closed spec fn valid(&self) -> bool {
        &&& self.paths@.len() > 0
        &&& well_formed(self.columns@)
        &&& self.stage is Collecting ==> self.given == 0
        &&& !(self.stage is Done) ==> self.columns@ == accumulated(
            self.taken@,
            self.paths.deep_view(),
        )
        &&& self.stage is Synthesizing ==> {
            &&& self.width == model::width(self.columns@)
            &&& self.given < self.width
            &&& keyed_by(self.columns@, self.keys@)
        }
    }

    /// A selection of `paths`, ready to take records in; none without a path.
    pub fn new(
        paths: Vec<ColumnPath>,
        policy: OnMissingColumn,
    ) -> (made: Result<Operator, SelectError>)
        ensures
            made is Err <==> paths.len() == 0,
            made is Err ==> made->Err_0 == SelectError::NoColumns,
            made is Ok ==> made->Ok_0.valid(),
            made is Ok ==> made->Ok_0.stage_of() is Collecting,
            made is Ok ==> made->Ok_0.paths_of() == paths.deep_view(),
            made is Ok ==> made->Ok_0.policy_of() == policy,
            made is Ok ==> made->Ok_0.taken_in() == Seq::<ValueView>::empty(),
            made is Ok ==> made->Ok_0.given_out() == 0,
    {
        if paths.len() == 0 {
            return Err(SelectError::NoColumns);
        }
        Ok(
            Operator {
                paths,
                policy,
                columns: Columns::new(),
                keys: Vec::new(),
                width: 0,
                given: 0,
                stage: Stage::Collecting,
                taken: Ghost(Seq::empty()),
            },
        )
    }

    /// The stage the selection is in.
    pub fn stage(&self) -> (stage: Stage)
        ensures
            stage == self.stage_of(),
    {
        self.stage
    }

    /// Hands one record in. While collecting, the record is taken in and the
    /// answer is `true`; under `Fail`, a record that has nothing along some
    /// path ends the selection instead. After collecting, the record is left
    /// aside and the answer is `false`.
    pub fn push(&mut self, record: &Value) -> (pushed: Result<bool, NotFound>)
        requires
            old(self).valid(),
        ensures
            final(self).valid(),
            final(self).paths_of() == old(self).paths_of(),
            final(self).policy_of() == old(self).policy_of(),
            final(self).given_out() == old(self).given_out(),
            pushed is Err <==> old(self).stage_of() is Collecting
                && old(self).policy_of() is Fail
                && misses(record@, old(self).paths_of()),
            pushed is Err ==> final(self).stage_of() is Done,
            pushed is Err ==> exists|j: int| #[trigger]
                stopped_at(record@, old(self).paths_of(), j, pushed->Err_0.member@),
            pushed is Ok ==> final(self).stage_of() == old(self).stage_of(),
            pushed is Ok ==> pushed->Ok_0 == (old(self).stage_of() is Collecting),
            pushed == Ok::<bool, NotFound>(true)
                ==> final(self).taken_in() == old(self).taken_in().push(record@),
            pushed == Ok::<bool, NotFound>(false)
                ==> final(self).taken_in() == old(self).taken_in(),
    {
        match self.stage {
            Stage::Collecting => {
                match self.columns.absorb_record(record, &self.paths, self.policy) {
                    Ok(()) => {
                        proof {
                            lemma_accumulated_step(self.taken@, record@, self.paths.deep_view());
                        }
                        self.taken = Ghost(self.taken@.push(record@));
                        Ok(true)
                    },
                    Err(reason) => {
                        self.stage = Stage::Done;
                        Err(reason)
                    },
                }
            },
            _ => Ok(false),
        }
    }

    /// Says that the input has ended. A collecting selection goes on to give
    /// its rows, or is finished at once where it has none; at any other stage
    /// nothing changes.
    pub fn finish(&mut self)
        requires
            old(self).valid(),
        ensures
            final(self).valid(),
            final(self).paths_of() == old(self).paths_of(),
            final(self).policy_of() == old(self).policy_of(),
            final(self).taken_in() == old(self).taken_in(),
            final(self).given_out() == old(self).given_out(),
            !(old(self).stage_of() is Collecting)
                ==> final(self).stage_of() == old(self).stage_of(),
            old(self).stage_of() is Collecting && old(self).rows().len() > 0
                ==> final(self).stage_of() is Synthesizing,
            old(self).stage_of() is Collecting && old(self).rows().len() == 0
                ==> final(self).stage_of() is Done,
    {
        match self.stage {
            Stage::Collecting => {
                let width = self.columns.width();
                if width == 0 {
                    self.stage = Stage::Done;
                } else {
                    self.keys = self.columns.keys();
                    self.width = width;
                    self.stage = Stage::Synthesizing;
                }
            },
            _ => {},
        }
    }

    /// Asks for the next row. While rows go out, the next one is made and
    /// given, and with the last one the selection is finished; at any other
    /// stage there is none.
    pub fn pull(&mut self) -> (row: Option<Value>)
        requires
            old(self).valid(),
        ensures
            final(self).valid(),
            final(self).paths_of() == old(self).paths_of(),
            final(self).policy_of() == old(self).policy_of(),
            final(self).taken_in() == old(self).taken_in(),
            row is Some <==> old(self).stage_of() is Synthesizing,
            row is Some ==> old(self).given_out() < old(self).rows().len(),
            row is Some ==> row->Some_0@ == old(self).rows()[old(self).given_out() as int],
            row is Some ==> final(self).given_out() == old(self).given_out() + 1,
            row is Some && final(self).given_out() < old(self).rows().len()
                ==> final(self).stage_of() is Synthesizing,
            row is Some && final(self).given_out() >= old(self).rows().len()
                ==> final(self).stage_of() is Done,
            row is None ==> final(self).stage_of() == old(self).stage_of(),
            row is None ==> final(self).given_out() == old(self).given_out(),
    {
        match self.stage {
            Stage::Synthesizing => {
                let row = self.columns.row_by(&self.keys, self.given);
                self.given = self.given + 1;
                if self.given == self.width {
                    self.stage = Stage::Done;
                }
                Some(row)
            },
            _ => None,
        }
    }

    /// Says that no more rows are wanted: the selection is finished.
    pub fn stop(&mut self)
        requires
            old(self).valid(),
        ensures
            final(self).valid(),
            final(self).stage_of() is Done,
            final(self).paths_of() == old(self).paths_of(),
            final(self).policy_of() == old(self).policy_of(),
            final(self).taken_in() == old(self).taken_in(),
            final(self).given_out() == old(self).given_out(),
    {
        self.stage = Stage::Done;
    }
}

} // verus!
