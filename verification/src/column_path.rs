use crate::nu::render_key;
use vstd::prelude::*;

verus! {

/// One step of a column path: the name of a field, or the index of a table's item.
#[derive(Debug, PartialEq, Eq)]
pub enum PathMember {
    String(String),
    Int(u64),
}

/// The mathematical content of a [`PathMember`].
pub enum PathMemberView {
    String(Seq<char>),
    Int(nat),
}

impl PathMemberView {
    /// How a step is written down: a name as it is, an index in decimal.
    pub open spec fn text(self) -> Seq<char> {
        match self {
            PathMemberView::String(name) => name,
            PathMemberView::Int(index) => decimal(index),
        }
    }
}

impl View for PathMember {
    type V = PathMemberView;

    open spec fn view(&self) -> PathMemberView {
        match self {
            PathMember::String(name) => PathMemberView::String(name@),
            PathMember::Int(index) => PathMemberView::Int(*index as nat),
        }
    }
}

impl Clone for PathMember {
    fn clone(&self) -> (copy: Self)
        ensures
            copy@ == self@,
    {
        match self {
            PathMember::String(name) => PathMember::String(name.clone()),
            PathMember::Int(index) => PathMember::Int(*index),
        }
    }
}

impl PathMember {
    /// How the step is written down: a name as it is, an index in decimal.
    pub fn text(&self) -> (text: String)
        ensures
            text@ == self@.text(),
    {
        match self {
            PathMember::String(name) => name.clone(),
            PathMember::Int(_) => {
                let mut members: Vec<PathMember> = Vec::new();
                members.push(self.clone());
                match ColumnPath::new(members) {
                    Some(path) => path.key(),
                    None => String::new(),
                }
            },
        }
    }
}

impl DeepView for PathMember {
    type V = PathMemberView;

    open spec fn deep_view(&self) -> PathMemberView {
        self@
    }
}

/// The character for one decimal digit.
pub open spec fn digit(d: nat) -> char
    recommends
        d < 10,
{
    if d == 0 {
        '0'
    } else if d == 1 {
        '1'
    } else if d == 2 {
        '2'
    } else if d == 3 {
        '3'
    } else if d == 4 {
        '4'
    } else if d == 5 {
        '5'
    } else if d == 6 {
        '6'
    } else if d == 7 {
        '7'
    } else if d == 8 {
        '8'
    } else {
        '9'
    }
}

/// A number in decimal, without leading zeros.
pub open spec fn decimal(n: nat) -> Seq<char>
    decreases n,
{
    if n < 10 {
        seq![digit(n)]
    } else {
        decimal(n / 10).push(digit(n % 10))
    }
}

/// The key of a path: its steps as text, joined by dots.
pub open spec fn key_of(path: Seq<PathMemberView>) -> Seq<char>
    decreases path.len(),
{
    if path.len() == 0 {
        Seq::empty()
    } else if path.len() == 1 {
        path[0].text()
    } else {
        key_of(path.drop_last()) + seq!['.'] + path.last().text()
    }
}

/// The steps that lead from a record to one of its cells. A path has at least
/// one step.
#[derive(Debug, PartialEq, Eq)]
pub struct ColumnPath {
    members: Vec<PathMember>,
}

impl View for ColumnPath {
    type V = Seq<PathMemberView>;

    closed spec fn view(&self) -> Seq<PathMemberView> {
        self.members.deep_view()
    }
}

impl DeepView for ColumnPath {
    type V = Seq<PathMemberView>;

    open spec fn deep_view(&self) -> Seq<PathMemberView> {
        self@
    }
}

impl Clone for ColumnPath {
    fn clone(&self) -> (copy: Self)
        ensures
            copy@ == self@,
    {
        proof {
            use_type_invariant(self);
        }
        let mut members: Vec<PathMember> = Vec::new();
        let mut i: usize = 0;
        while i < self.members.len()
            invariant
                i <= self.members.len(),
                members.len() == i,
                forall|j: int| 0 <= j < i ==> members[j]@ == self.members[j]@,
            decreases self.members.len() - i,
        {
            members.push(self.members[i].clone());
            i += 1;
        }
        ColumnPath { members }
    }
}

impl ColumnPath {
    #[verifier::type_invariant]
    spec fn has_a_step(self) -> bool {
        self.members@.len() > 0
    }

    /// The path with these steps, unless there are none.
    pub fn new(members: Vec<PathMember>) -> (path: Option<ColumnPath>)
        ensures
            path is None <==> members@.len() == 0,
            path is Some ==> path->Some_0@ == members.deep_view(),
    {
        if members.len() == 0 {
            None
        } else {
            Some(ColumnPath { members })
        }
    }

    /// The steps of the path, in order.
    pub fn members(&self) -> (members: &Vec<PathMember>)
        ensures
            members.deep_view() == self@,
            members@.len() > 0,
    {
        proof {
            use_type_invariant(self);
        }
        &self.members
    }

    /// The key under which the column of this path is kept.
    pub fn key(&self) -> (key: String)
        ensures
            key@ == key_of(self@),
    {
        render_key(self)
    }
}

} // verus!
