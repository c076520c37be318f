use vstd::prelude::*;

verus! {

/// A calendar date, kept as its year, month and day.
#[derive(Clone, Copy, Debug, PartialEq, Eq, Structural)]
pub struct Date {
    pub year: i32,
    pub month: u32,
    pub day: u32,
}

/// A trackable item on a group's board.
#[derive(Clone, Debug)]
pub struct Goal {
    pub id: i64,
    pub title: String,
    pub description: Option<String>,
    /// Position on the board: 0 to 3 are columns, 4 is the hidden overflow stage.
    pub stage: i64,
    pub deadline: Option<Date>,
    pub group_id: i64,
}

/// A user-owned container of goals.
#[derive(Clone, Debug)]
pub struct Group {
    pub id: i64,
    pub title: String,
    pub description: Option<String>,
    pub tone_id: i64,
    pub user_id: i64,
}

/// A labelling template that a group refers to: either global or owned by one user.
#[derive(Clone, Debug)]
pub struct Tone {
    pub id: i64,
    pub name: String,
    /// One label per board column.
    pub stages: Vec<String>,
    pub deadline: String,
    pub global: bool,
    pub greeting: String,
    pub unmet_behavior: String,
    pub user_id: Option<i64>,
}

/// A group joined with its tone, as the board shows it.
#[derive(Clone, Debug)]
pub struct GroupDisplay {
    pub id: i64,
    pub title: String,
    pub description: Option<String>,
    pub tone_name: String,
    pub stages: Vec<String>,
    pub greeting: String,
}

/// A group as it appears in the navigation sidebar.
#[derive(Clone, Debug)]
pub struct GroupLink {
    pub id: i64,
    pub title: String,
}

pub fn copy_text(s: &Option<String>) -> (r: Option<String>)
    ensures
        r == *s,
{
    match s {
        Some(t) => Some(t.clone()),
        None => None,
    }
}

pub fn copy_labels(v: &Vec<String>) -> (r: Vec<String>)
    ensures
        r@ == v@,
{
    let mut r: Vec<String> = Vec::new();
    let mut i: usize = 0;
    while i < v.len()
        invariant
            i <= v.len(),
            r@ == v@.take(i as int),
        decreases v.len() - i,
    {
        r.push(v[i].clone());
        i = i + 1;
        assert(r@ =~= v@.take(i as int));
    }
    assert(r@ =~= v@);
    r
}

impl Goal {
    /// A field-by-field copy.
    pub fn duplicate(&self) -> (r: Goal)
        ensures
            r == *self,
    {
        Goal {
            id: self.id,
            title: self.title.clone(),
            description: copy_text(&self.description),
            stage: self.stage,
            deadline: self.deadline,
            group_id: self.group_id,
        }
    }
}

impl Group {
    /// A field-by-field copy.
    pub fn duplicate(&self) -> (r: Group)
        ensures
            r == *self,
    {
        Group {
            id: self.id,
            title: self.title.clone(),
            description: copy_text(&self.description),
            tone_id: self.tone_id,
            user_id: self.user_id,
        }
    }
}

impl Tone {
    /// Whether two tones hold the same values.
    pub open spec fn same(self, o: Tone) -> bool {
        &&& self.id == o.id
        &&& self.name == o.name
        &&& self.stages@ == o.stages@
        &&& self.deadline == o.deadline
        &&& self.global == o.global
        &&& self.greeting == o.greeting
        &&& self.unmet_behavior == o.unmet_behavior
        &&& self.user_id == o.user_id
    }

    /// A field-by-field copy.
    pub fn duplicate(&self) -> (r: Tone)
        ensures
            r.same(*self),
    {
        Tone {
            id: self.id,
            name: self.name.clone(),
            stages: copy_labels(&self.stages),
            deadline: self.deadline.clone(),
            global: self.global,
            greeting: self.greeting.clone(),
            unmet_behavior: self.unmet_behavior.clone(),
            user_id: self.user_id,
        }
    }
}

} // verus!
