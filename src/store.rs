use crate::model::{copy_labels, copy_text, Date, Goal, Group, GroupDisplay, GroupLink, Tone};
use vstd::prelude::*;

verus! {

/// The groups of a user, in their stored order.
pub open spec fn groups_of(groups: Seq<Group>, user_id: i64) -> Seq<Group> {
    groups.filter(|g: Group| g.user_id == user_id)
}

/// The goals of a group, in their stored order.
pub open spec fn goals_of(goals: Seq<Goal>, group_id: i64) -> Seq<Goal> {
    goals.filter(|g: Goal| g.group_id == group_id)
}

/// The tones a user may pick: the global ones and the user's own.
pub open spec fn tones_for(tones: Seq<Tone>, user_id: i64) -> Seq<Tone> {
    tones.filter(|t: Tone| t.global || t.user_id == Some(user_id))
}

/// The sidebar link of a group.
pub open spec fn link_of(g: Group) -> GroupLink {
    GroupLink { id: g.id, title: g.title }
}

/// Whether the group `group_id` exists and belongs to `user_id`.
pub open spec fn owns(groups: Seq<Group>, user_id: i64, group_id: i64) -> bool {
    exists|i: int| 0 <= i < groups.len() && #[trigger] groups[i].id == group_id && groups[i].user_id == user_id
}

/// Whether the goal `goal_id` exists in the group `group_id`.
pub open spec fn has_goal(goals: Seq<Goal>, group_id: i64, goal_id: i64) -> bool {
    exists|i: int| 0 <= i < goals.len() && #[trigger] goals[i].id == goal_id && goals[i].group_id == group_id
}

/// Whether a tone with the given id exists.
pub open spec fn has_tone(tones: Seq<Tone>, tone_id: i64) -> bool {
    exists|i: int| 0 <= i < tones.len() && #[trigger] tones[i].id == tone_id
}

/// The groups after the owner of `group_id` sets its editable fields.
pub open spec fn with_group_fields(
    groups: Seq<Group>,
    user_id: i64,
    group_id: i64,
    title: String,
    description: Option<String>,
    tone_id: i64,
) -> Seq<Group> {
    groups.map_values(
        |g: Group|
            if g.id == group_id && g.user_id == user_id {
                Group { id: g.id, title: title, description: description, tone_id: tone_id, user_id: g.user_id }
            } else {
                g
            },
    )
}

/// The groups after the group `group_id` of `user_id` is removed.
pub open spec fn without_group(groups: Seq<Group>, user_id: i64, group_id: i64) -> Seq<Group> {
    groups.filter(|g: Group| !(g.id == group_id && g.user_id == user_id))
}

/// The goals after every goal of the group `group_id` is removed.
pub open spec fn without_goals_of(goals: Seq<Goal>, group_id: i64) -> Seq<Goal> {
    goals.filter(|g: Goal| g.group_id != group_id)
}

/// The goals after the goal `goal_id` of `group_id` is removed.
pub open spec fn without_goal(goals: Seq<Goal>, group_id: i64, goal_id: i64) -> Seq<Goal> {
    goals.filter(|g: Goal| !(g.id == goal_id && g.group_id == group_id))
}

/// The goals after the goal `goal_id` of `group_id` takes new values.
pub open spec fn with_goal_fields(
    goals: Seq<Goal>,
    group_id: i64,
    goal_id: i64,
    title: String,
    description: Option<String>,
    deadline: Option<Date>,
    stage: i64,
) -> Seq<Goal> {
    goals.map_values(
        |g: Goal|
            if g.id == goal_id && g.group_id == group_id {
                Goal {
                    id: g.id,
                    title: title,
                    description: description,
                    stage: stage,
                    deadline: deadline,
                    group_id: g.group_id,
                }
            } else {
                g
            },
    )
}

/// The goals after the goal `goal_id` of `group_id` moves to `stage`.
pub open spec fn with_goal_stage(goals: Seq<Goal>, group_id: i64, goal_id: i64, stage: i64) -> Seq<
    Goal,
> {
    goals.map_values(
        |g: Goal|
            if g.id == goal_id && g.group_id == group_id {
                Goal {
                    id: g.id,
                    title: g.title,
                    description: g.description,
                    stage: stage,
                    deadline: g.deadline,
                    group_id: g.group_id,
                }
            } else {
                g
            },
    )
}

proof fn lemma_take_push<A>(s: Seq<A>, i: int)
    requires
        0 <= i < s.len(),
    ensures
        s.take(i + 1) == s.take(i).push(s[i]),
{
    assert(s.take(i + 1) =~= s.take(i).push(s[i]));
}

proof fn lemma_groups_of_push(s: Seq<Group>, g: Group, user_id: i64)
    ensures
        groups_of(s.push(g), user_id) == if g.user_id == user_id {
            groups_of(s, user_id).push(g)
        } else {
            groups_of(s, user_id)
        },
{
    s.lemma_filter_push(g, |h: Group| h.user_id == user_id);
}

proof fn lemma_goals_of_push(s: Seq<Goal>, g: Goal, group_id: i64)
    ensures
        goals_of(s.push(g), group_id) == if g.group_id == group_id {
            goals_of(s, group_id).push(g)
        } else {
            goals_of(s, group_id)
        },
{
    s.lemma_filter_push(g, |h: Goal| h.group_id == group_id);
}

proof fn lemma_tones_for_push(s: Seq<Tone>, t: Tone, user_id: i64)
    ensures
        tones_for(s.push(t), user_id) == if t.global || t.user_id == Some(user_id) {
            tones_for(s, user_id).push(t)
        } else {
            tones_for(s, user_id)
        },
{
    s.lemma_filter_push(t, |u: Tone| u.global || u.user_id == Some(user_id));
}

proof fn lemma_without_group_push(s: Seq<Group>, g: Group, user_id: i64, group_id: i64)
    ensures
        without_group(s.push(g), user_id, group_id) == if !(g.id == group_id && g.user_id == user_id) {
            without_group(s, user_id, group_id).push(g)
        } else {
            without_group(s, user_id, group_id)
        },
{
    s.lemma_filter_push(g, |h: Group| !(h.id == group_id && h.user_id == user_id));
}

proof fn lemma_without_goals_of_push(s: Seq<Goal>, g: Goal, group_id: i64)
    ensures
        without_goals_of(s.push(g), group_id) == if g.group_id != group_id {
            without_goals_of(s, group_id).push(g)
        } else {
            without_goals_of(s, group_id)
        },
{
    s.lemma_filter_push(g, |h: Goal| h.group_id != group_id);
}

proof fn lemma_without_goal_push(s: Seq<Goal>, g: Goal, group_id: i64, goal_id: i64)
    ensures
        without_goal(s.push(g), group_id, goal_id) == if !(g.id == goal_id && g.group_id == group_id) {
            without_goal(s, group_id, goal_id).push(g)
        } else {
            without_goal(s, group_id, goal_id)
        },
{
    s.lemma_filter_push(g, |h: Goal| !(h.id == goal_id && h.group_id == group_id));
}

/// The board view of a group joined with its tone.
pub open spec fn displays(d: GroupDisplay, g: Group, t: Tone) -> bool {
    &&& d.id == g.id
    &&& d.title == g.title
    &&& d.description == g.description
    &&& d.tone_name == t.name
    &&& d.stages@ == t.stages@
    &&& d.greeting == t.greeting
}

/// Whether `d` shows the group `group_id` of `user_id` with its tone.
pub open spec fn is_display(groups: Seq<Group>, tones: Seq<Tone>, user_id: i64, group_id: i64, d: GroupDisplay) -> bool {
    exists|i: int, j: int|
        0 <= i < groups.len() && 0 <= j < tones.len() && #[trigger] groups[i].id == group_id
            && groups[i].user_id == user_id && #[trigger] tones[j].id == groups[i].tone_id
            && displays(d, groups[i], tones[j])
}

/// Whether the group `group_id` belongs to `user_id` and its tone exists.
pub open spec fn shows(groups: Seq<Group>, tones: Seq<Tone>, user_id: i64, group_id: i64) -> bool {
    exists|i: int|
        0 <= i < groups.len() && #[trigger] groups[i].id == group_id && groups[i].user_id == user_id
            && has_tone(tones, groups[i].tone_id)
}

/// Every element of a filtered sequence comes from the sequence.
pub proof fn lemma_filtered_in_rows<A>(rows: Seq<A>, f: spec_fn(A) -> bool, k: int)
    requires
        0 <= k < rows.filter(f).len(),
    ensures
        rows.contains(rows.filter(f)[k]),
    decreases rows.len(),
{
    reveal(Seq::filter);
    if rows.len() > 0 {
        let rest = rows.drop_last();
        if f(rows.last()) && k == rows.filter(f).len() - 1 {
            assert(rows[rows.len() - 1] == rows.filter(f)[k]);
        } else {
            assert(rows.filter(f)[k] == rest.filter(f)[k]);
            lemma_filtered_in_rows(rest, f, k);
            let i = choose|i: int| 0 <= i < rest.len() && rest[i] == rest.filter(f)[k];
            assert(rows[i] == rest[i]);
        }
    }
}

/// The owner-scoped repository of groups, goals and tones.
pub struct Store {
    groups: Vec<Group>,
    goals: Vec<Goal>,
    tones: Vec<Tone>,
    next_group_id: i64,
    next_goal_id: i64,
}

impl Store {
    pub closed spec fn group_rows(&self) -> Seq<Group> {
        self.groups@
    }

    pub closed spec fn goal_rows(&self) -> Seq<Goal> {
        self.goals@
    }

    pub closed spec fn tone_rows(&self) -> Seq<Tone> {
        self.tones@
    }

    pub closed spec fn next_group_id(&self) -> i64 {
        self.next_group_id
    }

    pub closed spec fn next_goal_id(&self) -> i64 {
        self.next_goal_id
    }

    /// Every stored id lies below the next id to be handed out.
    pub closed spec fn wf(&self) -> bool {
        &&& 1 <= self.next_group_id
        &&& 1 <= self.next_goal_id
        &&& forall|i: int| 0 <= i < self.groups@.len() ==> #[trigger] self.groups@[i].id < self.next_group_id
        &&& forall|i: int| 0 <= i < self.goals@.len() ==> #[trigger] self.goals@[i].id < self.next_goal_id
    }

    /// Every stored group and goal has an id below the next one to be handed out.
    pub proof fn lemma_ids_below_next(&self)
        requires
            self.wf(),
        ensures
            forall|i: int| 0 <= i < self.group_rows().len() ==> #[trigger] self.group_rows()[i].id < self.next_group_id(),
            forall|i: int| 0 <= i < self.goal_rows().len() ==> #[trigger] self.goal_rows()[i].id < self.next_goal_id(),
    {
    }

    /// An empty store.
    pub fn new() -> (r: Store)
        ensures
            r.wf(),
            r.group_rows() == Seq::<Group>::empty(),
            r.goal_rows() == Seq::<Goal>::empty(),
            r.tone_rows() == Seq::<Tone>::empty(),
            r.next_group_id() == 1,
            r.next_goal_id() == 1,
    {
        Store { groups: Vec::new(), goals: Vec::new(), tones: Vec::new(), next_group_id: 1, next_goal_id: 1 }
    }

    fn find_group(&self, user_id: i64, group_id: i64) -> (r: Option<usize>)
        ensures
            match r {
                Some(i) => i < self.groups@.len() && self.groups@[i as int].id == group_id
                    && self.groups@[i as int].user_id == user_id,
                None => !owns(self.groups@, user_id, group_id),
            },
    {
        let mut i: usize = 0;
        while i < self.groups.len()
            invariant
                i <= self.groups@.len(),
                forall|j: int| 0 <= j < i ==> !(#[trigger] self.groups@[j].id == group_id
                    && self.groups@[j].user_id == user_id),
            decreases self.groups@.len() - i,
        {
            if self.groups[i].id == group_id && self.groups[i].user_id == user_id {
                return Some(i);
            }
            i = i + 1;
        }
        None
    }

    fn find_goal(&self, group_id: i64, goal_id: i64) -> (r: Option<usize>)
        ensures
            match r {
                Some(i) => i < self.goals@.len() && self.goals@[i as int].id == goal_id
                    && self.goals@[i as int].group_id == group_id,
                None => !has_goal(self.goals@, group_id, goal_id),
            },
    {
        let mut i: usize = 0;
        while i < self.goals.len()
            invariant
                i <= self.goals@.len(),
                forall|j: int| 0 <= j < i ==> !(#[trigger] self.goals@[j].id == goal_id
                    && self.goals@[j].group_id == group_id),
            decreases self.goals@.len() - i,
        {
            if self.goals[i].id == goal_id && self.goals[i].group_id == group_id {
                return Some(i);
            }
            i = i + 1;
        }
        None
    }

    fn find_tone(&self, tone_id: i64) -> (r: Option<usize>)
        ensures
            match r {
                Some(i) => i < self.tones@.len() && self.tones@[i as int].id == tone_id,
                None => !has_tone(self.tones@, tone_id),
            },
    {
        let mut i: usize = 0;
        while i < self.tones.len()
            invariant
                i <= self.tones@.len(),
                forall|j: int| 0 <= j < i ==> #[trigger] self.tones@[j].id != tone_id,
            decreases self.tones@.len() - i,
        {
            if self.tones[i].id == tone_id {
                return Some(i);
            }
            i = i + 1;
        }
        None
    }

    /// Adds a tone; refused, with nothing changed, where its id is taken.
    pub fn add_tone(&mut self, tone: Tone) -> (r: bool)
        requires
            old(self).wf(),
        ensures
            final(self).wf(),
            r == !has_tone(old(self).tone_rows(), tone.id),
            r ==> final(self).tone_rows() == old(self).tone_rows().push(tone),
            !r ==> final(self).tone_rows() == old(self).tone_rows(),
            final(self).group_rows() == old(self).group_rows(),
            final(self).goal_rows() == old(self).goal_rows(),
            final(self).next_group_id() == old(self).next_group_id(),
            final(self).next_goal_id() == old(self).next_goal_id(),
    {
        match self.find_tone(tone.id) {
            Some(_) => false,
            None => {
                self.tones.push(tone);
                true
            },
        }
    }

    /// The groups of a user.
    pub fn list_groups(&self, user_id: i64) -> (r: Vec<Group>)
        ensures
            r@ == groups_of(self.group_rows(), user_id),
    {
        let mut r: Vec<Group> = Vec::new();
        let mut i: usize = 0;
        while i < self.groups.len()
            invariant
                i <= self.groups@.len(),
                r@ == groups_of(self.groups@.take(i as int), user_id),
            decreases self.groups@.len() - i,
        {
            proof {
                lemma_take_push(self.groups@, i as int);
                lemma_groups_of_push(self.groups@.take(i as int), self.groups@[i as int], user_id);
            }
            if self.groups[i].user_id == user_id {
                r.push(self.groups[i].duplicate());
            }
            i = i + 1;
        }
        assert(self.groups@.take(self.groups@.len() as int) == self.groups@);
        r
    }

    /// The sidebar links of a user's groups.
    pub fn list_group_links(&self, user_id: i64) -> (r: Vec<GroupLink>)
        ensures
            r@ == groups_of(self.group_rows(), user_id).map_values(|g: Group| link_of(g)),
    {
        let mut r: Vec<GroupLink> = Vec::new();
        let mut i: usize = 0;
        while i < self.groups.len()
            invariant
                i <= self.groups@.len(),
                r@ == groups_of(self.groups@.take(i as int), user_id).map_values(|g: Group| link_of(g)),
            decreases self.groups@.len() - i,
        {
            proof {
                lemma_take_push(self.groups@, i as int);
                lemma_groups_of_push(self.groups@.take(i as int), self.groups@[i as int], user_id);
            }
            if self.groups[i].user_id == user_id {
                let link = GroupLink { id: self.groups[i].id, title: self.groups[i].title.clone() };
                r.push(link);
                assert(r@ =~= groups_of(self.groups@.take(i + 1), user_id).map_values(
                    |g: Group| link_of(g),
                ));
            }
            i = i + 1;
        }
        assert(self.groups@.take(self.groups@.len() as int) == self.groups@);
        r
    }

    /// The group `group_id` where it belongs to `user_id`.
    pub fn get_group(&self, user_id: i64, group_id: i64) -> (r: Option<Group>)
        ensures
            r.is_some() == owns(self.group_rows(), user_id, group_id),
            r matches Some(g) ==> g.id == group_id && g.user_id == user_id && self.group_rows().contains(g),
    {
        match self.find_group(user_id, group_id) {
            Some(i) => Some(self.groups[i].duplicate()),
            None => None,
        }
    }

    /// The goals of a group.
    pub fn list_goals(&self, group_id: i64) -> (r: Vec<Goal>)
        ensures
            r@ == goals_of(self.goal_rows(), group_id),
    {
        let mut r: Vec<Goal> = Vec::new();
        let mut i: usize = 0;
        while i < self.goals.len()
            invariant
                i <= self.goals@.len(),
                r@ == goals_of(self.goals@.take(i as int), group_id),
            decreases self.goals@.len() - i,
        {
            proof {
                lemma_take_push(self.goals@, i as int);
                lemma_goals_of_push(self.goals@.take(i as int), self.goals@[i as int], group_id);
            }
            if self.goals[i].group_id == group_id {
                r.push(self.goals[i].duplicate());
            }
            i = i + 1;
        }
        assert(self.goals@.take(self.goals@.len() as int) == self.goals@);
        r
    }

    /// The goal `goal_id` where it lies in the group `group_id`.
    pub fn get_goal(&self, group_id: i64, goal_id: i64) -> (r: Option<Goal>)
        ensures
            r.is_some() == has_goal(self.goal_rows(), group_id, goal_id),
            r matches Some(g) ==> g.id == goal_id && g.group_id == group_id && self.goal_rows().contains(g),
    {
        match self.find_goal(group_id, goal_id) {
            Some(i) => Some(self.goals[i].duplicate()),
            None => None,
        }
    }

    /// The tones a user may pick.
    pub fn list_tones(&self, user_id: i64) -> (r: Vec<Tone>)
        ensures
            r@.len() == tones_for(self.tone_rows(), user_id).len(),
            forall|k: int| 0 <= k < r@.len() ==> #[trigger] r@[k].same(tones_for(self.tone_rows(), user_id)[k]),
    {
        let mut r: Vec<Tone> = Vec::new();
        let mut i: usize = 0;
        while i < self.tones.len()
            invariant
                i <= self.tones@.len(),
                r@.len() == tones_for(self.tones@.take(i as int), user_id).len(),
                forall|k: int| 0 <= k < r@.len() ==> #[trigger] r@[k].same(tones_for(self.tones@.take(i as int), user_id)[k]),
            decreases self.tones@.len() - i,
        {
            proof {
                lemma_take_push(self.tones@, i as int);
                lemma_tones_for_push(self.tones@.take(i as int), self.tones@[i as int], user_id);
            }
            if self.tones[i].global || self.tones[i].user_id == Some(user_id) {
                r.push(self.tones[i].duplicate());
            }
            i = i + 1;
        }
        assert(self.tones@.take(self.tones@.len() as int) == self.tones@);
        r
    }

    /// The group `group_id` of `user_id` joined with its tone.
    pub fn get_group_with_tone(&self, user_id: i64, group_id: i64) -> (r: Option<GroupDisplay>)
        ensures
            r.is_some() == shows(self.group_rows(), self.tone_rows(), user_id, group_id),
            r matches Some(d) ==> is_display(self.group_rows(), self.tone_rows(), user_id, group_id, d),
    {
        let mut i: usize = 0;
        while i < self.groups.len()
            invariant
                i <= self.groups@.len(),
                forall|k: int| 0 <= k < i ==> !(#[trigger] self.groups@[k].id == group_id
                    && self.groups@[k].user_id == user_id && has_tone(self.tones@, self.groups@[k].tone_id)),
            decreases self.groups@.len() - i,
        {
            let g = &self.groups[i];
            if g.id == group_id && g.user_id == user_id {
                match self.find_tone(g.tone_id) {
                    Some(j) => {
                        let t = &self.tones[j];
                        return Some(GroupDisplay {
                            id: g.id,
                            title: g.title.clone(),
                            description: copy_text(&g.description),
                            tone_name: t.name.clone(),
                            stages: copy_labels(&t.stages),
                            greeting: t.greeting.clone(),
                        });
                    },
                    None => {},
                }
            }
            i = i + 1;
        }
        None
    }

    /// Creates a group of `user_id` and returns its id; `None`, with nothing
    /// changed, once the ids are spent.
    pub fn create_group(&mut self, user_id: i64, title: String, description: Option<String>, tone_id: i64) -> (r: Option<i64>)
        requires
            old(self).wf(),
        ensures
            final(self).wf(),
            final(self).goal_rows() == old(self).goal_rows(),
            final(self).tone_rows() == old(self).tone_rows(),
            final(self).next_goal_id() == old(self).next_goal_id(),
            old(self).next_group_id() < i64::MAX ==> final(self).next_group_id() == old(self).next_group_id() + 1,
            old(self).next_group_id() < i64::MAX ==> r == Some(old(self).next_group_id())
                && final(self).group_rows() == old(self).group_rows().push(
                Group { id: old(self).next_group_id(), title: title, description: description, tone_id: tone_id, user_id: user_id },
            ),
            old(self).next_group_id() == i64::MAX ==> r.is_none() && final(self).group_rows() == old(self).group_rows()
                && final(self).next_group_id() == old(self).next_group_id(),
    {
        if self.next_group_id == i64::MAX {
            return None;
        }
        let id = self.next_group_id;
        self.groups.push(Group { id, title, description, tone_id, user_id });
        self.next_group_id = id + 1;
        Some(id)
    }

    /// Sets the editable fields of the group `group_id` of `user_id`; returns
    /// whether such a group exists.
    pub fn update_group(&mut self, user_id: i64, group_id: i64, title: String, description: Option<String>, tone_id: i64) -> (r: bool)
        requires
            old(self).wf(),
        ensures
            final(self).wf(),
            r == owns(old(self).group_rows(), user_id, group_id),
            final(self).group_rows() == with_group_fields(old(self).group_rows(), user_id, group_id, title, description, tone_id),
            final(self).goal_rows() == old(self).goal_rows(),
            final(self).tone_rows() == old(self).tone_rows(),
            final(self).next_group_id() == old(self).next_group_id(),
            final(self).next_goal_id() == old(self).next_goal_id(),
    {
        let ghost before = self.groups@;
        let mut found = false;
        let mut i: usize = 0;
        while i < self.groups.len()
            invariant
                i <= self.groups@.len(),
                self.groups@.len() == before.len(),
                self.goals@ == old(self).goals@,
                self.tones@ == old(self).tones@,
                self.next_group_id == old(self).next_group_id,
                self.next_goal_id == old(self).next_goal_id,
                before == old(self).groups@,
                old(self).wf(),
                forall|k: int| 0 <= k < i ==> #[trigger] self.groups@[k] == with_group_fields(before, user_id, group_id, title, description, tone_id)[k],
                forall|k: int| i <= k < before.len() ==> #[trigger] self.groups@[k] == before[k],
                found == exists|k: int| 0 <= k < i && #[trigger] before[k].id == group_id && before[k].user_id == user_id,
            decreases self.groups@.len() - i,
        {
            if self.groups[i].id == group_id && self.groups[i].user_id == user_id {
                let g = Group {
                    id: self.groups[i].id,
                    title: title.clone(),
                    description: copy_text(&description),
                    tone_id,
                    user_id: self.groups[i].user_id,
                };
                self.groups.set(i, g);
                found = true;
            }
            i = i + 1;
        }
        assert(self.groups@ =~= with_group_fields(before, user_id, group_id, title, description, tone_id));
        found
    }

    /// Removes the group `group_id` of `user_id` and every goal in it; returns
    /// whether such a group existed. Nothing changes where it did not.
    pub fn delete_group(&mut self, user_id: i64, group_id: i64) -> (r: bool)
        requires
            old(self).wf(),
        ensures
            final(self).wf(),
            r == owns(old(self).group_rows(), user_id, group_id),
            r ==> final(self).group_rows() == without_group(old(self).group_rows(), user_id, group_id),
            r ==> final(self).goal_rows() == without_goals_of(old(self).goal_rows(), group_id),
            !r ==> final(self).group_rows() == old(self).group_rows(),
            !r ==> final(self).goal_rows() == old(self).goal_rows(),
            final(self).tone_rows() == old(self).tone_rows(),
            final(self).next_group_id() == old(self).next_group_id(),
            final(self).next_goal_id() == old(self).next_goal_id(),
    {
        if self.find_group(user_id, group_id).is_none() {
            return false;
        }
        let mut groups: Vec<Group> = Vec::new();
        let mut i: usize = 0;
        while i < self.groups.len()
            invariant
                i <= self.groups@.len(),
                groups@ == without_group(self.groups@.take(i as int), user_id, group_id),
                forall|k: int| 0 <= k < groups@.len() ==> #[trigger] groups@[k].id < self.next_group_id,
                self.wf(),
            decreases self.groups@.len() - i,
        {
            proof {
                lemma_take_push(self.groups@, i as int);
                lemma_without_group_push(self.groups@.take(i as int), self.groups@[i as int], user_id, group_id);
            }
            if !(self.groups[i].id == group_id && self.groups[i].user_id == user_id) {
                groups.push(self.groups[i].duplicate());
            }
            i = i + 1;
        }
        assert(self.groups@.take(self.groups@.len() as int) == self.groups@);
        let mut goals: Vec<Goal> = Vec::new();
        let mut i: usize = 0;
        while i < self.goals.len()
            invariant
                i <= self.goals@.len(),
                goals@ == without_goals_of(self.goals@.take(i as int), group_id),
                forall|k: int| 0 <= k < goals@.len() ==> #[trigger] goals@[k].id < self.next_goal_id,
                self.wf(),
            decreases self.goals@.len() - i,
        {
            proof {
                lemma_take_push(self.goals@, i as int);
                lemma_without_goals_of_push(self.goals@.take(i as int), self.goals@[i as int], group_id);
            }
            if self.goals[i].group_id != group_id {
                goals.push(self.goals[i].duplicate());
            }
            i = i + 1;
        }
        assert(self.goals@.take(self.goals@.len() as int) == self.goals@);
        self.groups = groups;
        self.goals = goals;
        true
    }

    /// Creates a goal in the group `group_id` and returns its id; `None`, with
    /// nothing changed, once the ids are spent. The stage is stored as given.
    pub fn create_goal(
        &mut self,
        group_id: i64,
        title: String,
        description: Option<String>,
        deadline: Option<Date>,
        stage: i64,
    ) -> (r: Option<i64>)
        requires
            old(self).wf(),
        ensures
            final(self).wf(),
            final(self).group_rows() == old(self).group_rows(),
            final(self).tone_rows() == old(self).tone_rows(),
            final(self).next_group_id() == old(self).next_group_id(),
            old(self).next_goal_id() < i64::MAX ==> final(self).next_goal_id() == old(self).next_goal_id() + 1,
            old(self).next_goal_id() < i64::MAX ==> r == Some(old(self).next_goal_id())
                && final(self).goal_rows() == old(self).goal_rows().push(
                Goal {
                    id: old(self).next_goal_id(),
                    title: title,
                    description: description,
                    stage: stage,
                    deadline: deadline,
                    group_id: group_id,
                },
            ),
            old(self).next_goal_id() == i64::MAX ==> r.is_none() && final(self).goal_rows() == old(self).goal_rows()
                && final(self).next_goal_id() == old(self).next_goal_id(),
    {
        if self.next_goal_id == i64::MAX {
            return None;
        }
        let id = self.next_goal_id;
        self.goals.push(Goal { id, title, description, stage, deadline, group_id });
        self.next_goal_id = id + 1;
        Some(id)
    }

    /// Sets every field of the goal `goal_id` of `group_id` but its ids;
    /// returns whether such a goal exists.
    pub fn update_goal_fields(
        &mut self,
        group_id: i64,
        goal_id: i64,
        title: String,
        description: Option<String>,
        deadline: Option<Date>,
        stage: i64,
    ) -> (r: bool)
        requires
            old(self).wf(),
        ensures
            final(self).wf(),
            r == has_goal(old(self).goal_rows(), group_id, goal_id),
            final(self).goal_rows() == with_goal_fields(old(self).goal_rows(), group_id, goal_id, title, description, deadline, stage),
            final(self).group_rows() == old(self).group_rows(),
            final(self).tone_rows() == old(self).tone_rows(),
            final(self).next_group_id() == old(self).next_group_id(),
            final(self).next_goal_id() == old(self).next_goal_id(),
    {
        let ghost before = self.goals@;
        let mut found = false;
        let mut i: usize = 0;
        while i < self.goals.len()
            invariant
                i <= self.goals@.len(),
                self.goals@.len() == before.len(),
                self.groups@ == old(self).groups@,
                self.tones@ == old(self).tones@,
                self.next_group_id == old(self).next_group_id,
                self.next_goal_id == old(self).next_goal_id,
                before == old(self).goals@,
                old(self).wf(),
                forall|k: int| 0 <= k < i ==> #[trigger] self.goals@[k] == with_goal_fields(before, group_id, goal_id, title, description, deadline, stage)[k],
                forall|k: int| i <= k < before.len() ==> #[trigger] self.goals@[k] == before[k],
                found == exists|k: int| 0 <= k < i && #[trigger] before[k].id == goal_id && before[k].group_id == group_id,
            decreases self.goals@.len() - i,
        {
            if self.goals[i].id == goal_id && self.goals[i].group_id == group_id {
                let g = Goal {
                    id: self.goals[i].id,
                    title: title.clone(),
                    description: copy_text(&description),
                    stage,
                    deadline,
                    group_id: self.goals[i].group_id,
                };
                self.goals.set(i, g);
                found = true;
            }
            i = i + 1;
        }
        assert(self.goals@ =~= with_goal_fields(before, group_id, goal_id, title, description, deadline, stage));
        found
    }

    /// Moves the goal `goal_id` of `group_id` to `stage`; returns whether such
    /// a goal exists.
    pub fn update_goal_stage(&mut self, group_id: i64, goal_id: i64, stage: i64) -> (r: bool)
        requires
            old(self).wf(),
        ensures
            final(self).wf(),
            r == has_goal(old(self).goal_rows(), group_id, goal_id),
            final(self).goal_rows() == with_goal_stage(old(self).goal_rows(), group_id, goal_id, stage),
            final(self).group_rows() == old(self).group_rows(),
            final(self).tone_rows() == old(self).tone_rows(),
            final(self).next_group_id() == old(self).next_group_id(),
            final(self).next_goal_id() == old(self).next_goal_id(),
    {
        let ghost before = self.goals@;
        let mut found = false;
        let mut i: usize = 0;
        while i < self.goals.len()
            invariant
                i <= self.goals@.len(),
                self.goals@.len() == before.len(),
                self.groups@ == old(self).groups@,
                self.tones@ == old(self).tones@,
                self.next_group_id == old(self).next_group_id,
                self.next_goal_id == old(self).next_goal_id,
                before == old(self).goals@,
                old(self).wf(),
                forall|k: int| 0 <= k < i ==> #[trigger] self.goals@[k] == with_goal_stage(before, group_id, goal_id, stage)[k],
                forall|k: int| i <= k < before.len() ==> #[trigger] self.goals@[k] == before[k],
                found == exists|k: int| 0 <= k < i && #[trigger] before[k].id == goal_id && before[k].group_id == group_id,
            decreases self.goals@.len() - i,
        {
            if self.goals[i].id == goal_id && self.goals[i].group_id == group_id {
                let mut g = self.goals[i].duplicate();
                g.stage = stage;
                self.goals.set(i, g);
                found = true;
            }
            i = i + 1;
        }
        assert(self.goals@ =~= with_goal_stage(before, group_id, goal_id, stage));
        found
    }

    /// Removes the goal `goal_id` of `group_id`; returns whether such a goal
    /// existed.
    pub fn delete_goal(&mut self, group_id: i64, goal_id: i64) -> (r: bool)
        requires
            old(self).wf(),
        ensures
            final(self).wf(),
            r == has_goal(old(self).goal_rows(), group_id, goal_id),
            final(self).goal_rows() == without_goal(old(self).goal_rows(), group_id, goal_id),
            final(self).group_rows() == old(self).group_rows(),
            final(self).tone_rows() == old(self).tone_rows(),
            final(self).next_group_id() == old(self).next_group_id(),
            final(self).next_goal_id() == old(self).next_goal_id(),
    {
        let found = self.find_goal(group_id, goal_id).is_some();
        let mut goals: Vec<Goal> = Vec::new();
        let mut i: usize = 0;
        while i < self.goals.len()
            invariant
                i <= self.goals@.len(),
                goals@ == without_goal(self.goals@.take(i as int), group_id, goal_id),
                forall|k: int| 0 <= k < goals@.len() ==> #[trigger] goals@[k].id < self.next_goal_id,
                self.wf(),
            decreases self.goals@.len() - i,
        {
            proof {
                lemma_take_push(self.goals@, i as int);
                lemma_without_goal_push(self.goals@.take(i as int), self.goals@[i as int], group_id, goal_id);
            }
            if !(self.goals[i].id == goal_id && self.goals[i].group_id == group_id) {
                goals.push(self.goals[i].duplicate());
            }
            i = i + 1;
        }
        assert(self.goals@.take(self.goals@.len() as int) == self.goals@);
        self.goals = goals;
        found
    }
}


/// After a goal moves to a stage, the goal is still there, and reading it
/// back gives that stage.
pub proof fn lemma_stage_read_back(goals: Seq<Goal>, group_id: i64, goal_id: i64, stage: i64)
    requires
        has_goal(goals, group_id, goal_id),
    ensures
        has_goal(with_goal_stage(goals, group_id, goal_id, stage), group_id, goal_id),
        forall|g: Goal|
            #[trigger] goals_of(with_goal_stage(goals, group_id, goal_id, stage), group_id).contains(g)
                && g.id == goal_id ==> g.stage == stage,
{
    let after = with_goal_stage(goals, group_id, goal_id, stage);
    let i = choose|i: int| 0 <= i < goals.len() && #[trigger] goals[i].id == goal_id && goals[i].group_id == group_id;
    assert(after[i].id == goal_id);
    assert forall|g: Goal| #[trigger] goals_of(after, group_id).contains(g) && g.id == goal_id implies g.stage
        == stage by {
        let f = |h: Goal| h.group_id == group_id;
        let k = choose|k: int| 0 <= k < after.filter(f).len() && after.filter(f)[k] == g;
        after.lemma_filter_pred(f, k);
        lemma_filtered_in_rows(after, f, k);
        let j = choose|j: int| 0 <= j < after.len() && after[j] == g;
        assert(goals[j].id == goal_id && goals[j].group_id == group_id);
    }
}

/// Removing a group removes every goal in it: none of them can be found again,
/// and neither can the group.
pub proof fn lemma_deleted_group_goals_gone(
    groups: Seq<Group>,
    tones: Seq<Tone>,
    goals: Seq<Goal>,
    user_id: i64,
    group_id: i64,
    goal_id: i64,
)
    ensures
        !has_goal(without_goals_of(goals, group_id), group_id, goal_id),
        !owns(without_group(groups, user_id, group_id), user_id, group_id),
        !shows(without_group(groups, user_id, group_id), tones, user_id, group_id),
{
    broadcast use Seq::lemma_filter_pred;

    let rest = without_goals_of(goals, group_id);
    assert forall|i: int| 0 <= i < rest.len() implies #[trigger] rest[i].group_id != group_id by {
        goals.lemma_filter_pred(|g: Goal| g.group_id != group_id, i);
    }
    let left = without_group(groups, user_id, group_id);
    assert forall|i: int| 0 <= i < left.len() implies !(#[trigger] left[i].id == group_id && left[i].user_id
        == user_id) by {
        groups.lemma_filter_pred(|g: Group| !(g.id == group_id && g.user_id == user_id), i);
    }
}

/// A goal read back right after it was created is the goal as created.
pub proof fn lemma_created_goal_read_back(goals: Seq<Goal>, goal: Goal)
    requires
        forall|i: int| 0 <= i < goals.len() ==> #[trigger] goals[i].id < goal.id,
    ensures
        has_goal(goals.push(goal), goal.group_id, goal.id),
        forall|g: Goal|
            #[trigger] goals_of(goals.push(goal), goal.group_id).contains(g) && g.id == goal.id ==> g == goal,
{
    let after = goals.push(goal);
    assert(after[goals.len() as int] == goal);
    assert forall|g: Goal| #[trigger] goals_of(after, goal.group_id).contains(g) && g.id == goal.id implies g
        == goal by {
        let f = |h: Goal| h.group_id == goal.group_id;
        let k = choose|k: int| 0 <= k < after.filter(f).len() && after.filter(f)[k] == g;
        lemma_filtered_in_rows(after, f, k);
        let j = choose|j: int| 0 <= j < after.len() && after[j] == g;
        if j < goals.len() {
            assert(after[j] == goals[j]);
        }
    }
}

} // verus!
