use crate::model::{Date, Goal, Group, GroupDisplay, GroupLink, Tone};
use crate::respond::{
    negotiate, shape_of, success_notification, AppError, HxRequest, Location, Notification, Refresh,
    Reply, Shape, Variant,
};
use crate::stage::{group_goals_by_stage, stage_bucket, validate_stage_update, BOARD_COLUMNS, MAX_STAGE};
use crate::store::{
    goals_of, groups_of, has_goal, is_display, link_of, owns, shows, tones_for, with_goal_fields,
    with_goal_stage, with_group_fields, without_goal, without_goals_of, without_group, lemma_filtered_in_rows, Store,
};
use vstd::prelude::*;

verus! {

/// The submitted fields of a group.
pub struct GroupForm {
    pub title: String,
    pub description: Option<String>,
    pub tone_id: i64,
}

/// The submitted fields of a goal.
pub struct GoalForm {
    pub title: String,
    pub description: Option<String>,
    pub deadline: Option<Date>,
    pub stage: i16,
}

pub struct DashboardView {
    pub groups: Vec<Group>,
}

pub struct NewGroupView {
    pub tones: Vec<Tone>,
    /// The sidebar's groups, on a full page only.
    pub groups: Option<Vec<Group>>,
}

pub struct EditGroupView {
    pub group: Group,
    pub tones: Vec<Tone>,
    /// The sidebar's groups, on a full page only.
    pub groups: Option<Vec<Group>>,
}

pub struct BoardView {
    pub group: GroupDisplay,
    pub goals_in_stages: Vec<Vec<Goal>>,
    /// The sidebar's links, on a full page only.
    pub links: Option<Vec<GroupLink>>,
}

pub struct NewGoalView {
    pub group: GroupDisplay,
    pub selected_stage: usize,
    /// The board behind the form, on a full page only.
    pub goals_in_stages: Option<Vec<Vec<Goal>>>,
    /// The sidebar's links, on a full page only.
    pub links: Option<Vec<GroupLink>>,
}

pub struct GoalView {
    pub goal: Goal,
    pub group: GroupDisplay,
    /// The board behind the goal, on a full page only.
    pub goals_in_stages: Option<Vec<Vec<Goal>>>,
    /// The sidebar's links, on a full page only.
    pub links: Option<Vec<GroupLink>>,
}

/// `b` holds one bucket per board column, each the goals of its stage in order.
pub open spec fn is_board(b: Seq<Vec<Goal>>, goals: Seq<Goal>) -> bool {
    &&& b.len() == BOARD_COLUMNS
    &&& forall|k: int| 0 <= k < BOARD_COLUMNS ==> #[trigger] b[k]@ == stage_bucket(goals, k)
}

/// `v` holds the tones a user may pick, in their stored order.
pub open spec fn are_tones(v: Seq<Tone>, tones: Seq<Tone>, user_id: i64) -> bool {
    &&& v.len() == tones_for(tones, user_id).len()
    &&& forall|k: int| 0 <= k < v.len() ==> #[trigger] v[k].same(tones_for(tones, user_id)[k])
}

/// `n` is a self-closing success notification with the given texts.
pub open spec fn notifies(n: Option<Notification>, title: Seq<char>, message: Seq<char>) -> bool {
    n matches Some(x) && x.title@ == title && x.message@ == message && x.variant == Variant::Success
        && x.auto_close
}

proof fn lemma_no_group_match(
    groups: Seq<Group>,
    user_id: i64,
    group_id: i64,
    title: String,
    description: Option<String>,
    tone_id: i64,
)
    requires
        !owns(groups, user_id, group_id),
    ensures
        with_group_fields(groups, user_id, group_id, title, description, tone_id) == groups,
{
    assert(with_group_fields(groups, user_id, group_id, title, description, tone_id) =~= groups);
}

proof fn lemma_no_goal_match(
    goals: Seq<Goal>,
    group_id: i64,
    goal_id: i64,
    title: String,
    description: Option<String>,
    deadline: Option<Date>,
    stage: i64,
)
    requires
        !has_goal(goals, group_id, goal_id),
    ensures
        with_goal_fields(goals, group_id, goal_id, title, description, deadline, stage) == goals,
{
    assert(with_goal_fields(goals, group_id, goal_id, title, description, deadline, stage) =~= goals);
}

/// The dashboard: the user's groups.
pub fn dashboard(store: &Store, user_id: i64, hx: HxRequest) -> (r: Reply<DashboardView>)
    ensures
        r matches Reply::Render { shape, refresh, notification, view } && shape == shape_of(
            hx.is_htmx,
            hx.boosted,
        ) && refresh == Refresh::AfterSwap && notification.is_none() && view.groups@ == groups_of(
            store.group_rows(),
            user_id,
        ),
{
    let groups = store.list_groups(user_id);
    Reply::Render {
        shape: negotiate(hx.is_htmx, hx.boosted),
        refresh: Refresh::AfterSwap,
        notification: None,
        view: DashboardView { groups },
    }
}

/// The form for a new group, with the tones the user may pick.
pub fn new_group(store: &Store, user_id: i64, hx: HxRequest) -> (r: Reply<NewGroupView>)
    ensures
        r matches Reply::Render { shape, refresh, notification, view } && shape == shape_of(
            hx.is_htmx,
            hx.boosted,
        ) && refresh == Refresh::AfterSwap && notification.is_none() && are_tones(
            view.tones@,
            store.tone_rows(),
            user_id,
        ) && (view.groups.is_none() <==> shape == Shape::Fragment) && (view.groups matches Some(gs)
            ==> gs@ == groups_of(store.group_rows(), user_id)),
{
    let tones = store.list_tones(user_id);
    let shape = negotiate(hx.is_htmx, hx.boosted);
    let groups = match shape {
        Shape::Fragment => None,
        Shape::Page => Some(store.list_groups(user_id)),
    };
    Reply::Render { shape, refresh: Refresh::AfterSwap, notification: None, view: NewGroupView { tones, groups } }
}

/// Creates a group of the user and sends the client to its board.
pub fn post_new_group(store: &mut Store, user_id: i64, form: GroupForm) -> (r: Result<Reply<()>, AppError>)
    requires
        old(store).wf(),
    ensures
        final(store).wf(),
        final(store).goal_rows() == old(store).goal_rows(),
        final(store).tone_rows() == old(store).tone_rows(),
        final(store).next_goal_id() == old(store).next_goal_id(),
        old(store).next_group_id() < i64::MAX ==> final(store).next_group_id() == old(store).next_group_id() + 1,
        old(store).next_group_id() < i64::MAX ==> final(store).group_rows() == old(store).group_rows().push(
            Group {
                id: old(store).next_group_id(),
                title: form.title,
                description: form.description,
                tone_id: form.tone_id,
                user_id: user_id,
            },
        ) && (r matches Ok(Reply::Redirect { location, notification }) && location == Location::Group(
            old(store).next_group_id(),
        ) && notifies(notification, "Created "@ + form.title@, "New Group Created!"@)),
        old(store).next_group_id() == i64::MAX ==> r == Err::<Reply<()>, AppError>(AppError::Internal)
            && final(store).group_rows() == old(store).group_rows() && final(store).next_group_id() == old(store).next_group_id(),
{
    let title = "Created ".to_owned().concat(form.title.as_str());
    match store.create_group(user_id, form.title, form.description, form.tone_id) {
        Some(id) => Ok(
            Reply::Redirect {
                location: Location::Group(id),
                notification: Some(success_notification(title, "New Group Created!")),
            },
        ),
        None => Err(AppError::Internal),
    }
}

/// The form that edits a group of the user.
pub fn edit_group(store: &Store, user_id: i64, group_id: i64, hx: HxRequest) -> (r: Result<
    Reply<EditGroupView>,
    AppError,
>)
    ensures
        !owns(store.group_rows(), user_id, group_id) ==> r == Err::<Reply<EditGroupView>, AppError>(
            AppError::NotFound,
        ),
        owns(store.group_rows(), user_id, group_id) ==> (r matches Ok(
            Reply::Render { shape, refresh, notification, view },
        ) && shape == shape_of(hx.is_htmx, hx.boosted) && refresh == Refresh::AfterSwap
            && notification.is_none() && view.group.id == group_id && view.group.user_id == user_id
            && store.group_rows().contains(view.group) && are_tones(view.tones@, store.tone_rows(), user_id)
            && (view.groups.is_none() <==> shape == Shape::Fragment) && (view.groups matches Some(gs)
            ==> gs@ == groups_of(store.group_rows(), user_id))),
{
    let group = match store.get_group(user_id, group_id) {
        Some(g) => g,
        None => return Err(AppError::NotFound),
    };
    let tones = store.list_tones(user_id);
    let shape = negotiate(hx.is_htmx, hx.boosted);
    let groups = match shape {
        Shape::Fragment => None,
        Shape::Page => Some(store.list_groups(user_id)),
    };
    Ok(
        Reply::Render {
            shape,
            refresh: Refresh::AfterSwap,
            notification: None,
            view: EditGroupView { group, tones, groups },
        },
    )
}

/// Saves the fields of a group of the user. The hypermedia client gets the
/// updated dashboard fragment; any other client is sent to the dashboard.
pub fn post_edit_group(store: &mut Store, user_id: i64, group_id: i64, form: GroupForm, hx: HxRequest) -> (r:
    Result<Reply<DashboardView>, AppError>)
    requires
        old(store).wf(),
    ensures
        final(store).wf(),
        final(store).next_group_id() == old(store).next_group_id(),
        final(store).next_goal_id() == old(store).next_goal_id(),
        final(store).goal_rows() == old(store).goal_rows(),
        final(store).tone_rows() == old(store).tone_rows(),
        final(store).group_rows() == with_group_fields(
            old(store).group_rows(),
            user_id,
            group_id,
            form.title,
            form.description,
            form.tone_id,
        ),
        !owns(old(store).group_rows(), user_id, group_id) ==> r == Err::<Reply<DashboardView>, AppError>(
            AppError::NotFound,
        ) && final(store).group_rows() == old(store).group_rows(),
        owns(old(store).group_rows(), user_id, group_id) && hx.is_htmx ==> (r matches Ok(
            Reply::Render { shape, refresh, notification, view },
        ) && shape == Shape::Fragment && refresh == Refresh::AfterSettle && notifies(
            notification,
            form.title@ + " Updated"@,
            "Your group has been updated"@,
        ) && view.groups@ == groups_of(final(store).group_rows(), user_id)),
        owns(old(store).group_rows(), user_id, group_id) && !hx.is_htmx ==> (r matches Ok(
            Reply::Redirect { location, notification },
        ) && location == Location::Dashboard && notifies(
            notification,
            form.title@ + " Updated"@,
            "Your group has been updated"@,
        )),
{
    proof {
        if !owns(store.group_rows(), user_id, group_id) {
            lemma_no_group_match(store.group_rows(), user_id, group_id, form.title, form.description, form.tone_id);
        }
    }
    let title = form.title.clone().concat(" Updated");
    if !store.update_group(user_id, group_id, form.title, form.description, form.tone_id) {
        return Err(AppError::NotFound);
    }
    let notification = Some(success_notification(title, "Your group has been updated"));
    if hx.is_htmx {
        let groups = store.list_groups(user_id);
        Ok(
            Reply::Render {
                shape: Shape::Fragment,
                refresh: Refresh::AfterSettle,
                notification,
                view: DashboardView { groups },
            },
        )
    } else {
        Ok(Reply::Redirect { location: Location::Dashboard, notification })
    }
}


proof fn lemma_listed_goal(rows: Seq<Goal>, group_id: i64, goal_id: i64)
    ensures
        has_goal(rows, group_id, goal_id) <==> exists|k: int|
            0 <= k < goals_of(rows, group_id).len() && #[trigger] goals_of(rows, group_id)[k].id == goal_id,
{
    broadcast use Seq::lemma_filter_contains, Seq::lemma_filter_pred;

    let f = |g: Goal| g.group_id == group_id;
    if has_goal(rows, group_id, goal_id) {
        let i = choose|i: int| 0 <= i < rows.len() && #[trigger] rows[i].id == goal_id && rows[i].group_id == group_id;
        rows.lemma_filter_contains(f, i);
        let k = choose|k: int| 0 <= k < rows.filter(f).len() && rows.filter(f)[k] == rows[i];
        assert(goals_of(rows, group_id)[k].id == goal_id);
    }
    if exists|k: int| 0 <= k < goals_of(rows, group_id).len() && #[trigger] goals_of(rows, group_id)[k].id == goal_id {
        let k = choose|k: int| 0 <= k < goals_of(rows, group_id).len() && #[trigger] goals_of(rows, group_id)[k].id == goal_id;
        rows.lemma_filter_pred(f, k);
        let g = goals_of(rows, group_id)[k];
        assert(rows.filter(f).contains(g));
        lemma_filtered_in_rows(rows, f, k);
        let i = choose|i: int| 0 <= i < rows.len() && rows[i] == g;
        assert(rows[i].id == goal_id && rows[i].group_id == group_id);
    }
}

fn find_listed(goals: &Vec<Goal>, goal_id: i64) -> (r: Option<usize>)
    ensures
        match r {
            Some(k) => k < goals@.len() && goals@[k as int].id == goal_id,
            None => forall|k: int| 0 <= k < goals@.len() ==> #[trigger] goals@[k].id != goal_id,
        },
{
    let mut i: usize = 0;
    while i < goals.len()
        invariant
            i <= goals@.len(),
            forall|k: int| 0 <= k < i ==> #[trigger] goals@[k].id != goal_id,
        decreases goals@.len() - i,
    {
        if goals[i].id == goal_id {
            return Some(i);
        }
        i = i + 1;
    }
    None
}

/// A group's board: its goals split by stage.
pub fn get_group(store: &Store, user_id: i64, group_id: i64, hx: HxRequest) -> (r: Result<
    Reply<BoardView>,
    AppError,
>)
    ensures
        !shows(store.group_rows(), store.tone_rows(), user_id, group_id) ==> r == Err::<
            Reply<BoardView>,
            AppError,
        >(AppError::NotFound),
        shows(store.group_rows(), store.tone_rows(), user_id, group_id) ==> (r matches Ok(
            Reply::Render { shape, refresh, notification, view },
        ) && shape == shape_of(hx.is_htmx, hx.boosted) && refresh == Refresh::AfterSwap
            && notification.is_none() && is_display(
            store.group_rows(),
            store.tone_rows(),
            user_id,
            group_id,
            view.group,
        ) && is_board(view.goals_in_stages@, goals_of(store.goal_rows(), group_id)) && (
        view.links.is_none() <==> shape == Shape::Fragment) && (view.links matches Some(ls) ==> ls@
            == groups_of(store.group_rows(), user_id).map_values(|g: Group| link_of(g)))),
{
    let group = match store.get_group_with_tone(user_id, group_id) {
        Some(g) => g,
        None => return Err(AppError::NotFound),
    };
    let goals = store.list_goals(group_id);
    let goals_in_stages = group_goals_by_stage(goals.as_slice());
    let shape = negotiate(hx.is_htmx, hx.boosted);
    let links = match shape {
        Shape::Fragment => None,
        Shape::Page => Some(store.list_group_links(user_id)),
    };
    Ok(
        Reply::Render {
            shape,
            refresh: Refresh::AfterSwap,
            notification: None,
            view: BoardView { group, goals_in_stages, links },
        },
    )
}

/// Removes a group of the user together with all its goals.
pub fn delete_group(store: &mut Store, user_id: i64, group_id: i64) -> (r: Result<Reply<()>, AppError>)
    requires
        old(store).wf(),
    ensures
        final(store).wf(),
        final(store).next_group_id() == old(store).next_group_id(),
        final(store).next_goal_id() == old(store).next_goal_id(),
        final(store).tone_rows() == old(store).tone_rows(),
        !owns(old(store).group_rows(), user_id, group_id) ==> r == Err::<Reply<()>, AppError>(
            AppError::NotFound,
        ) && final(store).group_rows() == old(store).group_rows() && final(store).goal_rows() == old(store).goal_rows(),
        owns(old(store).group_rows(), user_id, group_id) ==> r == Ok::<Reply<()>, AppError>(Reply::Done)
            && final(store).group_rows() == without_group(old(store).group_rows(), user_id, group_id)
            && final(store).goal_rows() == without_goals_of(old(store).goal_rows(), group_id),
{
    if store.delete_group(user_id, group_id) {
        Ok(Reply::Done)
    } else {
        Err(AppError::NotFound)
    }
}

/// The form for a new goal, with a column chosen in advance (the first by default).
pub fn new_goal(store: &Store, user_id: i64, group_id: i64, stage: Option<usize>, hx: HxRequest) -> (r:
    Result<Reply<NewGoalView>, AppError>)
    ensures
        !shows(store.group_rows(), store.tone_rows(), user_id, group_id) ==> r == Err::<
            Reply<NewGoalView>,
            AppError,
        >(AppError::NotFound),
        shows(store.group_rows(), store.tone_rows(), user_id, group_id) ==> (r matches Ok(
            Reply::Render { shape, refresh, notification, view },
        ) && shape == shape_of(hx.is_htmx, hx.boosted) && refresh == Refresh::AfterSwap
            && notification.is_none() && is_display(
            store.group_rows(),
            store.tone_rows(),
            user_id,
            group_id,
            view.group,
        ) && view.selected_stage == (match stage {
            Some(s) => s,
            None => 0,
        }) && (view.goals_in_stages.is_none() <==> shape == Shape::Fragment) && (view.links.is_none()
            <==> shape == Shape::Fragment) && (view.goals_in_stages matches Some(b) ==> is_board(
            b@,
            goals_of(store.goal_rows(), group_id),
        )) && (view.links matches Some(ls) ==> ls@ == groups_of(store.group_rows(), user_id).map_values(
            |g: Group| link_of(g),
        ))),
{
    let selected_stage = match stage {
        Some(s) => s,
        None => 0,
    };
    let group = match store.get_group_with_tone(user_id, group_id) {
        Some(g) => g,
        None => return Err(AppError::NotFound),
    };
    let shape = negotiate(hx.is_htmx, hx.boosted);
    let (goals_in_stages, links) = match shape {
        Shape::Fragment => (None, None),
        Shape::Page => {
            let goals = store.list_goals(group_id);
            (Some(group_goals_by_stage(goals.as_slice())), Some(store.list_group_links(user_id)))
        },
    };
    Ok(
        Reply::Render {
            shape,
            refresh: Refresh::AfterSwap,
            notification: None,
            view: NewGoalView { group, selected_stage, goals_in_stages, links },
        },
    )
}

/// Adds a goal to a group of the user, at the stage given. The hypermedia
/// client gets the updated board fragment; any other client is sent to the board.
pub fn post_new_goal(store: &mut Store, user_id: i64, group_id: i64, form: GoalForm, hx: HxRequest) -> (r:
    Result<Reply<BoardView>, AppError>)
    requires
        old(store).wf(),
    ensures
        final(store).wf(),
        final(store).group_rows() == old(store).group_rows(),
        final(store).tone_rows() == old(store).tone_rows(),
        final(store).next_group_id() == old(store).next_group_id(),
        owns(old(store).group_rows(), user_id, group_id) && old(store).next_goal_id() < i64::MAX
            ==> final(store).next_goal_id() == old(store).next_goal_id() + 1,
        !(owns(old(store).group_rows(), user_id, group_id) && old(store).next_goal_id() < i64::MAX)
            ==> final(store).next_goal_id() == old(store).next_goal_id(),
        !owns(old(store).group_rows(), user_id, group_id) ==> r == Err::<Reply<BoardView>, AppError>(
            AppError::NotFound,
        ) && final(store).goal_rows() == old(store).goal_rows(),
        owns(old(store).group_rows(), user_id, group_id) && old(store).next_goal_id() == i64::MAX ==> r
            == Err::<Reply<BoardView>, AppError>(AppError::Internal) && final(store).goal_rows() == old(store).goal_rows(),
        owns(old(store).group_rows(), user_id, group_id) && old(store).next_goal_id() < i64::MAX ==> final(store).goal_rows() == old(store).goal_rows().push(
            Goal {
                id: old(store).next_goal_id(),
                title: form.title,
                description: form.description,
                stage: form.stage as i64,
                deadline: form.deadline,
                group_id: group_id,
            },
        ),
        owns(old(store).group_rows(), user_id, group_id) && old(store).next_goal_id() < i64::MAX
            && !hx.is_htmx ==> (r matches Ok(Reply::Redirect { location, notification }) && location
            == Location::Group(group_id) && notifies(
            notification,
            "Created "@ + form.title@,
            "Your goal has been created"@,
        )),
        owns(old(store).group_rows(), user_id, group_id) && old(store).next_goal_id() < i64::MAX
            && hx.is_htmx && !shows(final(store).group_rows(), final(store).tone_rows(), user_id, group_id)
            ==> r == Err::<Reply<BoardView>, AppError>(AppError::NotFound),
        owns(old(store).group_rows(), user_id, group_id) && old(store).next_goal_id() < i64::MAX
            && hx.is_htmx && shows(final(store).group_rows(), final(store).tone_rows(), user_id, group_id)
            ==> (r matches Ok(Reply::Render { shape, refresh, notification, view }) && shape
            == Shape::Fragment && refresh == Refresh::AfterSettle && notifies(
            notification,
            "Created "@ + form.title@,
            "Your goal has been created"@,
        ) && is_display(final(store).group_rows(), final(store).tone_rows(), user_id, group_id, view.group)
            && is_board(view.goals_in_stages@, goals_of(final(store).goal_rows(), group_id))
            && view.links.is_none()),
{
    if store.get_group(user_id, group_id).is_none() {
        return Err(AppError::NotFound);
    }
    let title = "Created ".to_owned().concat(form.title.as_str());
    if store.create_goal(group_id, form.title, form.description, form.deadline, form.stage as i64).is_none() {
        return Err(AppError::Internal);
    }
    let notification = Some(success_notification(title, "Your goal has been created"));
    if hx.is_htmx {
        let group = match store.get_group_with_tone(user_id, group_id) {
            Some(g) => g,
            None => return Err(AppError::NotFound),
        };
        let goals = store.list_goals(group_id);
        let goals_in_stages = group_goals_by_stage(goals.as_slice());
        Ok(
            Reply::Render {
                shape: Shape::Fragment,
                refresh: Refresh::AfterSettle,
                notification,
                view: BoardView { group, goals_in_stages, links: None },
            },
        )
    } else {
        Ok(Reply::Redirect { location: Location::Group(group_id), notification })
    }
}

/// The answer for a goal's detail or edit view: `NotFound` unless the user
/// owns the group and the goal lies in it.
pub open spec fn answers_goal(
    store: &Store,
    user_id: i64,
    group_id: i64,
    goal_id: i64,
    hx: HxRequest,
    r: Result<Reply<GoalView>, AppError>,
) -> bool {
    let found = shows(store.group_rows(), store.tone_rows(), user_id, group_id) && has_goal(
        store.goal_rows(),
        group_id,
        goal_id,
    );
    &&& !found ==> r == Err::<Reply<GoalView>, AppError>(AppError::NotFound)
    &&& found ==> (r matches Ok(Reply::Render { shape, refresh, notification, view }) && shape
        == shape_of(hx.is_htmx, hx.boosted) && refresh == Refresh::AfterSwap && notification.is_none()
        && view.goal.id == goal_id && view.goal.group_id == group_id && goals_of(
        store.goal_rows(),
        group_id,
    ).contains(view.goal) && is_display(store.group_rows(), store.tone_rows(), user_id, group_id, view.group)
        && (view.goals_in_stages.is_none() <==> shape == Shape::Fragment) && (view.links.is_none()
        <==> shape == Shape::Fragment) && (view.goals_in_stages matches Some(b) ==> is_board(
        b@,
        goals_of(store.goal_rows(), group_id),
    )) && (view.links matches Some(ls) ==> ls@ == groups_of(store.group_rows(), user_id).map_values(
        |g: Group| link_of(g),
    )))
}

/// Looks a goal up for its detail or edit view: a fragment asks the store for
/// the goal, a full page finds it in the board's own goal list.
fn goal_view(store: &Store, user_id: i64, group_id: i64, goal_id: i64, hx: HxRequest) -> (r: Result<
    Reply<GoalView>,
    AppError,
>)
    ensures
        answers_goal(store, user_id, group_id, goal_id, hx, r),
{
    broadcast use Seq::lemma_filter_contains, Seq::lemma_filter_pred;

    proof {
        lemma_listed_goal(store.goal_rows(), group_id, goal_id);
    }
    let group = match store.get_group_with_tone(user_id, group_id) {
        Some(g) => g,
        None => return Err(AppError::NotFound),
    };
    let shape = negotiate(hx.is_htmx, hx.boosted);
    match shape {
        Shape::Fragment => {
            let goal = match store.get_goal(group_id, goal_id) {
                Some(g) => g,
                None => return Err(AppError::NotFound),
            };
            proof {
                let rows = store.goal_rows();
                let i = choose|i: int| 0 <= i < rows.len() && rows[i] == goal;
                rows.lemma_filter_contains(|g: Goal| g.group_id == group_id, i);
            }
            Ok(
                Reply::Render {
                    shape,
                    refresh: Refresh::AfterSwap,
                    notification: None,
                    view: GoalView { goal, group, goals_in_stages: None, links: None },
                },
            )
        },
        Shape::Page => {
            let goals = store.list_goals(group_id);
            let goals_in_stages = group_goals_by_stage(goals.as_slice());
            let goal = match find_listed(&goals, goal_id) {
                Some(k) => goals[k].duplicate(),
                None => return Err(AppError::NotFound),
            };
            proof {
                let k = choose|k: int| 0 <= k < goals@.len() && goals@[k] == goal;
                store.goal_rows().lemma_filter_pred(|g: Goal| g.group_id == group_id, k);
            }
            let links = store.list_group_links(user_id);
            Ok(
                Reply::Render {
                    shape,
                    refresh: Refresh::AfterSwap,
                    notification: None,
                    view: GoalView { goal, group, goals_in_stages: Some(goals_in_stages), links: Some(links) },
                },
            )
        },
    }
}


/// A goal of a group of the user.
pub fn get_goal(store: &Store, user_id: i64, group_id: i64, goal_id: i64, hx: HxRequest) -> (r: Result<
    Reply<GoalView>,
    AppError,
>)
    ensures
        answers_goal(store, user_id, group_id, goal_id, hx, r),
{
    goal_view(store, user_id, group_id, goal_id, hx)
}

/// The form that edits a goal of a group of the user.
pub fn edit_goal(store: &Store, user_id: i64, group_id: i64, goal_id: i64, hx: HxRequest) -> (r: Result<
    Reply<GoalView>,
    AppError,
>)
    ensures
        answers_goal(store, user_id, group_id, goal_id, hx, r),
{
    goal_view(store, user_id, group_id, goal_id, hx)
}

/// Saves the fields of a goal of a group of the user. The hypermedia client
/// gets the updated board fragment; any other client is sent to the board.
pub fn post_edit_goal(
    store: &mut Store,
    user_id: i64,
    group_id: i64,
    goal_id: i64,
    form: GoalForm,
    hx: HxRequest,
) -> (r: Result<Reply<BoardView>, AppError>)
    requires
        old(store).wf(),
    ensures
        final(store).wf(),
        final(store).next_group_id() == old(store).next_group_id(),
        final(store).next_goal_id() == old(store).next_goal_id(),
        final(store).group_rows() == old(store).group_rows(),
        final(store).tone_rows() == old(store).tone_rows(),
        !(owns(old(store).group_rows(), user_id, group_id) && has_goal(old(store).goal_rows(), group_id, goal_id))
            ==> r == Err::<Reply<BoardView>, AppError>(AppError::NotFound) && final(store).goal_rows() == old(store).goal_rows(),
        owns(old(store).group_rows(), user_id, group_id) ==> final(store).goal_rows() == with_goal_fields(
            old(store).goal_rows(),
            group_id,
            goal_id,
            form.title,
            form.description,
            form.deadline,
            form.stage as i64,
        ),
        owns(old(store).group_rows(), user_id, group_id) && has_goal(old(store).goal_rows(), group_id, goal_id)
            && !hx.is_htmx ==> (r matches Ok(Reply::Redirect { location, notification }) && location
            == Location::Group(group_id) && notifies(notification, form.title@ + " updated"@, "Your goal was updated"@)),
        owns(old(store).group_rows(), user_id, group_id) && has_goal(old(store).goal_rows(), group_id, goal_id)
            && hx.is_htmx && !shows(final(store).group_rows(), final(store).tone_rows(), user_id, group_id)
            ==> r == Err::<Reply<BoardView>, AppError>(AppError::NotFound),
        owns(old(store).group_rows(), user_id, group_id) && has_goal(old(store).goal_rows(), group_id, goal_id)
            && hx.is_htmx && shows(final(store).group_rows(), final(store).tone_rows(), user_id, group_id)
            ==> (r matches Ok(Reply::Render { shape, refresh, notification, view }) && shape
            == Shape::Fragment && refresh == Refresh::Now && notifies(
            notification,
            form.title@ + " updated"@,
            "Your goal was updated"@,
        ) && is_display(final(store).group_rows(), final(store).tone_rows(), user_id, group_id, view.group)
            && is_board(view.goals_in_stages@, goals_of(final(store).goal_rows(), group_id))
            && view.links.is_none()),
{
    if store.get_group(user_id, group_id).is_none() {
        return Err(AppError::NotFound);
    }
    proof {
        if !has_goal(store.goal_rows(), group_id, goal_id) {
            lemma_no_goal_match(
                store.goal_rows(),
                group_id,
                goal_id,
                form.title,
                form.description,
                form.deadline,
                form.stage as i64,
            );
        }
    }
    let title = form.title.clone().concat(" updated");
    if !store.update_goal_fields(group_id, goal_id, form.title, form.description, form.deadline, form.stage as i64) {
        return Err(AppError::NotFound);
    }
    let notification = Some(success_notification(title, "Your goal was updated"));
    if hx.is_htmx {
        let group = match store.get_group_with_tone(user_id, group_id) {
            Some(g) => g,
            None => return Err(AppError::NotFound),
        };
        let goals = store.list_goals(group_id);
        let goals_in_stages = group_goals_by_stage(goals.as_slice());
        Ok(
            Reply::Render {
                shape: Shape::Fragment,
                refresh: Refresh::Now,
                notification,
                view: BoardView { group, goals_in_stages, links: None },
            },
        )
    } else {
        Ok(Reply::Redirect { location: Location::Group(group_id), notification })
    }
}

/// Moves a goal of a group of the user to another stage. Any stage from 0 to
/// 4 may follow any other; the goal itself is matched by its group only.
pub fn patch_goal_stage(store: &mut Store, user_id: i64, group_id: i64, goal_id: i64, stage: i64) -> (r: Result<
    Reply<()>,
    AppError,
>)
    requires
        old(store).wf(),
    ensures
        final(store).wf(),
        final(store).next_group_id() == old(store).next_group_id(),
        final(store).next_goal_id() == old(store).next_goal_id(),
        final(store).group_rows() == old(store).group_rows(),
        final(store).tone_rows() == old(store).tone_rows(),
        !owns(old(store).group_rows(), user_id, group_id) ==> r == Err::<Reply<()>, AppError>(
            AppError::NotFound,
        ) && final(store).goal_rows() == old(store).goal_rows(),
        owns(old(store).group_rows(), user_id, group_id) && !(0 <= stage <= MAX_STAGE) ==> r == Err::<
            Reply<()>,
            AppError,
        >(AppError::BadRequest) && final(store).goal_rows() == old(store).goal_rows(),
        owns(old(store).group_rows(), user_id, group_id) && 0 <= stage <= MAX_STAGE ==> r == Ok::<
            Reply<()>,
            AppError,
        >(Reply::Done) && final(store).goal_rows() == with_goal_stage(old(store).goal_rows(), group_id, goal_id, stage),
{
    if store.get_group(user_id, group_id).is_none() {
        return Err(AppError::NotFound);
    }
    let stage = match validate_stage_update(stage) {
        Ok(s) => s,
        Err(_) => return Err(AppError::BadRequest),
    };
    store.update_goal_stage(group_id, goal_id, stage);
    Ok(Reply::Done)
}

/// Removes a goal of a group of the user.
pub fn delete_goal(store: &mut Store, user_id: i64, group_id: i64, goal_id: i64) -> (r: Result<Reply<()>, AppError>)
    requires
        old(store).wf(),
    ensures
        final(store).wf(),
        final(store).next_group_id() == old(store).next_group_id(),
        final(store).next_goal_id() == old(store).next_goal_id(),
        final(store).group_rows() == old(store).group_rows(),
        final(store).tone_rows() == old(store).tone_rows(),
        !owns(old(store).group_rows(), user_id, group_id) ==> r == Err::<Reply<()>, AppError>(
            AppError::NotFound,
        ) && final(store).goal_rows() == old(store).goal_rows(),
        owns(old(store).group_rows(), user_id, group_id) ==> r == Ok::<Reply<()>, AppError>(Reply::Done)
            && final(store).goal_rows() == without_goal(old(store).goal_rows(), group_id, goal_id),
{
    if store.get_group(user_id, group_id).is_none() {
        return Err(AppError::NotFound);
    }
    store.delete_goal(group_id, goal_id);
    Ok(Reply::Done)
}


/// A group lies only with its creator: right after a user creates a group,
/// no other user owns it, so every lookup, edit or removal of it by another
/// user ends in `NotFound`.
pub proof fn lemma_created_group_private(groups: Seq<Group>, tones: Seq<Tone>, group: Group, other: i64)
    requires
        forall|i: int| 0 <= i < groups.len() ==> #[trigger] groups[i].id < group.id,
        other != group.user_id,
    ensures
        owns(groups.push(group), group.user_id, group.id),
        !owns(groups.push(group), other, group.id),
        !shows(groups.push(group), tones, other, group.id),
{
    let all = groups.push(group);
    assert(all[groups.len() as int] == group);
    assert forall|i: int| 0 <= i < all.len() && #[trigger] all[i].id == group.id implies all[i].user_id
        == group.user_id by {
        if i < groups.len() {
            assert(all[i] == groups[i]);
        }
    }
}

/// Editing a group never hands it to another user.
pub proof fn lemma_edit_keeps_owner(
    groups: Seq<Group>,
    user_id: i64,
    group_id: i64,
    title: String,
    description: Option<String>,
    tone_id: i64,
    other: i64,
    other_group: i64,
)
    ensures
        owns(with_group_fields(groups, user_id, group_id, title, description, tone_id), other, other_group)
            == owns(groups, other, other_group),
{
    let after = with_group_fields(groups, user_id, group_id, title, description, tone_id);
    assert forall|i: int| 0 <= i < groups.len() implies #[trigger] after[i].id == groups[i].id
        && after[i].user_id == groups[i].user_id by {}
    if owns(groups, other, other_group) {
        let i = choose|i: int| 0 <= i < groups.len() && #[trigger] groups[i].id == other_group && groups[i].user_id == other;
        assert(after[i].id == other_group);
    }
    if owns(after, other, other_group) {
        let i = choose|i: int| 0 <= i < after.len() && #[trigger] after[i].id == other_group && after[i].user_id == other;
        assert(groups[i].id == other_group);
    }
}

} // verus!
