use silly_goals::model::{Goal, Tone};
use silly_goals::respond::{negotiate, AppError, HxRequest, Location, Refresh, Reply, Shape, Variant};
use silly_goals::routes::{
    dashboard, delete_goal, delete_group, edit_goal, edit_group, get_goal, get_group, new_goal,
    new_group, patch_goal_stage, post_edit_goal, post_edit_group, post_new_goal, post_new_group,
    GoalForm, GroupForm,
};
use silly_goals::store::Store;

const PAGE: HxRequest = HxRequest { is_htmx: false, boosted: false };
const FRAGMENT: HxRequest = HxRequest { is_htmx: true, boosted: false };
const BOOSTED: HxRequest = HxRequest { is_htmx: true, boosted: true };

fn tone(id: i64, global: bool, user_id: Option<i64>) -> Tone {
    Tone {
        id,
        name: format!("tone {}", id),
        stages: vec!["Todo".into(), "Doing".into(), "Review".into(), "Done".into()],
        deadline: "hard".into(),
        global,
        greeting: "Hi".into(),
        unmet_behavior: "nag".into(),
        user_id,
    }
}

fn store_with_tone() -> Store {
    let mut s = Store::new();
    assert!(s.add_tone(tone(1, true, None)));
    s
}

fn group_form(title: &str) -> GroupForm {
    GroupForm { title: title.to_string(), description: None, tone_id: 1 }
}

fn goal_form(title: &str, stage: i16) -> GoalForm {
    GoalForm { title: title.to_string(), description: None, deadline: None, stage }
}

fn make_group(s: &mut Store, user: i64, title: &str) -> i64 {
    match post_new_group(s, user, group_form(title)) {
        Ok(Reply::Redirect { location: Location::Group(id), .. }) => id,
        _ => panic!("group not created"),
    }
}

fn make_goal(s: &mut Store, user: i64, group: i64, title: &str, stage: i16) {
    assert!(matches!(post_new_goal(s, user, group, goal_form(title, stage), PAGE), Ok(Reply::Redirect { .. })));
}

fn fetched(s: &Store, user: i64, group: i64, goal: i64) -> Result<Goal, AppError> {
    match get_goal(s, user, group, goal, FRAGMENT)? {
        Reply::Render { view, .. } => Ok(view.goal),
        _ => panic!("goal view not rendered"),
    }
}

#[test]
fn negotiation_table() {
    assert_eq!(negotiate(false, false), Shape::Page);
    assert_eq!(negotiate(false, true), Shape::Page);
    assert_eq!(negotiate(true, true), Shape::Page);
    assert_eq!(negotiate(true, false), Shape::Fragment);
}

#[test]
fn empty_dashboard() {
    let s = store_with_tone();
    match dashboard(&s, 1, PAGE) {
        Reply::Render { shape, refresh, notification, view } => {
            assert_eq!(shape, Shape::Page);
            assert_eq!(refresh, Refresh::AfterSwap);
            assert!(notification.is_none());
            assert!(view.groups.is_empty());
        }
        _ => panic!("dashboard not rendered"),
    }
}

#[test]
fn new_group_redirects_with_notification() {
    let mut s = store_with_tone();
    match post_new_group(&mut s, 1, group_form("Fitness")) {
        Ok(Reply::Redirect { location, notification }) => {
            assert_eq!(location, Location::Group(1));
            let n = notification.expect("notification");
            assert_eq!(n.title, "Created Fitness");
            assert_eq!(n.message, "New Group Created!");
            assert_eq!(n.variant, Variant::Success);
            assert!(n.auto_close);
        }
        _ => panic!("no redirect"),
    }
    match dashboard(&s, 1, FRAGMENT) {
        Reply::Render { shape, view, .. } => {
            assert_eq!(shape, Shape::Fragment);
            assert_eq!(view.groups.len(), 1);
            assert_eq!(view.groups[0].title, "Fitness");
        }
        _ => panic!("dashboard not rendered"),
    }
}

#[test]
fn board_fragment_buckets_in_order() {
    let mut s = store_with_tone();
    let g = make_group(&mut s, 1, "Fitness");
    make_goal(&mut s, 1, g, "a", 0);
    make_goal(&mut s, 1, g, "b", 1);
    make_goal(&mut s, 1, g, "c", 1);
    make_goal(&mut s, 1, g, "d", 3);
    match get_group(&s, 1, g, FRAGMENT) {
        Ok(Reply::Render { shape, refresh, view, .. }) => {
            assert_eq!(shape, Shape::Fragment);
            assert_eq!(refresh, Refresh::AfterSwap);
            assert!(view.links.is_none());
            assert_eq!(view.group.stages.len(), 4);
            let titles: Vec<&str> = view.goals_in_stages[1].iter().map(|g| g.title.as_str()).collect();
            assert_eq!(titles, vec!["b", "c"]);
            assert_eq!(view.goals_in_stages[0].len(), 1);
            assert_eq!(view.goals_in_stages[2].len(), 0);
            assert_eq!(view.goals_in_stages[3].len(), 1);
        }
        _ => panic!("board not rendered"),
    }
    match get_group(&s, 1, g, BOOSTED) {
        Ok(Reply::Render { shape, view, .. }) => {
            assert_eq!(shape, Shape::Page);
            let links = view.links.expect("links");
            assert_eq!(links.len(), 1);
            assert_eq!(links[0].title, "Fitness");
        }
        _ => panic!("board not rendered"),
    }
}

#[test]
fn created_goal_reads_back() {
    let mut s = store_with_tone();
    let g = make_group(&mut s, 1, "Fitness");
    make_goal(&mut s, 1, g, "T", 2);
    let goal = fetched(&s, 1, g, 1).expect("goal");
    assert_eq!(goal.stage, 2);
    assert_eq!(goal.title, "T");
}

#[test]
fn stage_patch_in_range_reads_back() {
    let mut s = store_with_tone();
    let g = make_group(&mut s, 1, "Fitness");
    make_goal(&mut s, 1, g, "T", 0);
    for stage in 0..=4 {
        assert!(matches!(patch_goal_stage(&mut s, 1, g, 1, stage), Ok(Reply::Done)));
        assert_eq!(fetched(&s, 1, g, 1).unwrap().stage, stage);
    }
}

#[test]
fn stage_patch_out_of_range_is_bad_request() {
    let mut s = store_with_tone();
    let g = make_group(&mut s, 1, "Fitness");
    make_goal(&mut s, 1, g, "T", 2);
    assert_eq!(patch_goal_stage(&mut s, 1, g, 1, 5).err(), Some(AppError::BadRequest));
    assert_eq!(patch_goal_stage(&mut s, 1, g, 1, -1).err(), Some(AppError::BadRequest));
    assert_eq!(fetched(&s, 1, g, 1).unwrap().stage, 2);
    assert_eq!(patch_goal_stage(&mut s, 2, g, 1, 3).err(), Some(AppError::NotFound));
    assert_eq!(fetched(&s, 1, g, 1).unwrap().stage, 2);
}

#[test]
fn other_users_group_is_not_found() {
    let mut s = store_with_tone();
    let g = make_group(&mut s, 1, "Fitness");
    make_goal(&mut s, 1, g, "T", 0);
    assert_eq!(get_group(&s, 2, g, PAGE).err(), Some(AppError::NotFound));
    assert_eq!(edit_group(&s, 2, g, PAGE).err(), Some(AppError::NotFound));
    assert_eq!(post_edit_group(&mut s, 2, g, group_form("Mine"), FRAGMENT).err(), Some(AppError::NotFound));
    assert_eq!(delete_group(&mut s, 2, g).err(), Some(AppError::NotFound));
    assert_eq!(new_goal(&s, 2, g, None, PAGE).err(), Some(AppError::NotFound));
    assert_eq!(post_new_goal(&mut s, 2, g, goal_form("x", 0), PAGE).err(), Some(AppError::NotFound));
    assert_eq!(get_goal(&s, 2, g, 1, PAGE).err(), Some(AppError::NotFound));
    assert_eq!(edit_goal(&s, 2, g, 1, FRAGMENT).err(), Some(AppError::NotFound));
    assert_eq!(post_edit_goal(&mut s, 2, g, 1, goal_form("x", 0), PAGE).err(), Some(AppError::NotFound));
    assert_eq!(delete_goal(&mut s, 2, g, 1).err(), Some(AppError::NotFound));
    // the owner still sees everything unchanged
    match edit_group(&s, 1, g, PAGE) {
        Ok(Reply::Render { view, .. }) => assert_eq!(view.group.title, "Fitness"),
        _ => panic!("owner lost the group"),
    }
    assert_eq!(fetched(&s, 1, g, 1).unwrap().title, "T");
}

#[test]
fn deleting_group_removes_its_goals() {
    let mut s = store_with_tone();
    let g = make_group(&mut s, 1, "Fitness");
    let h = make_group(&mut s, 1, "Reading");
    make_goal(&mut s, 1, g, "a", 0);
    make_goal(&mut s, 1, g, "b", 3);
    make_goal(&mut s, 1, h, "c", 1);
    assert!(matches!(delete_group(&mut s, 1, g), Ok(Reply::Done)));
    assert_eq!(fetched(&s, 1, g, 1).err(), Some(AppError::NotFound));
    assert_eq!(fetched(&s, 1, g, 2).err(), Some(AppError::NotFound));
    assert_eq!(s.list_goals(g).len(), 0);
    assert_eq!(fetched(&s, 1, h, 3).unwrap().title, "c");
    assert_eq!(delete_group(&mut s, 1, g).err(), Some(AppError::NotFound));
}

#[test]
fn edit_group_fragment_and_redirect() {
    let mut s = store_with_tone();
    let g = make_group(&mut s, 1, "Fitness");
    match post_edit_group(&mut s, 1, g, group_form("Running"), FRAGMENT) {
        Ok(Reply::Render { shape, refresh, notification, view }) => {
            assert_eq!(shape, Shape::Fragment);
            assert_eq!(refresh, Refresh::AfterSettle);
            let n = notification.expect("notification");
            assert_eq!(n.title, "Running Updated");
            assert_eq!(n.message, "Your group has been updated");
            assert_eq!(view.groups[0].title, "Running");
        }
        _ => panic!("no fragment"),
    }
    match post_edit_group(&mut s, 1, g, group_form("Swimming"), PAGE) {
        Ok(Reply::Redirect { location, notification }) => {
            assert_eq!(location, Location::Dashboard);
            assert_eq!(notification.expect("notification").title, "Swimming Updated");
        }
        _ => panic!("no redirect"),
    }
}

#[test]
fn new_group_form_lists_visible_tones() {
    let mut s = store_with_tone();
    assert!(s.add_tone(tone(2, false, Some(1))));
    assert!(s.add_tone(tone(3, false, Some(2))));
    assert!(!s.add_tone(tone(3, true, None)));
    match new_group(&s, 1, FRAGMENT) {
        Reply::Render { shape, view, .. } => {
            assert_eq!(shape, Shape::Fragment);
            let ids: Vec<i64> = view.tones.iter().map(|t| t.id).collect();
            assert_eq!(ids, vec![1, 2]);
            assert!(view.groups.is_none());
        }
        _ => panic!("form not rendered"),
    }
    match new_group(&s, 2, PAGE) {
        Reply::Render { view, .. } => {
            let ids: Vec<i64> = view.tones.iter().map(|t| t.id).collect();
            assert_eq!(ids, vec![1, 3]);
            assert!(view.groups.is_some());
        }
        _ => panic!("form not rendered"),
    }
}

#[test]
fn new_goal_form_defaults_to_first_column() {
    let mut s = store_with_tone();
    let g = make_group(&mut s, 1, "Fitness");
    match new_goal(&s, 1, g, None, FRAGMENT) {
        Ok(Reply::Render { view, .. }) => {
            assert_eq!(view.selected_stage, 0);
            assert!(view.goals_in_stages.is_none());
        }
        _ => panic!("form not rendered"),
    }
    match new_goal(&s, 1, g, Some(2), PAGE) {
        Ok(Reply::Render { view, .. }) => {
            assert_eq!(view.selected_stage, 2);
            assert_eq!(view.goals_in_stages.expect("board").len(), 4);
        }
        _ => panic!("form not rendered"),
    }
}

#[test]
fn new_goal_fragment_returns_board_with_notification() {
    let mut s = store_with_tone();
    let g = make_group(&mut s, 1, "Fitness");
    match post_new_goal(&mut s, 1, g, goal_form("Run", 1), FRAGMENT) {
        Ok(Reply::Render { shape, refresh, notification, view }) => {
            assert_eq!(shape, Shape::Fragment);
            assert_eq!(refresh, Refresh::AfterSettle);
            let n = notification.expect("notification");
            assert_eq!(n.title, "Created Run");
            assert_eq!(n.message, "Your goal has been created");
            assert_eq!(view.goals_in_stages[1][0].title, "Run");
        }
        _ => panic!("no fragment"),
    }
}

#[test]
fn new_goal_keeps_initial_stage_unchecked() {
    let mut s = store_with_tone();
    let g = make_group(&mut s, 1, "Fitness");
    make_goal(&mut s, 1, g, "far", 7);
    assert_eq!(fetched(&s, 1, g, 1).unwrap().stage, 7);
    match get_group(&s, 1, g, FRAGMENT) {
        Ok(Reply::Render { view, .. }) => assert!(view.goals_in_stages.iter().all(|b| b.is_empty())),
        _ => panic!("board not rendered"),
    }
}

#[test]
fn goal_page_and_fragment_agree() {
    let mut s = store_with_tone();
    let g = make_group(&mut s, 1, "Fitness");
    make_goal(&mut s, 1, g, "a", 0);
    make_goal(&mut s, 1, g, "b", 2);
    match get_goal(&s, 1, g, 2, PAGE) {
        Ok(Reply::Render { shape, view, .. }) => {
            assert_eq!(shape, Shape::Page);
            assert_eq!(view.goal.title, "b");
            assert!(view.links.is_some());
            assert_eq!(view.goals_in_stages.expect("board")[2].len(), 1);
        }
        _ => panic!("goal not rendered"),
    }
    assert_eq!(fetched(&s, 1, g, 2).unwrap().title, "b");
    assert_eq!(get_goal(&s, 1, g, 9, PAGE).err(), Some(AppError::NotFound));
    assert_eq!(edit_goal(&s, 1, g, 9, FRAGMENT).err(), Some(AppError::NotFound));
}

#[test]
fn edit_goal_updates_fields() {
    let mut s = store_with_tone();
    let g = make_group(&mut s, 1, "Fitness");
    make_goal(&mut s, 1, g, "a", 0);
    match post_edit_goal(&mut s, 1, g, 1, goal_form("z", 3), FRAGMENT) {
        Ok(Reply::Render { refresh, notification, view, .. }) => {
            assert_eq!(refresh, Refresh::Now);
            assert_eq!(notification.expect("notification").title, "z updated");
            assert_eq!(view.goals_in_stages[3][0].title, "z");
        }
        _ => panic!("no fragment"),
    }
    match post_edit_goal(&mut s, 1, g, 1, goal_form("y", 1), PAGE) {
        Ok(Reply::Redirect { location, .. }) => assert_eq!(location, Location::Group(g)),
        _ => panic!("no redirect"),
    }
    let goal = fetched(&s, 1, g, 1).unwrap();
    assert_eq!((goal.title.as_str(), goal.stage), ("y", 1));
    assert_eq!(post_edit_goal(&mut s, 1, g, 5, goal_form("q", 1), PAGE).err(), Some(AppError::NotFound));
}

#[test]
fn delete_goal_removes_only_it() {
    let mut s = store_with_tone();
    let g = make_group(&mut s, 1, "Fitness");
    make_goal(&mut s, 1, g, "a", 0);
    make_goal(&mut s, 1, g, "b", 0);
    assert!(matches!(delete_goal(&mut s, 1, g, 1), Ok(Reply::Done)));
    assert_eq!(fetched(&s, 1, g, 1).err(), Some(AppError::NotFound));
    assert_eq!(fetched(&s, 1, g, 2).unwrap().title, "b");
}

#[test]
fn board_needs_the_groups_tone() {
    let mut s = Store::new();
    let g = make_group(&mut s, 1, "Fitness");
    assert_eq!(get_group(&s, 1, g, PAGE).err(), Some(AppError::NotFound));
    assert!(edit_group(&s, 1, g, PAGE).is_ok());
}
