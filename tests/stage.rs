use silly_goals::model::Goal;
use silly_goals::stage::{
    group_goals_by_stage, off_board_goals, stage_border_light, stage_color, stage_color_light,
    stage_loop_comp, stage_text, validate_stage_update, StageError,
};

fn goal(id: i64, stage: i64) -> Goal {
    Goal {
        id,
        title: format!("goal {}", id),
        description: None,
        stage,
        deadline: None,
        group_id: 1,
    }
}

#[test]
fn stage_colors_by_column() {
    assert_eq!(stage_color(0), "bg-rose-500");
    assert_eq!(stage_color(1), "bg-amber-500");
    assert_eq!(stage_color(2), "bg-sky-500");
    assert_eq!(stage_color(3), "bg-emerald-500");
    assert_eq!(stage_color(4), "bg-gray-500");
    assert_eq!(stage_color(-1), "bg-gray-500");
}

#[test]
fn stage_light_colors_by_column() {
    assert_eq!(stage_color_light(0), "bg-rose-200");
    assert_eq!(stage_color_light(1), "bg-amber-200");
    assert_eq!(stage_color_light(2), "bg-sky-200");
    assert_eq!(stage_color_light(3), "bg-emerald-200");
    assert_eq!(stage_color_light(9), "bg-gray-200");
}

#[test]
fn stage_borders_by_column() {
    assert_eq!(stage_border_light(0), "border-rose-200");
    assert_eq!(stage_border_light(1), "border-amber-200");
    assert_eq!(stage_border_light(2), "border-sky-200");
    assert_eq!(stage_border_light(3), "border-emerald-200");
    assert_eq!(stage_border_light(-7), "border-gray-200");
}

#[test]
fn loop_comparison_matches_index() {
    assert!(stage_loop_comp(&2, &2));
    assert!(!stage_loop_comp(&2, &3));
    assert!(!stage_loop_comp(&-1, &0));
}

#[test]
fn stage_text_picks_label_or_unknown() {
    let labels = vec![
        "Todo".to_string(),
        "Doing".to_string(),
        "Review".to_string(),
        "Done".to_string(),
    ];
    assert_eq!(stage_text(0, &labels), "Todo");
    assert_eq!(stage_text(3, &labels), "Done");
    assert_eq!(stage_text(4, &labels), "unknown");
    assert_eq!(stage_text(-1, &labels), "unknown");
    assert_eq!(stage_text(0, &vec![]), "unknown");
}

#[test]
fn partition_keeps_order_and_drops_off_board() {
    let goals = vec![goal(1, 1), goal(2, 0), goal(3, 4), goal(4, 1), goal(5, -2), goal(6, 3), goal(7, 9)];
    let b = group_goals_by_stage(&goals);
    assert_eq!(b.len(), 4);
    let ids: Vec<Vec<i64>> = b.iter().map(|v| v.iter().map(|g| g.id).collect()).collect();
    assert_eq!(ids, vec![vec![2], vec![1, 4], vec![], vec![6]]);
    assert_eq!(off_board_goals(&goals), vec![3, 5, 7]);
}

#[test]
fn partition_of_nothing_is_four_empty_buckets() {
    let b = group_goals_by_stage(&[]);
    assert_eq!(b.len(), 4);
    assert!(b.iter().all(|v| v.is_empty()));
}

#[test]
fn each_goal_lands_in_one_bucket_at_most() {
    let goals: Vec<Goal> = (-2..7).map(|s| goal(s + 10, s)).collect();
    let b = group_goals_by_stage(&goals);
    for g in &goals {
        let hits = b.iter().filter(|v| v.iter().any(|h| h.id == g.id)).count();
        let expected = if (0..=3).contains(&g.stage) { 1 } else { 0 };
        assert_eq!(hits, expected);
    }
}

#[test]
fn stage_update_range() {
    assert_eq!(validate_stage_update(0), Ok(0));
    assert_eq!(validate_stage_update(4), Ok(4));
    assert_eq!(validate_stage_update(5), Err(StageError::OutOfRange));
    assert_eq!(validate_stage_update(-1), Err(StageError::OutOfRange));
}
