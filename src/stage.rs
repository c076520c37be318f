use crate::model::Goal;
use vstd::prelude::*;

verus! {

/// Number of stages that have a board column.
pub const BOARD_COLUMNS: usize = 4;

/// Largest stage a goal may be moved to; it has no column on the board.
pub const MAX_STAGE: i64 = 4;

/// Background colour token of a stage's column.
pub fn stage_color(s: i64) -> (r: &'static str)
    ensures
        r@ == (if s == 0 {
            "bg-rose-500"@
        } else if s == 1 {
            "bg-amber-500"@
        } else if s == 2 {
            "bg-sky-500"@
        } else if s == 3 {
            "bg-emerald-500"@
        } else {
            "bg-gray-500"@
        }),
{
    match s {
        0 => "bg-rose-500",
        1 => "bg-amber-500",
        2 => "bg-sky-500",
        3 => "bg-emerald-500",
        _ => "bg-gray-500",
    }
}

/// Light background colour token of a stage's column.
pub fn stage_color_light(s: i64) -> (r: &'static str)
    ensures
        r@ == (if s == 0 {
            "bg-rose-200"@
        } else if s == 1 {
            "bg-amber-200"@
        } else if s == 2 {
            "bg-sky-200"@
        } else if s == 3 {
            "bg-emerald-200"@
        } else {
            "bg-gray-200"@
        }),
{
    match s {
        0 => "bg-rose-200",
        1 => "bg-amber-200",
        2 => "bg-sky-200",
        3 => "bg-emerald-200",
        _ => "bg-gray-200",
    }
}

/// Light border colour token of a stage's column.
pub fn stage_border_light(s: i64) -> (r: &'static str)
    ensures
        r@ == (if s == 0 {
            "border-rose-200"@
        } else if s == 1 {
            "border-amber-200"@
        } else if s == 2 {
            "border-sky-200"@
        } else if s == 3 {
            "border-emerald-200"@
        } else {
            "border-gray-200"@
        }),
{
    match s {
        0 => "border-rose-200",
        1 => "border-amber-200",
        2 => "border-sky-200",
        3 => "border-emerald-200",
        _ => "border-gray-200",
    }
}

/// Whether a goal's stage is the column with the given index.
pub fn stage_loop_comp(stage: &i64, index: &usize) -> (r: bool)
    ensures
        r == (*stage == *index as int),
{
    *stage >= 0 && *stage as u64 == *index as u64
}

/// The label of a stage, or "unknown" where the tone has no label at that index.
pub fn stage_text(index: i64, stages: &Vec<String>) -> (r: String)
    ensures
        0 <= index < stages@.len() ==> r@ == stages@[index as int]@,
        !(0 <= index < stages@.len()) ==> r@ == "unknown"@,
{
    if index >= 0 && (index as u64) < (stages.len() as u64) {
        stages[index as usize].clone()
    } else {
        "unknown".to_owned()
    }
}

/// The goals of a sequence whose stage is `k`, in their order.
pub open spec fn stage_bucket(goals: Seq<Goal>, k: int) -> Seq<Goal> {
    goals.filter(|g: Goal| g.stage == k)
}

proof fn lemma_bucket_push(s: Seq<Goal>, g: Goal, k: int)
    ensures
        stage_bucket(s.push(g), k) == if g.stage == k {
            stage_bucket(s, k).push(g)
        } else {
            stage_bucket(s, k)
        },
{
    s.lemma_filter_push(g, |h: Goal| h.stage == k);
}

/// Splits goals into one bucket per board column, keeping their order within
/// each bucket; a goal whose stage has no column is left out.
pub fn group_goals_by_stage(goals: &[Goal]) -> (r: Vec<Vec<Goal>>)
    ensures
        r@.len() == BOARD_COLUMNS,
        forall|k: int| 0 <= k < BOARD_COLUMNS ==> #[trigger] r@[k]@ == stage_bucket(goals@, k),
{
    let mut b0: Vec<Goal> = Vec::new();
    let mut b1: Vec<Goal> = Vec::new();
    let mut b2: Vec<Goal> = Vec::new();
    let mut b3: Vec<Goal> = Vec::new();
    let mut i: usize = 0;
    while i < goals.len()
        invariant
            i <= goals@.len(),
            b0@ == stage_bucket(goals@.take(i as int), 0),
            b1@ == stage_bucket(goals@.take(i as int), 1),
            b2@ == stage_bucket(goals@.take(i as int), 2),
            b3@ == stage_bucket(goals@.take(i as int), 3),
        decreases goals@.len() - i,
    {
        let g = goals[i].duplicate();
        proof {
            let s = goals@.take(i as int);
            assert(goals@.take(i + 1) == s.push(g));
            lemma_bucket_push(s, g, 0);
            lemma_bucket_push(s, g, 1);
            lemma_bucket_push(s, g, 2);
            lemma_bucket_push(s, g, 3);
        }
        if g.stage == 0 {
            b0.push(g);
        } else if g.stage == 1 {
            b1.push(g);
        } else if g.stage == 2 {
            b2.push(g);
        } else if g.stage == 3 {
            b3.push(g);
        }
        i = i + 1;
    }
    proof {
        assert(goals@.take(goals@.len() as int) == goals@);
    }
    vec![b0, b1, b2, b3]
}

/// Each goal lies in the bucket of its own stage and in no other; a goal whose
/// stage has no board column lies in none.
pub proof fn lemma_goal_in_one_bucket(goals: Seq<Goal>, i: int)
    requires
        0 <= i < goals.len(),
    ensures
        forall|k: int|
            0 <= k < BOARD_COLUMNS ==> (#[trigger] stage_bucket(goals, k).contains(goals[i])
                <==> goals[i].stage == k),
        !(0 <= goals[i].stage < BOARD_COLUMNS) ==> forall|k: int|
            0 <= k < BOARD_COLUMNS ==> !#[trigger] stage_bucket(goals, k).contains(goals[i]),
{
    broadcast use Seq::lemma_filter_contains, Seq::lemma_filter_pred;

    assert forall|k: int| 0 <= k < BOARD_COLUMNS implies (#[trigger] stage_bucket(
        goals,
        k,
    ).contains(goals[i]) <==> goals[i].stage == k) by {
        let f = |g: Goal| g.stage == k;
        if goals[i].stage == k {
            goals.lemma_filter_contains(f, i);
        }
        if stage_bucket(goals, k).contains(goals[i]) {
            let j = choose|j: int|
                0 <= j < goals.filter(f).len() && goals.filter(f)[j] == goals[i];
            goals.lemma_filter_pred(f, j);
        }
    }
}


/// Whether a stage has a column on the board.
pub open spec fn on_board(stage: i64) -> bool {
    0 <= stage < BOARD_COLUMNS
}

/// The ids of the goals that the board leaves out, in their order, so that
/// each can be reported.
pub fn off_board_goals(goals: &[Goal]) -> (r: Vec<i64>)
    ensures
        r@ == goals@.filter(|g: Goal| !on_board(g.stage)).map_values(|g: Goal| g.id),
{
    let mut r: Vec<i64> = Vec::new();
    let mut i: usize = 0;
    while i < goals.len()
        invariant
            i <= goals@.len(),
            r@ == goals@.take(i as int).filter(|g: Goal| !on_board(g.stage)).map_values(|g: Goal| g.id),
        decreases goals@.len() - i,
    {
        proof {
            let s = goals@.take(i as int);
            assert(goals@.take(i + 1) == s.push(goals@[i as int]));
            s.lemma_filter_push(goals@[i as int], |g: Goal| !on_board(g.stage));
        }
        if goals[i].stage < 0 || goals[i].stage >= 4 {
            r.push(goals[i].id);
            assert(r@ =~= goals@.take(i + 1).filter(|g: Goal| !on_board(g.stage)).map_values(|g: Goal| g.id));
        }
        i = i + 1;
    }
    assert(goals@.take(goals@.len() as int) == goals@);
    r
}

/// Why a stage change is refused.
#[derive(Clone, Copy, Debug, PartialEq, Eq, Structural)]
pub enum StageError {
    OutOfRange,
}

/// Accepts a stage a goal may be moved to: any stage from 0 to 4, from any other.
pub fn validate_stage_update(new_stage: i64) -> (r: Result<i64, StageError>)
    ensures
        (0 <= new_stage <= MAX_STAGE) ==> r == Ok::<i64, StageError>(new_stage),
        !(0 <= new_stage <= MAX_STAGE) ==> r == Err::<i64, StageError>(StageError::OutOfRange),
{
    if new_stage < 0 || new_stage > MAX_STAGE {
        Err(StageError::OutOfRange)
    } else {
        Ok(new_stage)
    }
}

} // verus!
