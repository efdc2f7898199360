use tetrox::field::LineClear;
use tetrox::goal::LinesCleared;

#[test]
fn lines_goal_counts_clears() {
    let mut goal = LinesCleared::new();
    assert_eq!(goal.n_cleared(), 0);
    assert!(!goal.is_completed(4));
    assert!(goal.is_completed(0));
    goal.add(&Some(LineClear::new(3, None, false)));
    goal.add(&None);
    goal.add(&Some(LineClear::new(0, None, false)));
    assert_eq!(goal.n_cleared(), 3);
    assert!(!goal.is_completed(4));
    assert_eq!(goal.display(40), "3/40");
    goal.add(&Some(LineClear::new(1, None, false)));
    assert!(goal.is_completed(4));
    assert_eq!(goal.display(4), "4/4");
    for _ in 0..30 {
        goal.add(&Some(LineClear::new(4, None, false)));
    }
    assert_eq!(goal.display(120), "124/120");
    assert!(goal.is_completed(120));
}
