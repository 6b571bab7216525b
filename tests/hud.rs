use hypermaze::hud::{
    all_objects_found, count_inactive_objects, hud_counts, hud_text, progress_text,
};

#[test]
fn progress_while_objects_remain() {
    assert_eq!(progress_text(3, 5), "3/5 found...");
    assert_eq!(progress_text(0, 12), "0/12 found...");
}

#[test]
fn progress_when_all_found() {
    assert_eq!(progress_text(5, 5), "5/5 found. You won!");
    assert_eq!(progress_text(10, 10), "10/10 found. You won!");
}

#[test]
fn counts_of_a_map() {
    let active = vec![true, false, true, false, false];
    assert_eq!(count_inactive_objects(&active), 3);
    assert_eq!(hud_counts(&active), (5, 3));
    assert!(!all_objects_found(&active));
}

#[test]
fn hud_reports_partial_progress() {
    let active = vec![false, true, true];
    let text = hud_text(&active);
    assert_eq!(text, "1/3 found...");
    assert!(!text.starts_with("3/3 found"));
}

#[test]
fn hud_reports_all_found() {
    let active = vec![false, false, false];
    assert!(all_objects_found(&active));
    let text = hud_text(&active);
    assert_eq!(text, "3/3 found. You won!");
    assert!(text.starts_with("3/3 found"));
}

#[test]
fn hud_with_no_objects() {
    let active: Vec<bool> = Vec::new();
    assert_eq!(hud_counts(&active), (0, 0));
    assert!(all_objects_found(&active));
    assert_eq!(hud_text(&active), "0/0 found. You won!");
}

#[test]
fn hud_does_not_confuse_similar_counts() {
    let mut active = vec![false; 11];
    active[0] = true;
    assert_eq!(hud_text(&active), "10/11 found...");
    active[0] = false;
    assert_eq!(hud_text(&active), "11/11 found. You won!");
}
