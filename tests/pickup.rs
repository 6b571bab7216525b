use hypermaze::pickup::{all_active, resolve_pickups};

#[test]
fn loaded_objects_start_active() {
    assert_eq!(all_active(3), vec![true, true, true]);
    assert_eq!(all_active(0), Vec::<bool>::new());
}

#[test]
fn touching_active_object_is_picked_up() {
    let mut active = vec![true, true, true];
    resolve_pickups(&mut active, &vec![false, true, false]);
    assert_eq!(active, vec![true, false, true]);
}

#[test]
fn untouched_objects_keep_their_flag() {
    let mut active = vec![true, false];
    resolve_pickups(&mut active, &vec![false, false]);
    assert_eq!(active, vec![true, false]);
}

#[test]
fn found_object_is_never_reactivated() {
    let mut active = vec![true, true];
    resolve_pickups(&mut active, &vec![true, false]);
    assert_eq!(active, vec![false, true]);
    // Later ticks move the player away and back again.
    for touching in [vec![false, false], vec![true, false], vec![false, true], vec![false, false]] {
        resolve_pickups(&mut active, &touching);
        assert!(!active[0]);
    }
    assert_eq!(active, vec![false, false]);
}

#[test]
fn pickup_on_empty_map() {
    let mut active: Vec<bool> = Vec::new();
    resolve_pickups(&mut active, &Vec::new());
    assert!(active.is_empty());
}
