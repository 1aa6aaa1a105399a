use hpx::sampling::{random_set, Reservoir, DEFAULT_RESERVOIR_SIZE};
use hpx::state::ContextState;

#[test]
fn nothing_selected_samples_nothing() {
    let state = ContextState {
        sampling: random_set(100, 0),
        counter: std::sync::atomic::AtomicUsize::new(0),
    };
    for n in 0..300 {
        assert!(!state.should_sampling(n));
    }
    assert_eq!(state.sampling.len(), 0);
}

#[test]
fn everything_selected_samples_every_slot() {
    let state = ContextState {
        sampling: random_set(100, 100),
        counter: std::sync::atomic::AtomicUsize::new(0),
    };
    for n in 0..100 {
        assert!(state.should_sampling(n));
    }
    for n in 100..300 {
        assert!(!state.should_sampling(n));
    }
}

#[test]
fn more_selected_than_slots_selects_the_slots() {
    let set = random_set(10, 50);
    assert_eq!(set.len(), 10);
    for n in 0..10 {
        assert!(set.contains(n));
    }
    assert!(!set.contains(10));
    assert!(!set.contains(49));
}

#[test]
fn selected_count_is_kept_whatever_is_drawn() {
    for _ in 0..50 {
        let set = random_set(100, 30);
        assert_eq!(set.len(), 30);
        for n in set.iter() {
            assert!(n < 100);
        }
    }
}

#[test]
fn reservoir_of_no_slots_is_empty() {
    assert_eq!(random_set(0, 0).len(), 0);
    assert_eq!(random_set(0, 5).len(), 0);
}

#[test]
fn later_slots_do_get_selected() {
    let mut seen_late = false;
    for _ in 0..200 {
        let set = random_set(100, 50);
        if set.iter().any(|n| n >= 50) {
            seen_late = true;
        }
    }
    assert!(seen_late);
}

#[test]
fn reservoir_starts_with_the_first_slots() {
    let set = Reservoir::with_first(3).into_set();
    assert_eq!(set.iter().collect::<Vec<usize>>(), vec![0, 1, 2]);
}

#[test]
fn offer_replaces_the_slot_at_the_drawn_position() {
    let mut reservoir = Reservoir::with_first(3);
    reservoir.offer(3, 1);
    let set = reservoir.into_set();
    assert_eq!(set.iter().collect::<Vec<usize>>(), vec![0, 2, 3]);
}

#[test]
fn offer_with_a_draw_past_the_positions_changes_nothing() {
    let mut reservoir = Reservoir::with_first(3);
    reservoir.offer(3, 3);
    reservoir.offer(4, 4);
    let set = reservoir.into_set();
    assert_eq!(set.iter().collect::<Vec<usize>>(), vec![0, 1, 2]);
}

#[test]
fn offer_twice_at_one_position_keeps_the_later_slot() {
    let mut reservoir = Reservoir::with_first(2);
    reservoir.offer(2, 0);
    reservoir.offer(3, 0);
    let set = reservoir.into_set();
    assert_eq!(set.iter().collect::<Vec<usize>>(), vec![1, 3]);
}

#[test]
fn state_with_percentage_selects_that_many_slots() {
    assert_eq!(DEFAULT_RESERVOIR_SIZE, 100);
    let none = ContextState::with_percentage(0);
    assert_eq!(none.sampling.len(), 0);
    let some = ContextState::with_percentage(25);
    assert_eq!(some.sampling.len(), 25);
    let all = ContextState::with_percentage(100);
    assert_eq!(all.sampling.len(), 100);
    let over = ContextState::with_percentage(250);
    assert_eq!(over.sampling.len(), 100);
    assert!(over.should_sampling(99));
    assert!(!over.should_sampling(100));
}
