use buffer_manager::clock_replacer::ClockReplacer;
use buffer_manager::define::FrameId;
use buffer_manager::lru_replacer::LRUReplacer;
use buffer_manager::policy::PolicyReplacer;
use buffer_manager::replacer::Replacer;

fn drain<R: Replacer>(replacer: &mut R) -> Vec<FrameId> {
    let mut out = Vec::new();
    while let Some(frame_id) = replacer.victim() {
        out.push(frame_id);
    }
    out
}

#[test]
fn lru_victims_come_in_insertion_order() {
    let mut lru = LRUReplacer::new(8);
    lru.insert(4);
    lru.insert(9);
    lru.insert(2);
    assert_eq!(lru.victim(), Some(4));
    assert_eq!(lru.victim(), Some(9));
    assert_eq!(lru.victim(), Some(2));
    assert_eq!(lru.victim(), None);
}

#[test]
fn lru_reinsert_moves_frame_to_the_back() {
    let mut lru = LRUReplacer::new(8);
    lru.insert(1);
    lru.insert(2);
    lru.insert(3);
    lru.insert(1);
    assert_eq!(lru.size(), 3);
    assert_eq!(lru.frames(), &vec![2, 3, 1]);
    assert_eq!(lru.victim(), Some(2));
    assert_eq!(lru.victim(), Some(3));
    assert_eq!(lru.victim(), Some(1));
    assert_eq!(lru.victim(), None);
}

#[test]
fn lru_reinsert_after_a_victim_was_taken() {
    let mut lru = LRUReplacer::new(8);
    lru.insert(1);
    lru.insert(2);
    lru.insert(3);
    assert_eq!(lru.victim(), Some(1));
    lru.insert(2);
    assert_eq!(lru.victim(), Some(3));
    assert_eq!(lru.victim(), Some(2));
}

#[test]
fn lru_victim_of_empty_queue_is_none() {
    let mut lru = LRUReplacer::new(4);
    assert_eq!(lru.size(), 0);
    assert_eq!(lru.victim(), None);
    assert_eq!(lru.size(), 0);
}

#[test]
fn lru_full_queue_drops_least_recent_for_a_new_frame() {
    let mut lru = LRUReplacer::new(2);
    lru.insert(1);
    lru.insert(2);
    lru.insert(3);
    assert_eq!(lru.size(), 2);
    assert_eq!(lru.frames(), &vec![2, 3]);
    assert_eq!(drain(&mut lru), vec![2, 3]);
}

#[test]
fn lru_reinsert_into_full_queue_drops_nothing() {
    let mut lru = LRUReplacer::new(2);
    lru.insert(1);
    lru.insert(2);
    lru.insert(1);
    assert_eq!(lru.size(), 2);
    assert_eq!(drain(&mut lru), vec![2, 1]);
}

#[test]
fn lru_queue_of_size_zero_holds_nothing() {
    let mut lru = LRUReplacer::new(0);
    lru.insert(0);
    lru.insert(5);
    lru.insert(0);
    assert_eq!(lru.size(), 0);
    assert_eq!(lru.frames(), &Vec::<FrameId>::new());
    assert_eq!(lru.victim(), None);
    lru.remove(0);
    assert_eq!(lru.size(), 0);
    let mut policy = PolicyReplacer::LRU(LRUReplacer::new(0));
    policy.insert(3);
    assert_eq!(policy.size(), 0);
    assert_eq!(policy.victim(), None);
}

#[test]
fn lru_queue_of_size_one_holds_the_last_frame() {
    let mut lru = LRUReplacer::new(1);
    lru.insert(4);
    lru.insert(9);
    assert_eq!(lru.frames(), &vec![9]);
    lru.insert(9);
    assert_eq!(lru.victim(), Some(9));
    assert_eq!(lru.victim(), None);
}

#[test]
fn lru_remove_takes_frame_out() {
    let mut lru = LRUReplacer::new(8);
    lru.insert(5);
    lru.insert(6);
    lru.insert(7);
    lru.remove(6);
    assert_eq!(lru.size(), 2);
    lru.remove(6);
    lru.remove(100);
    assert_eq!(lru.size(), 2);
    assert_eq!(drain(&mut lru), vec![5, 7]);
}

#[test]
fn lru_removed_frame_can_come_back() {
    let mut lru = LRUReplacer::new(2);
    lru.insert(5);
    lru.insert(6);
    lru.remove(5);
    lru.insert(7);
    lru.insert(5);
    assert_eq!(drain(&mut lru), vec![7, 5]);
}

#[test]
fn lru_size_counts_candidates() {
    let mut lru = LRUReplacer::new(3);
    assert_eq!(lru.size(), 0);
    lru.insert(1);
    assert_eq!(lru.size(), 1);
    lru.insert(1);
    assert_eq!(lru.size(), 1);
    lru.insert(2);
    lru.insert(3);
    lru.insert(4);
    assert_eq!(lru.size(), 3);
    lru.victim();
    assert_eq!(lru.size(), 2);
}

#[test]
fn clock_two_candidates_leave_in_order() {
    let mut clock = ClockReplacer::new(4);
    clock.insert(11);
    clock.insert(22);
    assert_eq!(clock.victim(), Some(11));
    assert_eq!(clock.entries(), &vec![(22, false)]);
    assert_eq!(clock.victim(), Some(22));
    assert_eq!(clock.victim(), None);
}

#[test]
fn clock_victim_of_empty_ring_is_none() {
    let mut clock = ClockReplacer::new(4);
    assert_eq!(clock.victim(), None);
    assert_eq!(clock.size(), 0);
}

#[test]
fn clock_single_candidate_is_taken() {
    let mut clock = ClockReplacer::new(1);
    clock.insert(3);
    assert_eq!(clock.victim(), Some(3));
    assert_eq!(clock.size(), 0);
}

#[test]
fn clock_sweep_clears_marks_and_takes_first_cleared() {
    let mut clock = ClockReplacer::new(4);
    clock.insert(1);
    clock.insert(2);
    clock.insert(3);
    assert_eq!(clock.victim(), Some(1));
    assert_eq!(clock.entries(), &vec![(2, false), (3, false)]);
    clock.insert(4);
    assert_eq!(clock.entries(), &vec![(2, false), (3, false), (4, true)]);
    assert_eq!(clock.victim(), Some(2));
    assert_eq!(clock.entries(), &vec![(3, false), (4, true)]);
}

#[test]
fn clock_insert_again_sets_the_mark_and_keeps_the_place() {
    let mut clock = ClockReplacer::new(4);
    clock.insert(1);
    clock.insert(2);
    clock.insert(3);
    assert_eq!(clock.victim(), Some(1));
    clock.insert(2);
    assert_eq!(clock.size(), 2);
    assert_eq!(clock.entries(), &vec![(2, true), (3, false)]);
    assert_eq!(clock.victim(), Some(3));
    assert_eq!(clock.entries(), &vec![(2, false)]);
    assert_eq!(clock.victim(), Some(2));
}

#[test]
fn clock_insert_twice_is_insert_once() {
    let mut once = ClockReplacer::new(4);
    once.insert(7);
    let mut twice = ClockReplacer::new(4);
    twice.insert(7);
    twice.insert(7);
    assert_eq!(once.entries(), twice.entries());
    assert_eq!(twice.size(), 1);
}

#[test]
fn clock_hand_goes_on_from_where_it_took() {
    let mut clock = ClockReplacer::new(8);
    for frame_id in 0..4 {
        clock.insert(frame_id);
    }
    assert_eq!(clock.victim(), Some(0));
    clock.insert(0);
    // ring: 1 2 3 0, the first three with cleared marks, hand at the first
    assert_eq!(clock.victim(), Some(1));
    assert_eq!(clock.victim(), Some(2));
    clock.insert(9);
    // ring: 3 0 9, hand at 3
    assert_eq!(clock.victim(), Some(3));
    // hand at 0, whose mark is set, then 9, set too, then 0 again
    assert_eq!(clock.victim(), Some(0));
    assert_eq!(clock.entries(), &vec![(9, false)]);
}

#[test]
fn clock_hand_past_the_end_starts_over() {
    let mut clock = ClockReplacer::new(8);
    clock.insert(1);
    clock.insert(2);
    clock.insert(3);
    assert_eq!(clock.victim(), Some(1));
    clock.insert(2);
    clock.insert(3);
    // ring: 2 3, both marked, hand at the first
    assert_eq!(clock.victim(), Some(2));
    // ring: 3 (cleared), hand at the first
    clock.insert(4);
    clock.remove(3);
    clock.remove(4);
    clock.insert(5);
    clock.insert(6);
    assert_eq!(clock.victim(), Some(5));
}

#[test]
fn clock_remove_takes_entry_off() {
    let mut clock = ClockReplacer::new(4);
    clock.insert(1);
    clock.insert(2);
    clock.insert(3);
    clock.remove(2);
    assert_eq!(clock.entries(), &vec![(1, true), (3, true)]);
    clock.remove(2);
    clock.remove(77);
    assert_eq!(clock.size(), 2);
    assert_eq!(drain(&mut clock), vec![1, 3]);
}

#[test]
fn clock_size_counts_candidates() {
    let mut clock = ClockReplacer::new(2);
    clock.insert(1);
    clock.insert(2);
    clock.insert(3);
    assert_eq!(clock.size(), 3);
    clock.victim();
    assert_eq!(clock.size(), 2);
}

#[test]
fn policy_replacer_follows_the_policy_it_holds() {
    let mut lru = PolicyReplacer::LRU(LRUReplacer::new(4));
    let mut clock = PolicyReplacer::Clock(ClockReplacer::new(4));
    for frame_id in [3, 1, 2] {
        lru.insert(frame_id);
        clock.insert(frame_id);
    }
    lru.insert(3);
    clock.insert(3);
    assert_eq!(lru.size(), 3);
    assert_eq!(clock.size(), 3);
    lru.remove(2);
    clock.remove(2);
    assert_eq!(drain(&mut lru), vec![1, 3]);
    assert_eq!(drain(&mut clock), vec![3, 1]);
}

#[test]
fn every_victim_was_a_candidate() {
    let mut lru = LRUReplacer::new(16);
    let mut clock = ClockReplacer::new(16);
    let frames = [5, 3, 8, 1, 13, 2];
    for frame_id in frames {
        lru.insert(frame_id);
        clock.insert(frame_id);
    }
    let mut from_lru = drain(&mut lru);
    let mut from_clock = drain(&mut clock);
    from_lru.sort();
    from_clock.sort();
    assert_eq!(from_lru, vec![1, 2, 3, 5, 8, 13]);
    assert_eq!(from_clock, vec![1, 2, 3, 5, 8, 13]);
}
