use alexandria::models::{Bookfragment, ImageType, SoundType};
use alexandria::ranking::{
    clamp_target, plan_move, rank_in_span, shift_for_move, shift_for_new, shift_of,
    step_for_update, Shift, UpdateStep,
};
use alexandria::table::FragmentTable;
use alexandria::utils::StoreError;

fn row(id: u128, book: u128, rank: i32) -> Bookfragment {
    Bookfragment {
        id,
        content: String::new(),
        oneshotsoundsource: None,
        bgsoundtype: SoundType::Same,
        bgsoundsource: None,
        imgtype: ImageType::Same,
        imgsource: None,
        book,
        chapter: 2,
        rank,
    }
}

fn sample() -> FragmentTable {
    let mut table = FragmentTable::new();
    for (id, book, rank) in [(1, 10, 3), (2, 20, 3), (3, 10, 7), (4, 10, 5)] {
        assert_eq!(table.insert(row(id, book, rank)), Ok(1));
    }
    table
}

#[test]
fn spans_are_half_open() {
    assert!(rank_in_span(2, 2, Some(4)));
    assert!(rank_in_span(3, 2, Some(4)));
    assert!(!rank_in_span(4, 2, Some(4)));
    assert!(!rank_in_span(1, 2, Some(4)));
    assert!(rank_in_span(i32::MAX, 2, None));
    assert!(!rank_in_span(i32::MAX, 2, Some(i32::MAX)));
    assert!(!rank_in_span(5, 6, Some(4)));
}

#[test]
fn a_new_fragment_needs_room_only_in_a_book_with_rows() {
    assert_eq!(
        shift_for_new(10, 4, true),
        Some(Shift { book: 10, from: 4, to: None, delta: 1 })
    );
    assert_eq!(shift_for_new(10, 4, false), None);
}

#[test]
fn a_target_beyond_the_last_rank_is_clamped_to_it() {
    assert_eq!(clamp_target(999, 41), 41);
    assert_eq!(clamp_target(41, 41), 41);
    assert_eq!(clamp_target(7, 41), 7);
    assert_eq!(clamp_target(-3, 41), -3);
}

#[test]
fn the_shift_of_a_move_depends_on_its_direction() {
    assert_eq!(
        shift_for_move(10, 1, 3),
        Some(Shift { book: 10, from: 2, to: Some(4), delta: -1 })
    );
    assert_eq!(
        shift_for_move(10, 3, 1),
        Some(Shift { book: 10, from: 1, to: Some(3), delta: 1 })
    );
    assert_eq!(shift_for_move(10, 3, 3), None);
    assert_eq!(
        shift_for_move(10, 5, i32::MAX),
        Some(Shift { book: 10, from: 6, to: None, delta: -1 })
    );
    assert_eq!(
        shift_for_move(10, i32::MAX, i32::MIN),
        Some(Shift { book: 10, from: i32::MIN, to: Some(i32::MAX), delta: 1 })
    );
}

#[test]
fn a_shift_without_an_amount_is_by_one() {
    assert_eq!(
        shift_of(10, 4, None, None),
        Shift { book: 10, from: 4, to: None, delta: 1 }
    );
    assert_eq!(
        shift_of(10, 4, Some(9), Some(-3)),
        Shift { book: 10, from: 4, to: Some(9), delta: -3 }
    );
}

#[test]
fn the_plan_of_a_move() {
    assert_eq!(
        plan_move(10, 1, 3, Some(4)),
        (3, Some(Shift { book: 10, from: 2, to: Some(4), delta: -1 }))
    );
    assert_eq!(
        plan_move(10, 2, 999, Some(42)),
        (42, Some(Shift { book: 10, from: 3, to: Some(43), delta: -1 }))
    );
    assert_eq!(
        plan_move(10, 3, 1, Some(4)),
        (1, Some(Shift { book: 10, from: 1, to: Some(3), delta: 1 }))
    );
    assert_eq!(plan_move(10, 42, 999, Some(42)), (42, None));
    assert_eq!(plan_move(10, 5, 999, None), (5, None));
    assert_eq!(
        plan_move(10, 5, 2, None),
        (2, Some(Shift { book: 10, from: 2, to: Some(5), delta: 1 }))
    );
}

#[test]
fn the_step_of_an_update() {
    assert_eq!(step_for_update(true, false), UpdateStep::Write);
    assert_eq!(step_for_update(false, false), UpdateStep::Write);
    assert_eq!(step_for_update(true, true), UpdateStep::MoveThenWrite);
    assert_eq!(step_for_update(false, true), UpdateStep::Refuse);
}

#[test]
fn lookups() {
    let table = sample();
    assert_eq!(table.len(), 4);
    assert_eq!(table.position(3), Some(2));
    assert_eq!(table.position(9), None);
    assert_eq!(table.find(4), Some(&row(4, 10, 5)));
    assert_eq!(table.find(9), None);
    assert!(table.has_book(20));
    assert!(!table.has_book(30));
    assert_eq!(table.last_rank(10), Some(7));
    assert_eq!(table.last_rank(20), Some(3));
    assert_eq!(table.last_rank(30), None);
    assert_eq!(table.load(10), vec![row(1, 10, 3), row(3, 10, 7), row(4, 10, 5)]);
    assert_eq!(table.load(30), vec![]);
}

#[test]
fn a_rank_is_taken_by_another_fragment_of_the_book_only() {
    let table = sample();
    assert!(table.rank_taken(10, 3, 9));
    assert!(!table.rank_taken(10, 3, 1));
    assert!(table.rank_taken(20, 3, 1));
    assert!(!table.rank_taken(10, 4, 9));
    assert!(!table.rank_taken(30, 3, 9));
}

#[test]
fn a_ranged_update_counts_what_it_touches() {
    let mut table = sample();
    assert!(table.can_shift(10, 3, Some(7), 2));
    assert_eq!(table.shift(10, 3, Some(7), 2), Ok(2));
    assert_eq!(table.find(1).unwrap().rank, 5);
    assert_eq!(table.find(4).unwrap().rank, 7);
    assert_eq!(table.find(3).unwrap().rank, 7);
    assert_eq!(table.find(2).unwrap().rank, 3);
    assert!(!table.can_shift(10, 5, None, i32::MAX));
    assert_eq!(table.shift(10, 5, None, i32::MAX), Err(StoreError::StoreFailure));
    assert_eq!(table.find(1).unwrap().rank, 5);
}

#[test]
fn insert_replace_set_rank_and_remove() {
    let mut table = sample();
    assert_eq!(table.insert(row(3, 30, 1)), Err(StoreError::StoreFailure));
    assert_eq!(table.len(), 4);
    assert_eq!(table.replace(row(3, 30, 1)), Ok(1));
    assert_eq!(table.find(3), Some(&row(3, 30, 1)));
    assert_eq!(table.replace(row(9, 30, 1)), Err(StoreError::NotFound));
    assert_eq!(table.set_rank(3, 8), Ok(1));
    assert_eq!(table.find(3), Some(&row(3, 30, 8)));
    assert_eq!(table.set_rank(9, 8), Err(StoreError::NotFound));
    assert_eq!(table.remove(1), 1);
    assert_eq!(table.find(1), None);
    assert_eq!(table.remove(1), 0);
    assert_eq!(table.position(2), Some(0));
    assert_eq!(table.len(), 3);
}
