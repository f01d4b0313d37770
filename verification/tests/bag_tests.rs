use std::collections::HashMap;

use tetris_engine::Bag;

#[test]
fn bag_emptying() {
    let mut my_bag = Bag::new(7);
    assert!(my_bag.empty(), "bag should start out empty");
    for _ in 0..7 {
        my_bag.draw();
    }
    assert!(
        my_bag.empty(),
        "Bag should be empty after drawing size times"
    );
}

#[test]
fn bag_drawing() {
    let mut my_bag = Bag::new(21);
    let mut piece_counts = HashMap::new();
    for _ in 0..21 {
        *(piece_counts.entry(my_bag.draw()).or_insert(0)) += 1;
    }

    for (_, count) in piece_counts {
        assert!(
            count == 3,
            "Every piece should be seen exactly thrice when drawing 21 pieces from a 21 sized bag"
        );
    }
}

#[test]
fn bag_refills_on_first_draw() {
    let mut my_bag = Bag::new(7);
    assert!(my_bag.empty());
    assert_eq!(7, my_bag.size());
    let _ = my_bag.draw();
    assert!(
        !my_bag.empty(),
        "The first draw should refill the bag before yielding a piece"
    );
}

#[test]
fn bag_rounds_shares_up() {
    // 10 is not a multiple of 7: every kind gets 2 copies, so one fill
    // holds 14 pieces and every kind is drawn exactly twice per cycle.
    let mut my_bag = Bag::new(10);
    let mut piece_counts = HashMap::new();
    let mut draws = 0;
    loop {
        piece_counts.entry(my_bag.draw()).and_modify(|c| *c += 1).or_insert(1);
        draws += 1;
        if my_bag.empty() {
            break;
        }
    }
    assert_eq!(14, draws);
    assert_eq!(7, piece_counts.len());
    for (_, count) in piece_counts {
        assert_eq!(2, count);
    }
}

#[test]
fn bag_cycles_repeat_fairly() {
    let mut my_bag = Bag::new(7);
    for _ in 0..3 {
        let mut piece_counts = HashMap::new();
        for _ in 0..7 {
            *(piece_counts.entry(my_bag.draw()).or_insert(0)) += 1;
        }
        assert!(my_bag.empty());
        assert_eq!(7, piece_counts.len());
        for (_, count) in piece_counts {
            assert_eq!(1, count);
        }
    }
}
