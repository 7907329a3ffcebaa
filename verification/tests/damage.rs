use std::collections::VecDeque;

use simple_wrapper::damage::{
    can_merge_damage, damage_for_buffer, merge_damage, output_damage, window_damage, KEPT_FRAMES,
};
use simple_wrapper::geometry::{Point, Rectangle, Size};

fn rect(x: i32, y: i32, w: i32, h: i32) -> Rectangle {
    Rectangle {
        loc: Point { x, y },
        size: Size { w, h },
    }
}

#[test]
fn overlapping_damage_is_merged() {
    let damage = vec![rect(0, 0, 10, 10), rect(50, 50, 5, 5), rect(5, 5, 10, 10)];
    assert_eq!(
        merge_damage(&damage),
        vec![rect(50, 50, 5, 5), rect(0, 0, 15, 15)]
    );
}

#[test]
fn touching_damage_is_merged() {
    assert_eq!(
        merge_damage(&vec![rect(0, 0, 10, 10), rect(10, 0, 10, 10)]),
        vec![rect(0, 0, 20, 10)]
    );
    assert_eq!(
        merge_damage(&vec![rect(0, 0, 10, 10), rect(11, 0, 10, 10)]),
        vec![rect(0, 0, 10, 10), rect(11, 0, 10, 10)]
    );
}

#[test]
fn one_rectangle_can_take_up_several() {
    let damage = vec![rect(0, 0, 4, 4), rect(20, 0, 4, 4), rect(2, 2, 20, 1)];
    assert_eq!(merge_damage(&damage), vec![rect(0, 0, 24, 4)]);
}

#[test]
fn a_merged_rectangle_is_not_merged_again() {
    // the second and third rectangle are merged into one that overlaps the first
    let damage = vec![rect(10, 10, 2, 2), rect(0, 0, 4, 20), rect(4, 16, 16, 4)];
    assert_eq!(
        merge_damage(&damage),
        vec![rect(10, 10, 2, 2), rect(0, 0, 20, 20)]
    );
}

#[test]
fn damage_too_far_apart_cannot_be_merged() {
    let damage = vec![
        rect(i32::MIN, 0, i32::MAX, 1),
        rect(-1, 0, i32::MAX, 1),
    ];
    assert!(!can_merge_damage(&damage));
    assert!(can_merge_damage(&vec![rect(0, 0, 1, 1), rect(1, 1, 1, 1)]));
    assert!(can_merge_damage(&vec![]));
}

#[test]
fn output_damage_is_cleaned_up() {
    let windows = vec![
        vec![rect(0, 0, 5, 5), rect(0, 0, 5, 5), rect(0, 0, 0, 5)],
        vec![rect(200, 0, 5, 5), rect(7, 7, 3, 3)],
        vec![rect(0, 0, 5, 5)],
    ];
    assert_eq!(
        output_damage(&windows, rect(0, 0, 100, 100)),
        vec![rect(0, 0, 5, 5), rect(7, 7, 3, 3), rect(0, 0, 5, 5)]
    );
}

#[test]
fn damage_at_the_edge_of_the_output_is_kept() {
    let windows = vec![vec![rect(100, 0, 5, 5), rect(101, 0, 5, 5)]];
    assert_eq!(
        output_damage(&windows, rect(0, 0, 100, 100)),
        vec![rect(100, 0, 5, 5)]
    );
}

#[test]
fn window_damage_is_clipped_to_the_window() {
    let damage = vec![
        rect(0, 0, 10, 10),
        rect(0, 0, 10, 20),
        rect(90, 90, 5, 5),
        rect(-5, -5, 8, 8),
    ];
    assert_eq!(
        window_damage(&damage, rect(0, 0, 10, 10)),
        vec![rect(0, 0, 10, 10), rect(0, 0, 3, 3)]
    );
    assert_eq!(window_damage(&damage, rect(50, 50, 10, 10)), vec![]);
}

#[test]
fn unknown_or_old_buffers_are_given_nothing() {
    let mut kept: VecDeque<Vec<Rectangle>> = VecDeque::new();
    let frame = vec![rect(0, 0, 1, 1)];
    assert_eq!(damage_for_buffer(frame.clone(), &mut kept, Some(1)), vec![]);
    assert_eq!(damage_for_buffer(frame.clone(), &mut kept, None), vec![]);
    assert_eq!(damage_for_buffer(frame.clone(), &mut kept, Some(0)), vec![]);
    assert_eq!(damage_for_buffer(frame.clone(), &mut kept, Some(-1)), vec![]);
    assert_eq!(damage_for_buffer(frame.clone(), &mut kept, Some(5)), vec![]);
    assert_eq!(kept.len(), 4);
}

#[test]
fn buffers_are_given_the_damage_since_they_were_drawn() {
    let mut kept: VecDeque<Vec<Rectangle>> = VecDeque::new();
    for i in 1..=3 {
        damage_for_buffer(vec![rect(i, i, 1, 1)], &mut kept, None);
    }
    assert_eq!(
        damage_for_buffer(vec![rect(4, 4, 1, 1), rect(5, 5, 1, 1)], &mut kept, Some(1)),
        vec![rect(4, 4, 1, 1), rect(5, 5, 1, 1)]
    );
    assert_eq!(
        damage_for_buffer(vec![rect(6, 6, 1, 1)], &mut kept, Some(3)),
        vec![rect(6, 6, 1, 1), rect(4, 4, 1, 1), rect(5, 5, 1, 1), rect(3, 3, 1, 1)]
    );
    assert_eq!(
        damage_for_buffer(vec![], &mut kept, Some(4)),
        vec![rect(6, 6, 1, 1), rect(4, 4, 1, 1), rect(5, 5, 1, 1), rect(3, 3, 1, 1)]
    );
}

#[test]
fn the_last_frames_are_kept_newest_first() {
    let mut kept: VecDeque<Vec<Rectangle>> = VecDeque::new();
    for i in 0..6 {
        damage_for_buffer(vec![rect(i, 0, 1, 1)], &mut kept, None);
    }
    assert_eq!(kept.len(), KEPT_FRAMES);
    for i in 0..4 {
        assert_eq!(kept[i], vec![rect(5 - i as i32, 0, 1, 1)]);
    }
}
