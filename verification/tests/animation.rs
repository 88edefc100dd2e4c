use pixel_punch::animation::{next_sprite_index, sprite_ranges};

#[test]
fn next_frame_steps_through_the_animation() {
    assert_eq!(next_sprite_index(3, [3, 6]), 4);
    assert_eq!(next_sprite_index(4, [3, 6]), 5);
    assert_eq!(next_sprite_index(5, [3, 6]), 6);
    assert_eq!(next_sprite_index(6, [3, 6]), 3);
}

#[test]
fn next_frame_from_outside_is_the_first() {
    assert_eq!(next_sprite_index(0, [3, 6]), 3);
    assert_eq!(next_sprite_index(2, [3, 6]), 3);
    assert_eq!(next_sprite_index(7, [3, 6]), 3);
    assert_eq!(next_sprite_index(usize::MAX, [3, 6]), 3);
    assert_eq!(next_sprite_index(5, [5, 5]), 5);
    assert_eq!(next_sprite_index(0, [0, 1]), 1);
    assert_eq!(next_sprite_index(1, [0, 1]), 0);
}

#[test]
fn ranges_lie_one_after_the_other() {
    assert_eq!(sprite_ranges(&vec![4, 1, 3]), vec![[0, 3], [4, 4], [5, 7]]);
    assert_eq!(sprite_ranges(&vec![1]), vec![[0, 0]]);
    assert_eq!(sprite_ranges(&Vec::new()), Vec::<[usize; 2]>::new());
}

#[test]
fn an_animation_without_frames_takes_no_room() {
    assert_eq!(sprite_ranges(&vec![2, 0, 2]), vec![[0, 1], [2, 1], [2, 3]]);
}
