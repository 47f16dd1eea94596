use tgx::error::DecodeError;
use tgx::image::Image;
use tgx::pixel::Rgb;

const BLACK: Rgb = Rgb { r: 0, g: 0, b: 0 };

#[test]
fn new_frame_is_empty() {
    let image = Image::new(7, 3);
    assert_eq!(image.width(), 7);
    assert_eq!(image.height(), 3);
    assert_eq!(image.pos(), 0);
    assert!(image.pixels().is_empty());
    assert_eq!(image.padding(), 7);
    assert!(!image.is_complete());
}

#[test]
fn new_frame_of_no_pixels_is_complete() {
    assert!(Image::new(0, 0).is_complete());
    assert!(Image::new(0, 9).is_complete());
    assert!(Image::new(9, 0).is_complete());
}

#[test]
fn add_repeat_appends_count_pixels() {
    let mut image = Image::new(5, 2);
    assert_eq!(image.add_repeat(3, 10, 20, 30), Ok(()));
    assert_eq!(image.pos(), 3);
    assert_eq!(image.pixels(), &vec![Rgb { r: 10, g: 20, b: 30 }; 3]);
    assert_eq!(image.width(), 5);
    assert_eq!(image.height(), 2);
}

#[test]
fn add_repeat_of_black_appends_black() {
    let mut image = Image::new(4, 1);
    assert_eq!(image.add_repeat(4, 0, 0, 0), Ok(()));
    assert_eq!(image.pixels(), &vec![BLACK; 4]);
    assert_eq!(image.pos(), 4);
}

#[test]
fn add_repeat_keeps_the_pixels_before_it() {
    let mut image = Image::new(4, 1);
    assert_eq!(image.add_repeat(1, 1, 2, 3), Ok(()));
    assert_eq!(image.add_repeat(2, 4, 5, 6), Ok(()));
    assert_eq!(
        image.pixels(),
        &vec![Rgb { r: 1, g: 2, b: 3 }, Rgb { r: 4, g: 5, b: 6 }, Rgb { r: 4, g: 5, b: 6 }]
    );
    assert_eq!(image.pos(), 3);
}

#[test]
fn add_repeat_of_zero_pixels_changes_nothing() {
    let mut image = Image::new(2, 1);
    assert_eq!(image.add_repeat(2, 1, 1, 1), Ok(()));
    assert_eq!(image.add_repeat(0, 9, 9, 9), Ok(()));
    assert_eq!(image.pos(), 2);
    assert_eq!(image.pixels().len(), 2);
}

#[test]
fn add_repeat_up_to_the_end_of_the_row_is_accepted() {
    let mut image = Image::new(3, 1);
    assert_eq!(image.add_repeat(3, 1, 1, 1), Ok(()));
    assert_eq!(image.pos(), 3);
    assert_eq!(image.padding(), 0);
}

#[test]
fn add_repeat_across_the_row_end_is_refused() {
    let mut image = Image::new(3, 2);
    assert_eq!(image.add_repeat(2, 1, 1, 1), Ok(()));
    assert_eq!(image.add_repeat(2, 7, 7, 7), Err(DecodeError::OpcodeOverrun));
    assert_eq!(image.pos(), 2);
    assert_eq!(image.pixels(), &vec![Rgb { r: 1, g: 1, b: 1 }; 2]);
}

#[test]
fn add_repeat_on_a_full_row_is_refused() {
    let mut image = Image::new(1, 2);
    assert_eq!(image.add_repeat(1, 1, 1, 1), Ok(()));
    assert_eq!(image.add_repeat(1, 1, 1, 1), Err(DecodeError::OpcodeOverrun));
    assert_eq!(image.pixels().len(), 1);
}

#[test]
fn add_repeat_into_a_frame_without_columns_is_refused() {
    let mut image = Image::new(0, 4);
    assert_eq!(image.add_repeat(1, 0, 0, 0), Err(DecodeError::OpcodeOverrun));
    assert!(image.pixels().is_empty());
}

#[test]
fn add_newline_pads_the_rest_of_the_row_with_black() {
    let mut image = Image::new(5, 2);
    assert_eq!(image.add_repeat(2, 9, 8, 7), Ok(()));
    image.add_newline();
    assert_eq!(image.pos(), 0);
    assert_eq!(
        image.pixels(),
        &vec![Rgb { r: 9, g: 8, b: 7 }, Rgb { r: 9, g: 8, b: 7 }, BLACK, BLACK, BLACK]
    );
}

#[test]
fn add_newline_on_an_empty_row_writes_a_black_row() {
    let mut image = Image::new(3, 2);
    image.add_newline();
    assert_eq!(image.pos(), 0);
    assert_eq!(image.pixels(), &vec![BLACK; 3]);
}

#[test]
fn add_newline_on_a_full_row_appends_nothing() {
    let mut image = Image::new(2, 2);
    assert_eq!(image.add_repeat(2, 5, 5, 5), Ok(()));
    image.add_newline();
    assert_eq!(image.pos(), 0);
    assert_eq!(image.pixels(), &vec![Rgb { r: 5, g: 5, b: 5 }; 2]);
}

#[test]
fn add_newline_opens_the_next_row() {
    let mut image = Image::new(2, 2);
    assert_eq!(image.add_repeat(2, 1, 1, 1), Ok(()));
    assert_eq!(image.add_repeat(1, 2, 2, 2), Err(DecodeError::OpcodeOverrun));
    image.add_newline();
    assert_eq!(image.add_repeat(1, 2, 2, 2), Ok(()));
    assert_eq!(image.pos(), 1);
    assert_eq!(image.pixels().len(), 3);
}

#[test]
fn add_newline_keeps_the_dimensions() {
    let mut image = Image::new(6, 4);
    image.add_newline();
    assert_eq!(image.width(), 6);
    assert_eq!(image.height(), 4);
}

#[test]
fn padding_is_width_minus_cursor() {
    let mut image = Image::new(10, 1);
    assert_eq!(image.add_repeat(4, 0, 0, 0), Ok(()));
    assert_eq!(image.padding(), 6);
}

#[test]
fn has_room_for_counts_against_width_times_height() {
    let mut image = Image::new(2, 2);
    assert!(image.has_room_for(4));
    assert!(!image.has_room_for(5));
    assert_eq!(image.add_repeat(2, 0, 0, 0), Ok(()));
    assert!(image.has_room_for(2));
    assert!(!image.has_room_for(3));
    image.add_newline();
    image.add_newline();
    assert!(image.has_room_for(0));
    assert!(!image.has_room_for(1));
    image.add_newline();
    assert!(!image.has_room_for(0));
}

#[test]
fn has_room_for_does_not_overflow_on_the_largest_grid() {
    let image = Image::new(u32::MAX, u32::MAX);
    assert!(image.has_room_for(u32::MAX));
    assert!(!image.is_complete());
}

#[test]
fn is_complete_when_width_times_height_pixels_are_held() {
    let mut image = Image::new(2, 2);
    assert_eq!(image.add_repeat(2, 0, 0, 0), Ok(()));
    image.add_newline();
    assert!(!image.is_complete());
    assert_eq!(image.add_repeat(2, 0, 0, 0), Ok(()));
    assert!(image.is_complete());
    image.add_newline();
    assert!(image.is_complete());
    image.add_newline();
    assert!(!image.is_complete());
}
