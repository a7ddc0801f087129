use chip8::display::{Block, Display};

#[test]
fn a_new_display_is_blank() {
    let display = Display::new();
    assert!(display.snapshot().iter().all(|cell| !cell));
    assert!(display.draw().is_empty());
}

#[test]
fn set_pixel_lights_the_cell() {
    let mut display = Display::new();
    assert!(!display.set_pixel(3, 2, true));
    assert!(display.pixel(3, 2));
    let grid = display.snapshot();
    for (cell, lit) in grid.iter().enumerate() {
        assert_eq!(*lit, cell == 2 * 64 + 3);
    }
}

#[test]
fn set_pixel_twice_restores_the_cell() {
    let mut display = Display::new();
    display.set_pixel(5, 5, true);
    let before = display.snapshot();
    let first = display.set_pixel(10, 20, true);
    let second = display.set_pixel(10, 20, true);
    assert!(!first);
    assert!(second);
    assert_eq!(display.snapshot(), before);
}

#[test]
fn set_pixel_twice_on_a_lit_cell() {
    let mut display = Display::new();
    display.set_pixel(10, 20, true);
    let before = display.snapshot();
    let first = display.set_pixel(10, 20, true);
    assert!(!display.pixel(10, 20));
    let second = display.set_pixel(10, 20, true);
    assert!(first);
    assert!(!second);
    assert_eq!(display.snapshot(), before);
}

#[test]
fn set_pixel_off_changes_nothing() {
    let mut display = Display::new();
    display.set_pixel(1, 1, true);
    let before = display.snapshot();
    assert!(!display.set_pixel(1, 1, false));
    assert!(!display.set_pixel(2, 2, false));
    assert_eq!(display.snapshot(), before);
}

#[test]
fn set_pixel_wraps_both_coordinates() {
    let mut display = Display::new();
    assert!(!display.set_pixel(64 + 3, 32 + 2, true));
    assert!(display.pixel(3, 2));
    assert!(display.set_pixel(3 + 128, 2 + 64, true));
    assert!(!display.pixel(3, 2));
    display.set_pixel(usize::MAX, usize::MAX, true);
    assert!(display.pixel(usize::MAX % 64, usize::MAX % 32));
}

#[test]
fn set_pixel_reaches_the_last_cell() {
    let mut display = Display::new();
    display.set_pixel(63, 31, true);
    assert!(display.snapshot()[2047]);
}

#[test]
fn clear_turns_every_cell_off() {
    let mut display = Display::new();
    for x in 0..64 {
        display.set_pixel(x, x % 32, true);
    }
    display.clear();
    assert!(display.snapshot().iter().all(|cell| !cell));
}

#[test]
fn draw_gives_one_block_per_lit_cell() {
    let mut display = Display::new();
    display.set_pixel(63, 31, true);
    display.set_pixel(1, 0, true);
    display.set_pixel(0, 2, true);
    assert_eq!(
        display.draw(),
        vec![
            Block { x: 10, y: 0, width: 10, height: 10 },
            Block { x: 0, y: 20, width: 10, height: 10 },
            Block { x: 630, y: 310, width: 10, height: 10 },
        ]
    );
}

#[test]
fn draw_of_a_full_screen() {
    let mut display = Display::new();
    for y in 0..32 {
        for x in 0..64 {
            display.set_pixel(x, y, true);
        }
    }
    let blocks = display.draw();
    assert_eq!(blocks.len(), 2048);
    assert_eq!(blocks[0], Block { x: 0, y: 0, width: 10, height: 10 });
    assert_eq!(blocks[64], Block { x: 0, y: 10, width: 10, height: 10 });
    assert_eq!(blocks[2047], Block { x: 630, y: 310, width: 10, height: 10 });
}

#[test]
fn changes_since_lists_the_cells_that_differ() {
    let mut display = Display::new();
    display.set_pixel(4, 0, true);
    display.set_pixel(5, 0, true);
    let earlier = display.snapshot();
    assert!(display.changes_since(&earlier).is_empty());
    display.set_pixel(63, 31, true);
    display.set_pixel(5, 0, true);
    display.set_pixel(0, 0, true);
    display.set_pixel(1, 1, true);
    display.set_pixel(1, 1, true);
    assert_eq!(display.changes_since(&earlier), vec![0, 5, 2047]);
    display.clear();
    assert_eq!(display.changes_since(&earlier), vec![4, 5]);
}
