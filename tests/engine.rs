use doomfire::event::Message;
use doomfire::fire::{decayed_intensity, wind_index, DoomFire};
use doomfire::grid::grid_cells;
use doomfire::palette::{color_of, palette, Rgb};

fn small_fire() -> DoomFire {
    let mut f = DoomFire::new(3, 3, 3);
    f.seed();
    f
}

#[test]
fn palette_has_every_intensity() {
    let p = palette();
    assert_eq!(p.len(), 37);
    for i in 0..37u8 {
        assert_eq!(p[i as usize], color_of(i));
    }
}

#[test]
fn palette_ends_dark_and_white() {
    assert_eq!(color_of(0), Rgb { r: 7, g: 7, b: 7 });
    assert_eq!(color_of(36), Rgb { r: 255, g: 255, b: 255 });
    assert_eq!(color_of(21), Rgb { r: 207, g: 135, b: 23 });
    assert_eq!(color_of(22), Rgb { r: 199, g: 135, b: 23 });
    assert_eq!(color_of(35), Rgb { r: 239, g: 239, b: 199 });
    let dark = color_of(0);
    for i in 0..37u8 {
        let c = color_of(i);
        let sum = c.r as u32 + c.g as u32 + c.b as u32;
        assert!(sum >= dark.r as u32 + dark.g as u32 + dark.b as u32);
    }
}

#[test]
fn grid_cells_counts() {
    assert_eq!(grid_cells(3, 3, 3), Some(4));
    assert_eq!(grid_cells(800, 600, 12), Some(67 * 51));
    assert_eq!(grid_cells(0, 0, 5), Some(1));
    assert_eq!(grid_cells(800, 600, 0), None);
    assert_eq!(grid_cells(u32::MAX, u32::MAX, 1), None);
    assert_eq!(grid_cells(70000, 70000, 1), None);
}

#[test]
fn new_grid_is_cold() {
    let f = DoomFire::new(800, 600, 12);
    assert_eq!(f.dimensions(), (67, 51));
    assert_eq!(f.fire.len(), 67 * 51);
    assert!(f.fire.iter().all(|&v| v == 0));
    assert!(!f.debug);
}

#[test]
fn seed_gives_bottom_row_source() {
    let f = small_fire();
    assert_eq!(f.dimensions(), (2, 2));
    assert_eq!(f.fire, vec![0, 0, 36, 36]);
}

#[test]
fn seed_ignores_prior_state() {
    let mut f = DoomFire::new(20, 10, 4);
    f.seed();
    let first = f.fire.clone();
    f.step();
    f.step();
    f.seed();
    assert_eq!(f.fire, first);
    f.seed();
    assert_eq!(f.fire, first);
    let (cols, rows) = f.dimensions();
    for row in 0..rows {
        for col in 0..cols {
            let expected = if row == rows - 1 { 36 } else { 0 };
            assert_eq!(f.intensity_at(col, row), expected);
        }
    }
}

#[test]
fn step_with_unit_decay_two_by_two() {
    let mut f = small_fire();
    f.step_with(&vec![1, 1, 1, 1]);
    assert_eq!(f.fire, vec![35, 0, 36, 36]);
}

#[test]
fn step_with_zero_decay_copies_upward() {
    let mut f = DoomFire::new(6, 6, 2);
    f.seed();
    let n = f.fire.len();
    assert_eq!(f.dimensions(), (4, 4));
    f.step_with(&vec![0; n]);
    // Rows are scanned top down, so only the row just above the source has
    // a hot cell below it when it is read.
    assert_eq!(f.fire[..8], [0; 8]);
    assert_eq!(f.fire[8..], [36; 8]);
}

#[test]
fn step_with_drift_reads_updated_cells() {
    let mut f = DoomFire::new(2, 3, 1);
    f.seed();
    assert_eq!(f.dimensions(), (3, 4));
    let draws = vec![0, 0, 0, 0, 0, 0, 2, 1, 0, 0, 0, 0];
    f.step_with(&draws);
    // Row 2 cells write to index 6 - 2 = 4, 7 - 1 = 6 and 8.
    assert_eq!(f.fire, vec![0, 0, 0, 0, 34, 0, 35, 0, 36, 36, 36, 36]);
    // Each cell writes one to its left, so in the second pass a cell can
    // overwrite the target of the cell before it.
    f.step_with(&vec![1; 12]);
    assert_eq!(f.fire, vec![33, 0, 34, 0, 35, 35, 35, 35, 36, 36, 36, 36]);
}

#[test]
fn step_never_heats_and_keeps_source() {
    let mut f = DoomFire::new(40, 30, 5);
    f.seed();
    let (cols, rows) = f.dimensions();
    for _ in 0..20 {
        let before = f.fire.clone();
        f.step();
        assert!(f.fire.iter().all(|&v| v <= 36));
        let bottom = ((rows - 1) * cols) as usize;
        assert_eq!(f.fire[bottom..], before[bottom..]);
    }
}

#[test]
fn random_step_draws_small_decays() {
    let mut f = small_fire();
    f.step();
    assert_eq!(f.fire[2..], [36, 36]);
    assert!(f.fire[0] >= 34 && f.fire[0] <= 36);
    assert!(f.fire[1] == 0 || f.fire[1] >= 34);
    let mut g = DoomFire::new(100, 0, 1);
    g.seed();
    g.step();
    assert!(g.fire[..101].iter().all(|&v| v >= 34));
    assert!(g.fire[..101].iter().any(|&v| v < 36) || g.fire[..101].iter().all(|&v| v == 36));
}

#[test]
fn decay_clamps_at_zero() {
    assert_eq!(decayed_intensity(0, 0), 0);
    assert_eq!(decayed_intensity(0, 2), 0);
    assert_eq!(decayed_intensity(1, 2), 0);
    assert_eq!(decayed_intensity(36, 2), 34);
    assert_eq!(decayed_intensity(36, 0), 36);
}

#[test]
fn wind_never_goes_before_start() {
    assert_eq!(wind_index(0, 2), 0);
    assert_eq!(wind_index(1, 2), 1);
    assert_eq!(wind_index(2, 2), 0);
    assert_eq!(wind_index(5, 1), 4);
    assert_eq!(wind_index(5, 0), 5);
}

#[test]
fn resize_leaves_every_cell_cold() {
    let mut f = small_fire();
    f.step();
    f.resize(30, 20, 4);
    assert_eq!(f.dimensions(), (8, 6));
    for row in 0..6 {
        for col in 0..8 {
            assert_eq!(f.intensity_at(col, row), 0);
        }
    }
    f.resize(3, 3, 3);
    assert_eq!(f.fire, vec![0, 0, 0, 0]);
}

#[test]
fn colors_and_positions_of_cells() {
    let f = small_fire();
    assert_eq!(f.color_at(0, 0), Rgb { r: 7, g: 7, b: 7 });
    assert_eq!(f.color_at(1, 1), Rgb { r: 255, g: 255, b: 255 });
    assert_eq!(f.cell_position(1, 1), (3, 3));
    let g = DoomFire::new(800, 600, 12);
    assert_eq!(g.cell_position(66, 50), (792, 600));
}

#[test]
fn default_is_empty_with_palette() {
    let f = DoomFire::default();
    assert!(f.fire.is_empty());
    assert_eq!(f.pixel_size, 0);
    assert_eq!(f.size, (0, 0));
    assert_eq!(f.color_palettes, palette());
}

#[test]
fn update_tick_steps() {
    let mut f = small_fire();
    assert!(f.update(Message::Tick));
    assert_eq!(f.fire[2..], [36, 36]);
    assert!(f.fire[0] >= 34);
}

#[test]
fn update_resize_reseeds_and_steps() {
    let mut f = small_fire();
    assert!(f.update(Message::Resized { width: 10, height: 9 }));
    assert_eq!(f.size, (10, 9));
    assert_eq!(f.dimensions(), (4, 4));
    assert_eq!(f.fire[12..], [36, 36, 36, 36]);
    assert!(f.fire[8..12].iter().all(|&v| v >= 34 || v == 0));
    assert!(f.fire[..4].iter().all(|&v| v == 0));
}

#[test]
fn update_debug_toggles() {
    let mut f = small_fire();
    assert!(f.update(Message::ToggleDebug));
    assert!(f.debug);
    assert_eq!(f.fire, vec![0, 0, 36, 36]);
    assert!(f.update(Message::ToggleDebug));
    assert!(!f.debug);
}

#[test]
fn update_cell_size_keys() {
    let mut f = DoomFire::new(4, 4, 3);
    f.seed();
    assert!(f.update(Message::GrowCells));
    assert_eq!(f.pixel_size, 4);
    assert_eq!(f.dimensions(), (2, 2));
    assert!(!f.update(Message::GrowCells));
    assert_eq!(f.pixel_size, 4);
    assert!(f.update(Message::ShrinkCells));
    assert_eq!(f.pixel_size, 3);
    let mut g = DoomFire::new(4, 4, 1);
    g.seed();
    let before = g.fire.clone();
    assert!(!g.update(Message::ShrinkCells));
    assert_eq!(g.pixel_size, 1);
    assert_eq!(g.fire, before);
}
