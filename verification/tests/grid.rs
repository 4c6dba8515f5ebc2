use hex_island::hex::{HexagonGrid, HexagonTile, Palette};
use hex_island::input::{key_down, Key};
use hex_island::rendering::cpu_render_map;
use hex_island::terrain_generator::generate_island;

const GREEN: (u8, u8, u8, u8) = (0, 255, 0, 255);
const BLUE: (u8, u8, u8, u8) = (0, 0, 255, 255);
const RED: (u8, u8, u8, u8) = (255, 0, 0, 255);
const BLACK: (u8, u8, u8, u8) = (0, 0, 0, 255);

fn palette() -> Palette {
    Palette { land: GREEN, water: BLUE, clicked: RED, outside: BLACK }
}

fn bytes(colors: &[(u8, u8, u8, u8)]) -> Vec<u8> {
    let mut out = Vec::new();
    for c in colors {
        out.push(c.0);
        out.push(c.1);
        out.push(c.2);
        out.push(c.3);
    }
    out
}

fn grid_of(width: usize, height: usize, tiles: Vec<HexagonTile>) -> HexagonGrid {
    HexagonGrid { hexagons: tiles, width, height, seed: 0 }
}

use HexagonTile::{Clicked, Land, Water};

#[test]
fn new_grid_is_all_water() {
    let g = HexagonGrid::new(3, 2, Some(5));
    assert_eq!(g.width, 3);
    assert_eq!(g.height, 2);
    assert_eq!(g.seed, 5);
    assert_eq!(g.hexagons, vec![Water; 6]);
}

#[test]
fn new_grid_without_seed_has_seed_zero() {
    let g = HexagonGrid::new(2, 2, None);
    assert_eq!(g.seed, 0);
    assert_eq!(g.hexagons.len(), 4);
}

#[test]
fn new_grid_of_no_cells_is_empty() {
    let g = HexagonGrid::new(0, 5, Some(-3));
    assert!(g.hexagons.is_empty());
    assert_eq!(g.height, 5);
    assert_eq!(g.seed, -3);
}

#[test]
fn defaults() {
    assert_eq!(HexagonTile::default(), Water);
    let g = HexagonGrid::default();
    assert!(g.hexagons.is_empty());
    assert_eq!((g.width, g.height, g.seed), (0, 0, 0));
}

#[test]
fn tile_codes() {
    assert_eq!(Land.code(), 0);
    assert_eq!(Water.code(), 1);
    assert_eq!(Clicked.code(), 2);
}

#[test]
fn rgba8_colours_land_green_and_the_rest_blue() {
    let g = grid_of(3, 1, vec![Land, Water, Clicked]);
    assert_eq!(g.get_rgba8(&palette()), bytes(&[GREEN, BLUE, BLUE]));
}

#[test]
fn rgba8_ignores_tiles_past_the_map() {
    let g = grid_of(1, 1, vec![Water, Land]);
    assert_eq!(g.get_rgba8(&palette()), bytes(&[BLUE]));
}

#[test]
fn rgba8_of_new_grid() {
    let g = HexagonGrid::new(2, 2, None);
    let img = g.get_rgba8(&palette());
    assert_eq!(img.len(), 16);
    assert_eq!(img, bytes(&[BLUE, BLUE, BLUE, BLUE]));
}

#[test]
fn print_text_shows_codes_row_by_row() {
    let g = grid_of(2, 2, vec![Land, Water, Clicked, Water]);
    assert_eq!(g.print_text(), b"01\n21\n".to_vec());
}

#[test]
fn print_text_of_empty_rows() {
    let g = grid_of(0, 3, vec![]);
    assert_eq!(g.print_text(), b"\n\n\n".to_vec());
}

#[test]
fn get_reads_cells_and_refuses_off_map() {
    let g = grid_of(2, 2, vec![Land, Water, Clicked, Water]);
    assert_eq!(g.get(0, 0), Some(Land));
    assert_eq!(g.get(0, 1), Some(Clicked));
    assert_eq!(g.get(1, 1), Some(Water));
    assert_eq!(g.get(2, 0), None);
    assert_eq!(g.get(0, 2), None);
    assert_eq!(g.get(-1, 0), None);
    assert_eq!(g.get(0, -1), None);
}

#[test]
fn click_marks_one_tile() {
    let mut g = HexagonGrid::new(3, 2, None);
    g.mark_clicked(2, 1);
    assert_eq!(g.hexagons, vec![Water, Water, Water, Water, Water, Clicked]);
    assert_eq!(g.get(2, 1), Some(Clicked));
}

#[test]
fn click_off_the_stored_tiles_changes_nothing() {
    let mut g = HexagonGrid::new(3, 2, None);
    g.mark_clicked(0, 2);
    assert_eq!(g.hexagons, vec![Water; 6]);
}

#[test]
fn click_past_the_row_uses_the_storage_index() {
    let mut g = HexagonGrid::new(3, 2, None);
    g.mark_clicked(4, 0);
    assert_eq!(g.get(1, 1), Some(Clicked));
}

#[test]
fn click_twice_is_click_once() {
    let mut once = HexagonGrid::new(2, 2, None);
    once.mark_clicked(1, 0);
    let mut twice = HexagonGrid::new(2, 2, None);
    twice.mark_clicked(1, 0);
    twice.mark_clicked(1, 0);
    assert_eq!(once.hexagons, twice.hexagons);
}

#[test]
fn get_after_click_leaves_other_cells() {
    let mut g = grid_of(2, 2, vec![Land, Water, Land, Water]);
    g.mark_clicked(0, 1);
    assert_eq!(g.get(0, 1), Some(Clicked));
    assert_eq!(g.get(0, 0), Some(Land));
    assert_eq!(g.get(1, 0), Some(Water));
    assert_eq!(g.get(1, 1), Some(Water));
}

#[test]
fn island_follows_the_mask() {
    let mut g = HexagonGrid::new(3, 2, Some(1));
    generate_island(&mut g, &vec![true, false, true, false, false, true]);
    assert_eq!(g.hexagons, vec![Land, Water, Land, Water, Water, Land]);
    assert_eq!((g.width, g.height, g.seed), (3, 2, 1));
}

#[test]
fn island_clears_clicks_and_keeps_tiles_past_the_map() {
    let mut g = grid_of(1, 2, vec![Clicked, Clicked, Clicked]);
    generate_island(&mut g, &vec![false, true, true]);
    assert_eq!(g.hexagons, vec![Water, Land, Clicked]);
}

#[test]
fn regenerating_replaces_the_island() {
    let mut a = HexagonGrid::new(2, 2, None);
    generate_island(&mut a, &vec![true, true, false, false]);
    generate_island(&mut a, &vec![false, true, false, true]);
    let mut b = HexagonGrid::new(2, 2, None);
    generate_island(&mut b, &vec![false, true, false, true]);
    assert_eq!(a.hexagons, b.hexagons);
}

#[test]
fn cpu_render_colours_each_pixel_by_its_cell() {
    let g = grid_of(2, 2, vec![Land, Water, Clicked, Water]);
    let coords = vec![(0, 0), (1, 0), (0, 1), (1, 1), (2, 0), (-1, 1), (0, 5)];
    let img = cpu_render_map(&g, &coords, &palette());
    assert_eq!(img, bytes(&[GREEN, BLUE, RED, BLUE, BLACK, BLACK, BLACK]));
}

#[test]
fn cpu_render_of_no_pixels() {
    let g = HexagonGrid::new(2, 2, None);
    assert!(cpu_render_map(&g, &vec![], &palette()).is_empty());
}

#[test]
fn cpu_render_agrees_with_texture_on_land_and_water() {
    let g = grid_of(2, 2, vec![Land, Water, Water, Land]);
    let texture = g.get_rgba8(&palette());
    let coords = vec![(1, 1), (0, 0), (1, 0)];
    let img = cpu_render_map(&g, &coords, &palette());
    assert_eq!(&img[0..4], &texture[12..16]);
    assert_eq!(&img[4..8], &texture[0..4]);
    assert_eq!(&img[8..12], &texture[4..8]);
}

#[test]
fn key_presses() {
    let r = key_down(false, Key::C);
    assert!(r.cpu_rendering_enabled && !r.quit);
    let r = key_down(r.cpu_rendering_enabled, Key::C);
    assert!(!r.cpu_rendering_enabled && !r.quit);
    let r = key_down(true, Key::Escape);
    assert!(r.cpu_rendering_enabled && r.quit);
    let r = key_down(true, Key::Other);
    assert!(r.cpu_rendering_enabled && !r.quit);
}

#[test]
fn get_of_a_cell_without_a_stored_tile_is_none() {
    let g = grid_of(2, 2, vec![Land, Water, Clicked]);
    assert_eq!(g.get(0, 1), Some(Clicked));
    assert_eq!(g.get(1, 1), None);
}

#[test]
fn cpu_render_of_a_short_grid_draws_missing_cells_outside() {
    let g = grid_of(2, 2, vec![Land]);
    let img = cpu_render_map(&g, &vec![(0, 0), (1, 1)], &palette());
    assert_eq!(img, bytes(&[GREEN, BLACK]));
}

#[test]
fn cpu_render_of_fewer_rows_is_a_prefix() {
    let g = grid_of(2, 2, vec![Land, Water, Clicked, Water]);
    let tall = vec![(0, 0), (1, 0), (0, 1), (1, 1), (0, 2), (1, 2)];
    let short: Vec<(i64, i64)> = tall[0..4].to_vec();
    let big = cpu_render_map(&g, &tall, &palette());
    let small = cpu_render_map(&g, &short, &palette());
    assert_eq!(&big[0..16], &small[..]);
}

#[test]
fn island_does_not_depend_on_previous_tiles() {
    let mask = vec![true, false, false, true];
    let mut a = grid_of(2, 2, vec![Clicked, Clicked, Land, Water]);
    let mut b = HexagonGrid::new(2, 2, None);
    generate_island(&mut a, &mask);
    generate_island(&mut b, &mask);
    assert_eq!(a.hexagons, b.hexagons);
    generate_island(&mut b, &mask);
    assert_eq!(a.hexagons, b.hexagons);
    assert_eq!(b.hexagons.len(), b.width * b.height);
}
