use falling_sand::grid::Grid;
use falling_sand::particle::{Particle, ParticleData, ParticleType, starting_particle_list};
use falling_sand::sim::{
    GameState, calc_next_system, mouse_click_system, move_next_system, place_particle, tick,
};

fn solid() -> ParticleData {
    ParticleData { density: 260000, particle_type: ParticleType::Solid, material: 2 }
}

fn liquid() -> ParticleData {
    ParticleData { density: 100000, particle_type: ParticleType::Liquid, material: 0 }
}

fn gas() -> ParticleData {
    ParticleData { density: 59, particle_type: ParticleType::Gas, material: 3 }
}

/// The occupancy invariant, checked on concrete state: every live instance
/// matches the grid at its pending location, and no two live instances
/// share a location.
fn assert_occupancy(grid: &Grid, particles: &Vec<Particle>) {
    for (i, p) in particles.iter().enumerate() {
        if p.alive {
            let loc = p.locations.new_location;
            assert_eq!(grid.get(loc.x, loc.y), p.data.density);
            for q in particles.iter().skip(i + 1) {
                if q.alive {
                    assert_ne!(loc, q.locations.new_location);
                }
            }
        }
    }
}

#[test]
fn placement_round_trip() {
    let mut grid = Grid::new(10, 10);
    let mut particles: Vec<Particle> = Vec::new();
    let placed = place_particle(&mut grid, &mut particles, solid(), 3, 4);
    assert!(placed);
    assert_eq!(grid.get(3, 4), 260000);
    assert_eq!(particles.len(), 1);
    let p = &particles[0];
    assert!(p.alive);
    assert_eq!(p.data, solid());
    assert_eq!((p.locations.new_location.x, p.locations.new_location.y), (3, 4));
    assert_eq!(p.locations.old_location, p.locations.new_location);
}

#[test]
fn placement_on_occupied_cell_is_a_silent_noop() {
    let mut grid = Grid::new(10, 10);
    let mut particles: Vec<Particle> = Vec::new();
    assert!(place_particle(&mut grid, &mut particles, solid(), 3, 4));
    let placed = place_particle(&mut grid, &mut particles, liquid(), 3, 4);
    assert!(!placed);
    assert_eq!(particles.len(), 1);
    assert_eq!(grid.get(3, 4), 260000);
}

#[test]
fn solid_moves_straight_down_not_diagonally() {
    // Straight-down, diagonal-left and diagonal-right are all empty: the
    // first offset in the solid's list wins.
    let mut grid = Grid::new(10, 10);
    let mut particles: Vec<Particle> = Vec::new();
    place_particle(&mut grid, &mut particles, solid(), 5, 5);
    tick(&mut grid, &mut particles);
    assert_eq!(grid.get(5, 5), 0);
    assert_eq!(grid.get(5, 4), 260000);
    assert_eq!(grid.get(4, 4), 0);
    assert_eq!(grid.get(6, 4), 0);
    let loc = particles[0].locations.new_location;
    assert_eq!((loc.x, loc.y), (5, 4));
    assert_occupancy(&grid, &particles);
}

#[test]
fn two_phase_tick_commits_resolved_location_separately() {
    let mut grid = Grid::new(10, 10);
    let mut particles: Vec<Particle> = Vec::new();
    place_particle(&mut grid, &mut particles, solid(), 5, 5);
    calc_next_system(&mut grid, &mut particles);
    // The movement-decision phase updates only the pending location.
    assert_eq!((particles[0].locations.old_location.x, particles[0].locations.old_location.y), (5, 5));
    assert_eq!((particles[0].locations.new_location.x, particles[0].locations.new_location.y), (5, 4));
    move_next_system(&mut particles);
    // The commit phase resolves it.
    assert_eq!(particles[0].locations.old_location, particles[0].locations.new_location);
    assert_eq!((particles[0].locations.old_location.x, particles[0].locations.old_location.y), (5, 4));
}

#[test]
fn denser_particle_displaces_strictly_lighter_occupant() {
    let mut grid = Grid::new(10, 10);
    let mut particles: Vec<Particle> = Vec::new();
    place_particle(&mut grid, &mut particles, solid(), 5, 1);
    place_particle(&mut grid, &mut particles, liquid(), 5, 0);
    tick(&mut grid, &mut particles);
    // The solid takes the liquid's cell; the displaced liquid instance is
    // destroyed.
    assert_eq!(grid.get(5, 1), 0);
    assert_eq!(grid.get(5, 0), 260000);
    assert!(particles[0].alive);
    assert_eq!((particles[0].locations.new_location.x, particles[0].locations.new_location.y), (5, 0));
    assert!(!particles[1].alive);
    assert_occupancy(&grid, &particles);
}

#[test]
fn equal_density_target_blocks_the_move() {
    let mut grid = Grid::new(10, 10);
    let mut particles: Vec<Particle> = Vec::new();
    // Solids on the bottom row cannot move at all: every offset of the
    // solid list leaves the grid.
    place_particle(&mut grid, &mut particles, solid(), 4, 0);
    place_particle(&mut grid, &mut particles, solid(), 5, 0);
    place_particle(&mut grid, &mut particles, solid(), 6, 0);
    // All three candidates of this solid hold equal-density occupants.
    place_particle(&mut grid, &mut particles, solid(), 5, 1);
    tick(&mut grid, &mut particles);
    let loc = particles[3].locations.new_location;
    assert_eq!((loc.x, loc.y), (5, 1));
    assert_eq!(grid.get(5, 1), 260000);
    assert_eq!(grid.get(4, 0), 260000);
    assert_eq!(grid.get(5, 0), 260000);
    assert_eq!(grid.get(6, 0), 260000);
    assert_occupancy(&grid, &particles);
}

#[test]
fn grid_10x10_solid_at_5_5_falls_to_5_4_after_one_tick() {
    // Placement goes through the pointer path: the window center maps to
    // cell (5, 5) with a 10 x 10 grid and cell size 30.
    let gs = GameState::new(10, 10, 30);
    let list = starting_particle_list();
    let mut grid = Grid::new(10, 10);
    let mut particles: Vec<Particle> = Vec::new();
    // The startup selection index 2 is the solid kind, density 2.6 units.
    mouse_click_system(true, Some((0, 0)), &gs, &list, &mut grid, &mut particles);
    assert_eq!(grid.get(5, 5), 260000);
    tick(&mut grid, &mut particles);
    assert_eq!(grid.get(5, 5), 0);
    assert_eq!(grid.get(5, 4), 260000);
}

#[test]
fn gas_rises_straight_up() {
    let mut grid = Grid::new(10, 10);
    let mut particles: Vec<Particle> = Vec::new();
    place_particle(&mut grid, &mut particles, gas(), 5, 5);
    tick(&mut grid, &mut particles);
    assert_eq!(grid.get(5, 5), 0);
    assert_eq!(grid.get(5, 6), 59);
    assert_occupancy(&grid, &particles);
}

#[test]
fn gas_cannot_displace_denser_matter_above() {
    // Grid 10 x 10, a gas particle at (5, 5), denser liquid matter in every
    // cell of the gas rule set: straight-up (5, 6) as well as the diagonal
    // and horizontal candidates.  The gas cannot displace denser matter
    // moving up, so it stays at (5, 5).
    let mut grid = Grid::new(10, 10);
    let mut particles: Vec<Particle> = Vec::new();
    place_particle(&mut grid, &mut particles, gas(), 5, 5);
    grid.set(5, 6, 100000);
    grid.set(4, 6, 100000);
    grid.set(6, 6, 100000);
    grid.set(4, 5, 100000);
    grid.set(6, 5, 100000);
    tick(&mut grid, &mut particles);
    let loc = particles[0].locations.new_location;
    assert_eq!((loc.x, loc.y), (5, 5));
    assert_eq!(grid.get(5, 5), 59);
    assert_eq!(grid.get(5, 6), 100000);
}

#[test]
fn gas_blocked_straight_up_tries_the_diagonal_next() {
    // With only the straight-up cell occupied by denser matter, the next
    // offset in the gas list is up-left.
    let mut grid = Grid::new(10, 10);
    let mut particles: Vec<Particle> = Vec::new();
    place_particle(&mut grid, &mut particles, gas(), 5, 5);
    grid.set(5, 6, 100000);
    tick(&mut grid, &mut particles);
    let loc = particles[0].locations.new_location;
    assert_eq!((loc.x, loc.y), (4, 6));
    assert_eq!(grid.get(5, 5), 0);
    assert_eq!(grid.get(4, 6), 59);
}

#[test]
fn liquid_on_the_floor_spreads_left_first() {
    let mut grid = Grid::new(10, 10);
    let mut particles: Vec<Particle> = Vec::new();
    place_particle(&mut grid, &mut particles, liquid(), 5, 0);
    tick(&mut grid, &mut particles);
    let loc = particles[0].locations.new_location;
    assert_eq!((loc.x, loc.y), (4, 0));
    assert_eq!(grid.get(4, 0), 100000);
    assert_eq!(grid.get(5, 0), 0);
}

#[test]
fn occupancy_holds_after_a_mixed_run() {
    let mut grid = Grid::new(12, 12);
    let mut particles: Vec<Particle> = Vec::new();
    place_particle(&mut grid, &mut particles, liquid(), 3, 6);
    place_particle(&mut grid, &mut particles, solid(), 3, 8);
    place_particle(&mut grid, &mut particles, gas(), 6, 2);
    place_particle(&mut grid, &mut particles, solid(), 6, 4);
    assert_occupancy(&grid, &particles);
    for _ in 0..8 {
        tick(&mut grid, &mut particles);
        assert_occupancy(&grid, &particles);
        place_particle(&mut grid, &mut particles, liquid(), 3, 9);
        assert_occupancy(&grid, &particles);
    }
}

#[test]
fn brush_size_repeats_the_same_cell_so_only_the_first_attempt_places() {
    let mut gs = GameState::new(10, 10, 30);
    gs.brush_size = 5;
    let list = starting_particle_list();
    let mut grid = Grid::new(10, 10);
    let mut particles: Vec<Particle> = Vec::new();
    mouse_click_system(true, Some((0, 0)), &gs, &list, &mut grid, &mut particles);
    assert_eq!(particles.len(), 1);
    assert_eq!(grid.get(5, 5), 260000);
}

#[test]
fn unpressed_trigger_places_nothing() {
    let gs = GameState::new(10, 10, 30);
    let list = starting_particle_list();
    let mut grid = Grid::new(10, 10);
    let mut particles: Vec<Particle> = Vec::new();
    mouse_click_system(false, Some((0, 0)), &gs, &list, &mut grid, &mut particles);
    assert!(particles.is_empty());
    assert_eq!(grid.get(5, 5), 0);
}

#[test]
fn missing_pointer_places_nothing() {
    let gs = GameState::new(10, 10, 30);
    let list = starting_particle_list();
    let mut grid = Grid::new(10, 10);
    let mut particles: Vec<Particle> = Vec::new();
    mouse_click_system(true, None, &gs, &list, &mut grid, &mut particles);
    assert!(particles.is_empty());
}

#[test]
fn far_pointer_paints_a_boundary_cell() {
    let gs = GameState::new(10, 10, 30);
    let list = starting_particle_list();
    let mut grid = Grid::new(10, 10);
    let mut particles: Vec<Particle> = Vec::new();
    mouse_click_system(true, Some((5_000_000, 5_000_000)), &gs, &list, &mut grid, &mut particles);
    assert_eq!(particles.len(), 1);
    assert_eq!(grid.get(9, 9), 260000);
}

#[test]
fn starting_catalog_matches_the_startup_kinds() {
    let list = starting_particle_list();
    assert_eq!(list.0.len(), 4);
    assert_eq!(list.0[0].density, 100000);
    assert_eq!(list.0[0].particle_type, ParticleType::Liquid);
    assert_eq!(list.0[1].density, 88100);
    assert_eq!(list.0[1].particle_type, ParticleType::Liquid);
    assert_eq!(list.0[2].density, 260000);
    assert_eq!(list.0[2].particle_type, ParticleType::Solid);
    assert_eq!(list.0[3].density, 59);
    assert_eq!(list.0[3].particle_type, ParticleType::Gas);
}

#[test]
fn game_state_starts_running_with_unit_brush() {
    let gs = GameState::new(60, 30, 30);
    assert!(!gs.game_paused);
    assert!(!gs.game_step);
    assert_eq!(gs.brush_size, 1);
    assert_eq!(gs.selected_particle, 2);
    assert_eq!(gs.grid_width, 60);
    assert_eq!(gs.grid_height, 30);
    assert_eq!(gs.grid_step, 30);
}

#[test]
fn checked_get_reports_out_of_bounds() {
    let mut grid = Grid::new(10, 10);
    grid.set(9, 9, 77);
    assert_eq!(grid.checked_get(9, 9), Some(77));
    assert_eq!(grid.checked_get(10, 9), None);
    assert_eq!(grid.checked_get(9, 10), None);
    assert_eq!(grid.checked_get(0, 0), Some(0));
}
