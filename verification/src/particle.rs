//! Particle kinds, the startup catalog, and per-instance state.
//!
//! Densities are fixed-point integers in hundred-thousandths of the display
//! unit, so that the density order the displacement rule compares is exact.
//! A density of `0` is reserved for the empty cell marker of the grid store.

use vstd::prelude::*;

verus! {

/// One density display unit, in the fixed-point encoding of this crate.
pub const DENSITY_SCALE: u64 = 100000;

/// The movement class of a particle kind: it selects the ordered list of
/// neighbor offsets a particle tries on each tick.
#[derive(Debug, Hash, PartialEq, Eq, Structural, Clone, Copy)]
pub enum ParticleType {
    Solid,
    Liquid,
    Gas,
}

/// A grid cell coordinate.
#[derive(Debug, Hash, PartialEq, Eq, Structural, Clone, Copy)]
pub struct GridPos {
    pub x: usize,
    pub y: usize,
}

/// One immutable particle kind record: its density (positive, fixed-point),
/// its movement class, and a visual tag for the renderer's material choice.
#[derive(Debug, Hash, PartialEq, Eq, Structural, Clone, Copy)]
pub struct ParticleData {
    pub density: u64,
    pub particle_type: ParticleType,
    pub material: u32,
}

impl ParticleData {
    /// A kind is well formed when its density is positive, so an occupied
    /// cell can never be mistaken for an empty one.
    pub open spec fn wf(&self) -> bool {
        self.density > 0
    }
}

/// The ordered particle catalog, populated once at startup and read-only
/// thereafter.
pub struct ParticleList(pub Vec<ParticleData>);

impl ParticleList {
    /// Every kind in the catalog is well formed.
    pub open spec fn wf(&self) -> bool {
        forall|i: int| 0 <= i < self.0@.len() ==> (#[trigger] self.0@[i]).wf()
    }
}

/// The location pair of a placed particle: the resolved location the renderer
/// reads (`old_location`) and the pending location computed during the
/// movement-decision pass (`new_location`).  Between ticks the two agree.
#[derive(Debug, PartialEq, Eq, Structural, Clone, Copy)]
pub struct ParticleLocations {
    pub old_location: GridPos,
    pub new_location: GridPos,
}

/// One live particle instance: its kind, its location pair, and whether it is
/// still live.  An instance displaced by a denser particle is destroyed by
/// clearing `alive`, which keeps every live instance in step with the grid.
#[derive(Debug, PartialEq, Eq, Structural, Clone, Copy)]
pub struct Particle {
    pub data: ParticleData,
    pub locations: ParticleLocations,
    pub alive: bool,
}

/// The catalog the simulation is started with: water, oil, rock and vapor,
/// with densities 1, 0.881, 2.6 and 0.00059 display units.
pub fn starting_particle_list() -> (list: ParticleList)
    ensures
        list.wf(),
        list.0@.len() == 4,
        list.0@[0] == (ParticleData {
            density: 100000,
            particle_type: ParticleType::Liquid,
            material: 0,
        }),
        list.0@[1] == (ParticleData {
            density: 88100,
            particle_type: ParticleType::Liquid,
            material: 1,
        }),
        list.0@[2] == (ParticleData {
            density: 260000,
            particle_type: ParticleType::Solid,
            material: 2,
        }),
        list.0@[3] == (ParticleData {
            density: 59,
            particle_type: ParticleType::Gas,
            material: 3,
        }),
{
    let mut kinds: Vec<ParticleData> = Vec::new();
    kinds.push(ParticleData { density: 100000, particle_type: ParticleType::Liquid, material: 0 });
    kinds.push(ParticleData { density: 88100, particle_type: ParticleType::Liquid, material: 1 });
    kinds.push(ParticleData { density: 260000, particle_type: ParticleType::Solid, material: 2 });
    kinds.push(ParticleData { density: 59, particle_type: ParticleType::Gas, material: 3 });
    ParticleList(kinds)
}

} // verus!
