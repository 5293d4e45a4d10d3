use vstd::prelude::*;

use crate::components::draw_in_range;
use crate::geometry::{MAP_HEIGHT, MAP_WIDTH, MAP_X1, MAP_Y1};
use rltk::RandomNumberGenerator;

verus! {

/// The ground cover of one cell of the world map.
#[derive(Clone, Copy, Debug, PartialEq, Eq, Structural)]
pub enum MapTile {
    Ground,
    Water,
    Grass,
}

/// The world map, indexed `[x - MAP_X1][y - MAP_Y1]`.
pub type MapField = Vec<Vec<MapTile>>;

/// Number of cells of a random map that are drawn to become grass: three
/// quarters of the cells, of which some are drawn more than once.
pub const GRASS_DRAWS: usize = 30000;

/// Number of cells of a random map that are drawn to become water: one tenth
/// of the cells.
pub const WATER_DRAWS: usize = 4000;

/// Spacing of the canals of a canal map.
pub const CANAL_SPACING: usize = 10;

pub open spec fn has_map_shape(m: Seq<Vec<MapTile>>) -> bool {
    &&& m.len() == MAP_WIDTH
    &&& forall|i: int| 0 <= i < m.len() ==> (#[trigger] m[i])@.len() == MAP_HEIGHT
}

/// The tile at world cell `(x, y)` of the canal map: water on every line and
/// column whose coordinate is a multiple of the canal spacing.
pub open spec fn canal_tile(x: int, y: int) -> MapTile {
    if x % (CANAL_SPACING as int) == 0 || y % (CANAL_SPACING as int) == 0 {
        MapTile::Water
    } else {
        MapTile::Ground
    }
}

fn ground_column() -> (r: Vec<MapTile>)
    ensures
        r@.len() == MAP_HEIGHT,
        forall|j: int| 0 <= j < MAP_HEIGHT ==> r@[j] == MapTile::Ground,
{
    let mut col: Vec<MapTile> = Vec::new();
    let mut j: usize = 0;
    while j < MAP_HEIGHT
        invariant
            j <= MAP_HEIGHT,
            col@.len() == j,
            forall|k: int| 0 <= k < j ==> col@[k] == MapTile::Ground,
        decreases MAP_HEIGHT - j,
    {
        col.push(MapTile::Ground);
        j += 1;
    }
    col
}

fn ground_map() -> (r: MapField)
    ensures
        has_map_shape(r@),
{
    let mut map: MapField = Vec::new();
    let mut i: usize = 0;
    while i < MAP_WIDTH
        invariant
            i <= MAP_WIDTH,
            map@.len() == i,
            forall|k: int| 0 <= k < i ==> (#[trigger] map@[k])@.len() == MAP_HEIGHT,
        decreases MAP_WIDTH - i,
    {
        map.push(ground_column());
        i += 1;
    }
    map
}

/// Sets `draws` randomly drawn cells of `map` to `tile`.
fn scatter(map: &mut MapField, rng: &mut RandomNumberGenerator, tile: MapTile, draws: usize)
    requires
        has_map_shape(old(map)@),
    ensures
        has_map_shape(final(map)@),
{
    let mut n: usize = 0;
    while n < draws
        invariant
            has_map_shape(map@),
        decreases draws - n,
    {
        let x = draw_in_range(rng, 0, MAP_WIDTH as i32) as usize;
        let y = draw_in_range(rng, 0, MAP_HEIGHT as i32) as usize;
        let mut col = map[x].clone();
        assert(col@ == map@[x as int]@);
        col.set(y, tile);
        map.set(x, col);
        n += 1;
    }
}

/// A map of ground with grass and water strewn over it at random.
pub fn random_map() -> (r: MapField)
    ensures
        has_map_shape(r@),
{
    let mut map = ground_map();
    let mut rng = crate::components::new_generator();
    scatter(&mut map, &mut rng, MapTile::Grass, GRASS_DRAWS);
    scatter(&mut map, &mut rng, MapTile::Water, WATER_DRAWS);
    map
}

/// A map of ground crossed by a grid of canals.
pub fn _canal_map() -> (r: MapField)
    ensures
        has_map_shape(r@),
        forall|i: int, j: int|
            0 <= i < MAP_WIDTH && 0 <= j < MAP_HEIGHT ==> (#[trigger] r@[i]@[j]) == canal_tile(
                i + MAP_X1,
                j + MAP_Y1,
            ),
{
    let mut map: MapField = Vec::new();
    let mut i: usize = 0;
    while i < MAP_WIDTH
        invariant
            i <= MAP_WIDTH,
            map@.len() == i,
            forall|k: int| 0 <= k < i ==> (#[trigger] map@[k])@.len() == MAP_HEIGHT,
            forall|k: int, j: int|
                0 <= k < i && 0 <= j < MAP_HEIGHT ==> (#[trigger] map@[k]@[j]) == canal_tile(
                    k + MAP_X1,
                    j + MAP_Y1,
                ),
        decreases MAP_WIDTH - i,
    {
        let mut col: Vec<MapTile> = Vec::new();
        let mut j: usize = 0;
        while j < MAP_HEIGHT
            invariant
                i < MAP_WIDTH,
                j <= MAP_HEIGHT,
                col@.len() == j,
                forall|k: int| 0 <= k < j ==> #[trigger] col@[k] == canal_tile(i + MAP_X1, k + MAP_Y1),
            decreases MAP_HEIGHT - j,
        {
            let tile = if i % CANAL_SPACING == 0 || j % CANAL_SPACING == 0 {
                MapTile::Water
            } else {
                MapTile::Ground
            };
            assert((i + MAP_X1) % (CANAL_SPACING as int) == (i as int) % (CANAL_SPACING as int));
            assert((j + MAP_Y1) % (CANAL_SPACING as int) == (j as int) % (CANAL_SPACING as int));
            col.push(tile);
            j += 1;
        }
        map.push(col);
        i += 1;
    }
    map
}

} // verus!
