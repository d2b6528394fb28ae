use terrain_mesher::block::Block;
use terrain_mesher::chunks::{div_rem_floor, ChunkError, ChunkTable};
use terrain_mesher::dyna::{Dyna, DynaError};
use terrain_mesher::vec3::{Aabb, Rgb, Size3, Vec2, Vec3};
use terrain_mesher::vol::ReadVol;
use terrain_mesher::vol_map_2d::VolMap2d;
use terrain_mesher::vol_map_3d::VolMap3d;

const RED: Rgb = Rgb { r: 255, g: 0, b: 0 };
const GREY: Rgb = Rgb { r: 90, g: 90, b: 90 };

fn v(x: i32, y: i32, z: i32) -> Vec3 {
    Vec3::new(x, y, z)
}

#[test]
fn block_colour_exists_only_for_solid_voxels() {
    assert_eq!(Block::empty(), Block::Empty);
    assert_eq!(Block::solid(RED), Block::Solid(RED));
    assert!(Block::Empty.is_empty());
    assert!(!Block::Solid(RED).is_empty());
    assert_eq!(Block::Empty.get_color(), None);
    assert_eq!(Block::Solid(GREY).get_color(), Some(GREY));
}

#[test]
fn vec3_checked_arithmetic() {
    assert_eq!(v(1, -2, 3).checked_add(v(10, 20, 30)), Some(v(11, 18, 33)));
    assert_eq!(v(1, -2, 3).checked_sub(v(10, 20, 30)), Some(v(-9, -22, -27)));
    assert_eq!(v(i32::MAX, 0, 0).checked_add(v(1, 0, 0)), None);
    assert_eq!(v(0, i32::MIN, 0).checked_add(v(0, -1, 0)), None);
    assert_eq!(v(0, 0, i32::MIN).checked_sub(v(0, 0, 1)), None);
    assert_eq!(v(0, 0, i32::MAX).checked_sub(v(0, 0, -1)), None);
    assert_eq!(v(i32::MAX, i32::MIN, 0).checked_add(v(0, 0, 0)), Some(v(i32::MAX, i32::MIN, 0)));
    assert_eq!(Vec2::new(3, -4), Vec2 { x: 3, y: -4 });
}

#[test]
fn aabb_validity_and_trimming() {
    let r = Aabb { min: v(0, -2, 4), max: v(5, 2, 4) };
    assert!(r.is_valid());
    assert!(r.is_empty());
    assert!(!Aabb { min: v(0, 0, 0), max: v(1, 1, 1) }.is_empty());
    assert!(!Aabb { min: v(0, 0, 1), max: v(5, 5, 0) }.is_valid());
    assert!(!Aabb { min: v(6, 0, 0), max: v(5, 5, 5) }.is_valid());
    assert_eq!(
        r.trimmed(v(1, 1, 0)),
        Some(Aabb { min: v(1, -1, 4), max: v(4, 1, 4) })
    );
    // Trimming may invert a box; it fails only where a corner is no coordinate.
    assert_eq!(
        Aabb { min: v(0, 0, 0), max: v(1, 1, 1) }.trimmed(v(1, 1, 1)),
        Some(Aabb { min: v(1, 1, 1), max: v(0, 0, 0) })
    );
    assert_eq!(Aabb { min: v(i32::MAX, 0, 0), max: v(i32::MAX, 1, 1) }.trimmed(v(1, 1, 1)), None);
    assert_eq!(Aabb { min: v(0, 0, 0), max: v(5, i32::MIN, 5) }.trimmed(v(1, 1, 0)), None);
}

#[test]
fn aabb_extent_that_fits_offsets() {
    assert!(Aabb { min: v(0, 0, 0), max: v(i32::MAX, i32::MAX, i32::MAX) }.offsets_fit());
    assert!(Aabb { min: v(i32::MIN, 0, 0), max: v(-1, 0, 0) }.offsets_fit());
    assert!(!Aabb { min: v(i32::MIN, 0, 0), max: v(0, 0, 0) }.offsets_fit());
    assert!(!Aabb { min: v(0, -1, 0), max: v(0, i32::MAX, 0) }.offsets_fit());
    assert!(!Aabb { min: v(0, 0, i32::MIN), max: v(0, 0, i32::MAX) }.offsets_fit());
    // An inverted box has a negative extent, which fits.
    assert!(Aabb { min: v(i32::MAX, 0, 0), max: v(i32::MIN, 0, 0) }.offsets_fit());
}

#[test]
fn dyna_try_filled_refuses_sizes_that_do_not_fit() {
    let size = Size3 { x: 2, y: 3, z: 4 };
    let vol = Dyna::try_filled(size, Block::Solid(GREY));
    assert_eq!(vol.as_ref().map(|d| d.get_size()), Some(size));
    assert_eq!(vol.map(|d| d.get(v(1, 2, 3))), Some(Some(Block::Solid(GREY))));
    let side = i32::MAX as u32;
    assert!(Dyna::try_filled(Size3 { x: side + 1, y: 1, z: 1 }, Block::Empty).is_none());
    assert!(Dyna::try_filled(Size3 { x: 1, y: side + 1, z: 0 }, Block::Empty).is_none());
    assert!(Dyna::try_filled(Size3 { x: 0, y: 0, z: u32::MAX }, Block::Empty).is_none());
    // More voxels than a `Vec` can index.
    assert!(Dyna::try_filled(Size3 { x: side, y: side, z: side }, Block::Empty).is_none());
    // No voxels at all: the sides only have to be coordinates.
    let flat = Dyna::try_filled(Size3 { x: side, y: side, z: 0 }, Block::Empty);
    assert_eq!(flat.as_ref().map(|d| d.get_size()), Some(Size3 { x: side, y: side, z: 0 }));
    assert_eq!(flat.map(|d| d.get(v(0, 0, 0))), Some(None));
}

#[test]
fn dyna_filled_holds_the_voxel_everywhere_inside() {
    let vol = Dyna::filled(Size3 { x: 2, y: 3, z: 4 }, Block::Solid(GREY));
    assert_eq!(vol.get_size(), Size3 { x: 2, y: 3, z: 4 });
    for x in -1..4 {
        for y in -1..5 {
            for z in -1..6 {
                let inside = 0 <= x && x < 2 && 0 <= y && y < 3 && 0 <= z && z < 4;
                assert_eq!(vol.contains(v(x, y, z)), inside);
                assert_eq!(
                    vol.get(v(x, y, z)),
                    if inside { Some(Block::Solid(GREY)) } else { None }
                );
                if inside {
                    assert_eq!(vol.at(v(x, y, z)), Block::Solid(GREY));
                }
            }
        }
    }
}

#[test]
fn dyna_set_changes_one_position() {
    let size = Size3 { x: 3, y: 4, z: 5 };
    let mut vol = Dyna::filled(size, Block::Empty);
    // Every position gets its own colour; all are read back afterwards.
    for x in 0..3 {
        for y in 0..4 {
            for z in 0..5 {
                let col = Rgb { r: x as u8, g: y as u8, b: z as u8 };
                assert_eq!(vol.set(v(x, y, z), Block::Solid(col)), Ok(()));
            }
        }
    }
    for x in 0..3 {
        for y in 0..4 {
            for z in 0..5 {
                let col = Rgb { r: x as u8, g: y as u8, b: z as u8 };
                assert_eq!(vol.get(v(x, y, z)), Some(Block::Solid(col)));
            }
        }
    }
    assert_eq!(vol.get_size(), size);
}

#[test]
fn dyna_set_outside_is_refused() {
    let mut vol = Dyna::filled(Size3 { x: 2, y: 2, z: 2 }, Block::Empty);
    for p in [v(2, 0, 0), v(0, 2, 0), v(0, 0, 2), v(-1, 0, 0), v(0, -1, 0), v(0, 0, -1)] {
        assert_eq!(vol.set(p, Block::Solid(RED)), Err(DynaError::OutOfBounds));
        assert_eq!(vol.get(p), None);
    }
    for x in 0..2 {
        for y in 0..2 {
            for z in 0..2 {
                assert_eq!(vol.get(v(x, y, z)), Some(Block::Empty));
            }
        }
    }
    let mut nothing = Dyna::filled(Size3 { x: 0, y: 5, z: 5 }, Block::Empty);
    assert_eq!(nothing.set(v(0, 0, 0), Block::Solid(RED)), Err(DynaError::OutOfBounds));
}

#[test]
fn floor_division_of_coordinates() {
    assert_eq!(div_rem_floor(7, 4), (1, 3));
    assert_eq!(div_rem_floor(8, 4), (2, 0));
    assert_eq!(div_rem_floor(0, 4), (0, 0));
    assert_eq!(div_rem_floor(-1, 4), (-1, 3));
    assert_eq!(div_rem_floor(-4, 4), (-1, 0));
    assert_eq!(div_rem_floor(-5, 4), (-2, 3));
    assert_eq!(div_rem_floor(i32::MIN, 1), (i32::MIN, 0));
    assert_eq!(div_rem_floor(i32::MAX, 1), (i32::MAX, 0));
    assert_eq!(div_rem_floor(i32::MIN, i32::MAX as u32), (-2, i32::MAX - 1));
    assert_eq!(div_rem_floor(i32::MAX, i32::MAX as u32), (1, 0));
    assert_eq!(div_rem_floor(i32::MIN, 16), (-(1 << 27), 0));
}

#[test]
fn cube_keys_and_offsets() {
    let vol = VolMap3d::new(Size3 { x: 4, y: 8, z: 16 });
    assert_eq!(vol.get_chunk_size(), Size3 { x: 4, y: 8, z: 16 });
    assert!(!vol.has_zero_chunk_size());
    assert_eq!(vol.pos_key(v(0, 0, 0)), v(0, 0, 0));
    assert_eq!(vol.chunk_offs(v(0, 0, 0)), v(0, 0, 0));
    assert_eq!(vol.pos_key(v(5, 17, 47)), v(1, 2, 2));
    assert_eq!(vol.chunk_offs(v(5, 17, 47)), v(1, 1, 15));
    assert_eq!(vol.pos_key(v(-1, -8, -17)), v(-1, -1, -2));
    assert_eq!(vol.chunk_offs(v(-1, -8, -17)), v(3, 0, 15));
}

#[test]
fn column_keys_and_offsets() {
    let vol = VolMap2d::new(Size3 { x: 4, y: 8, z: 16 });
    assert_eq!(vol.get_chunk_size(), Size3 { x: 4, y: 8, z: 16 });
    assert_eq!(vol.pos_key(v(5, 17, 47)), Vec2::new(1, 2));
    assert_eq!(vol.chunk_offs(v(5, 17, 47)), v(1, 1, 47));
    assert_eq!(vol.pos_key(v(-1, -8, -17)), Vec2::new(-1, -1));
    assert_eq!(vol.chunk_offs(v(-1, -8, -17)), v(3, 0, -17));
}

#[test]
fn cube_volume_reads_through_its_chunks() {
    let cs = Size3 { x: 2, y: 2, z: 2 };
    let mut vol = VolMap3d::new(cs);
    assert_eq!(vol.get(v(0, 0, 0)), None);
    let mut chunk = Dyna::filled(cs, Block::Empty);
    assert_eq!(chunk.set(v(1, 0, 1), Block::Solid(RED)), Ok(()));
    assert!(matches!(vol.insert(v(-1, 0, 3), chunk), Ok(None)));
    assert_eq!(vol.get(v(-1, 0, 7)), Some(Block::Solid(RED)));
    assert_eq!(vol.get(v(-2, 0, 7)), Some(Block::Empty));
    assert_eq!(vol.get(v(-1, 0, 8)), None);
    assert_eq!(vol.get(v(0, 0, 7)), None);
    assert_eq!(vol.get_key(v(-1, 0, 3)).map(|c| c.get_size()), Some(cs));
    assert!(vol.get_key(v(-1, 0, 2)).is_none());
    // A second chunk under the same key takes the place of the first.
    let replaced = vol.insert(v(-1, 0, 3), Dyna::filled(cs, Block::Solid(GREY)));
    match replaced {
        Ok(Some(old)) => assert_eq!(old.get(v(1, 0, 1)), Some(Block::Solid(RED))),
        _ => panic!("the first chunk was not handed back"),
    }
    assert_eq!(vol.get(v(-1, 0, 7)), Some(Block::Solid(GREY)));
    let removed = vol.remove(v(-1, 0, 3));
    assert_eq!(removed.map(|c| c.get(v(0, 0, 0))), Some(Some(Block::Solid(GREY))));
    assert_eq!(vol.get(v(-1, 0, 7)), None);
    assert!(vol.remove(v(-1, 0, 3)).is_none());
}

#[test]
fn column_volume_reads_through_its_columns() {
    let cs = Size3 { x: 2, y: 2, z: 5 };
    let mut vol = VolMap2d::new(cs);
    let mut column = Dyna::filled(cs, Block::Empty);
    assert_eq!(column.set(v(1, 0, 4), Block::Solid(RED)), Ok(()));
    assert!(matches!(vol.insert(Vec2::new(-1, 3), column), Ok(None)));
    assert_eq!(vol.get(v(-1, 6, 4)), Some(Block::Solid(RED)));
    assert_eq!(vol.get(v(-1, 6, 3)), Some(Block::Empty));
    // A column is not split along z: above and below it nothing is stored.
    assert_eq!(vol.get(v(-1, 6, 5)), None);
    assert_eq!(vol.get(v(-1, 6, -1)), None);
    assert_eq!(vol.get(v(0, 6, 4)), None);
    assert!(vol.get_key(Vec2::new(-1, 3)).is_some());
    assert!(vol.get_key(Vec2::new(3, -1)).is_none());
    assert!(vol.remove(Vec2::new(-1, 3)).is_some());
    assert_eq!(vol.get(v(-1, 6, 4)), None);
}

#[test]
fn chunk_table_keeps_one_chunk_for_each_key() {
    let cs = Size3 { x: 1, y: 1, z: 1 };
    let mut table = ChunkTable::new(cs);
    assert_eq!(table.get_chunk_size(), cs);
    assert_eq!(table.len(), 0);
    for i in 0..5 {
        let col = Rgb { r: i as u8, g: 0, b: 0 };
        assert!(matches!(table.insert(v(i, -i, 0), Dyna::filled(cs, Block::Solid(col))), Ok(None)));
    }
    assert_eq!(table.len(), 5);
    assert!(matches!(
        table.insert(v(2, -2, 0), Dyna::filled(cs, Block::Empty)),
        Ok(Some(_))
    ));
    assert_eq!(table.len(), 5);
    assert!(matches!(
        table.insert(v(9, 9, 9), Dyna::filled(Size3 { x: 1, y: 2, z: 1 }, Block::Empty)),
        Err(ChunkError::WrongSize)
    ));
    assert_eq!(table.len(), 5);
    assert!(table.get(v(9, 9, 9)).is_none());
    // Removing the first entry leaves every other key with its own chunk.
    assert!(table.remove(v(0, 0, 0)).is_some());
    assert!(table.remove(v(0, 0, 0)).is_none());
    assert_eq!(table.len(), 4);
    for i in 1..5 {
        let expected = if i == 2 {
            Block::Empty
        } else {
            Block::Solid(Rgb { r: i as u8, g: 0, b: 0 })
        };
        assert_eq!(table.get(v(i, -i, 0)).map(|c| c.at(v(0, 0, 0))), Some(expected));
    }
}
