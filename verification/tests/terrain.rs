use iso_terrain::error::TerrainError;
use iso_terrain::geometry::Position;
use iso_terrain::noise_field::{NoiseField, NoiseSettings, Span, UNIT};
use iso_terrain::stone_map::StoneMap;
use iso_terrain::terrain::{height_map, place_stones, spawn_terrain, HeightMap, TerrainParams};
use iso_terrain::visibility::{set_stone_visibility, stone_visibility, Visibility, VisibilityCuller};

fn at(x: i32, y: i32, z: i32) -> Position {
    Position { x, y, z }
}

fn stones(map: &StoneMap) -> Vec<Position> {
    (0..map.len()).map(|id| map.position_of(id).unwrap()).collect()
}

fn params(levels: i32) -> TerrainParams {
    TerrainParams { levels, base_offset: 200_000, amplitude: 800_000 }
}

#[test]
fn standard_settings_are_those_of_the_default_scene() {
    let s = NoiseSettings::standard();
    assert_eq!(s.width, 300);
    assert_eq!(s.height, 300);
    assert_eq!(s.seed, 0);
    assert_eq!(s.octaves, 3);
    assert_eq!(s.persistence, 100_000);
    assert_eq!(s.frequency, 50_000);
    assert_eq!(s.x_bounds, Span { lower: 0, upper: 300 });
    assert_eq!(s.y_bounds, Span { lower: 0, upper: 300 });
    assert_eq!(s.validate(), Ok(()));
    assert_eq!(TerrainParams::standard(), params(20));
    assert_eq!(UNIT, 1_000_000);
}

#[test]
fn settings_that_are_not_positive_are_invalid() {
    let good = NoiseSettings::standard();
    assert_eq!(NoiseSettings { width: 0, ..good }.validate(), Err(TerrainError::InvalidConfig));
    assert_eq!(NoiseSettings { height: -3, ..good }.validate(), Err(TerrainError::InvalidConfig));
    assert_eq!(NoiseSettings { octaves: 0, ..good }.validate(), Err(TerrainError::InvalidConfig));
    assert_eq!(NoiseSettings { frequency: 0, ..good }.validate(), Err(TerrainError::InvalidConfig));
    assert_eq!(NoiseSettings { frequency: -1, ..good }.validate(), Err(TerrainError::InvalidConfig));
    // Persistence and seed are free.
    assert_eq!(NoiseSettings { persistence: 0, seed: 77, ..good }.validate(), Ok(()));
    assert_eq!(NoiseSettings { width: 1, height: 1, octaves: 1, frequency: 1, ..good }.validate(), Ok(()));
}

#[test]
fn a_noise_field_is_rectangular_and_not_empty() {
    assert!(matches!(NoiseField::from_columns(vec![]), Err(TerrainError::InvalidConfig)));
    assert!(matches!(NoiseField::from_columns(vec![vec![]]), Err(TerrainError::InvalidConfig)));
    assert!(matches!(
        NoiseField::from_columns(vec![vec![1, 2], vec![3]]),
        Err(TerrainError::InvalidConfig)
    ));
    assert!(matches!(
        NoiseField::from_columns(vec![vec![1], vec![2, 3]]),
        Err(TerrainError::InvalidConfig)
    ));
    let field = NoiseField::from_columns(vec![vec![1, 2, 3], vec![4, 5, 6]]).unwrap();
    assert_eq!(field.width(), 2);
    assert_eq!(field.height(), 3);
    assert_eq!(field.value(0, 0), Some(1));
    assert_eq!(field.value(1, 2), Some(6));
    assert_eq!(field.value(0, 2), Some(3));
    assert_eq!(field.value(2, 0), None);
    assert_eq!(field.value(0, 3), None);
    assert_eq!(field.value(-1, 0), None);
    assert_eq!(field.value(0, -1), None);
}

#[test]
fn height_follows_the_formula() {
    let p = params(20);
    // 0.2 * 20 + (raw + 1) / 2 * 0.8 * 20
    assert_eq!(p.height_of(0), Ok(12));
    assert_eq!(p.height_of(-UNIT), Ok(4));
    assert_eq!(p.height_of(UNIT / 2), Ok(16));
    assert_eq!(p.height_of(100_000), Ok(12)); // 12.8
    assert_eq!(p.height_of(125_000), Ok(13)); // 13.0
    assert_eq!(p.height_of(124_999), Ok(12)); // 12.999992
    assert_eq!(p.height_of(-875_000), Ok(5)); // 5.0
    assert_eq!(p.height_of(-875_001), Ok(4)); // 4.999992
}

#[test]
fn height_is_capped_below_the_top_level() {
    let p = params(20);
    assert_eq!(p.height_of(UNIT), Ok(19)); // 20 asked for
    assert_eq!(p.height_of(875_000), Ok(19)); // 19.0
    assert_eq!(p.height_of(874_999), Ok(18)); // 18.999992
    assert_eq!(p.height_of(i32::MAX), Ok(19));
}

#[test]
fn height_is_raised_to_zero() {
    let p = params(20);
    assert_eq!(p.height_of(-1_500_000), Ok(0)); // exactly 0
    assert_eq!(p.height_of(-1_500_001), Ok(0)); // just below 0
    assert_eq!(p.height_of(-2 * UNIT), Ok(0)); // -4
    assert_eq!(p.height_of(i32::MIN), Ok(0));
    let sunk = TerrainParams { levels: 20, base_offset: i32::MIN, amplitude: i32::MIN };
    assert_eq!(sunk.height_of(i32::MAX), Ok(0));
    let raised = TerrainParams { levels: i32::MAX, base_offset: i32::MAX, amplitude: i32::MAX };
    assert_eq!(raised.height_of(i32::MAX), Ok(i32::MAX - 1));
}

#[test]
fn height_lies_within_the_levels_for_all_kinds_of_input() {
    for levels in [1, 2, 5, 20, 1000] {
        for base_offset in [-3_000_000, 0, 200_000, 999_999, 5_000_000] {
            for amplitude in [-2_000_000, 0, 1, 800_000, 3_000_000] {
                for raw in [i32::MIN, -UNIT, -1, 0, 1, 333_333, UNIT, i32::MAX] {
                    let p = TerrainParams { levels, base_offset, amplitude };
                    let h = p.height_of(raw).unwrap();
                    assert!(0 <= h && h <= levels - 1);
                }
            }
        }
    }
}

#[test]
fn a_single_level_gives_flat_ground() {
    let p = params(1);
    assert_eq!(p.height_of(0), Ok(0));
    assert_eq!(p.height_of(UNIT), Ok(0));
    assert_eq!(p.height_of(-UNIT), Ok(0));
}

#[test]
fn no_levels_is_an_invalid_configuration() {
    assert_eq!(params(0).height_of(0), Err(TerrainError::InvalidConfig));
    assert_eq!(params(-5).height_of(0), Err(TerrainError::InvalidConfig));
    let noise = NoiseField::from_columns(vec![vec![0]]).unwrap();
    assert!(matches!(height_map(&noise, &params(0)), Err(TerrainError::InvalidConfig)));
    let mut map = StoneMap::new(5, 1, 1).unwrap();
    assert_eq!(spawn_terrain(&mut map, &noise, &params(0)), Err(TerrainError::InvalidConfig));
    assert_eq!(map.len(), 0);
}

#[test]
fn height_map_holds_the_height_of_each_column() {
    let noise =
        NoiseField::from_columns(vec![vec![0, -UNIT, UNIT], vec![100_000, 125_000, -2 * UNIT]])
            .unwrap();
    let heights = height_map(&noise, &params(20)).unwrap();
    assert_eq!(heights.get(0, 0), Some(12));
    assert_eq!(heights.get(0, 1), Some(4));
    assert_eq!(heights.get(0, 2), Some(19));
    assert_eq!(heights.get(1, 0), Some(12));
    assert_eq!(heights.get(1, 1), Some(13));
    assert_eq!(heights.get(1, 2), Some(0));
    assert_eq!(heights.get(2, 0), None);
    assert_eq!(heights.get(0, 3), None);
}

#[test]
fn a_flat_column_of_three() {
    let mut map = StoneMap::new(5, 1, 1).unwrap();
    let heights = HeightMap::from_columns(vec![vec![3]]);
    assert_eq!(place_stones(&mut map, &heights), Ok(()));
    assert_eq!(stones(&map), vec![at(0, 0, 0), at(0, 0, 1), at(0, 0, 2)]);
    assert!(map.contains(at(0, 0, 0)));
    assert!(map.contains(at(0, 0, 1)));
    assert!(map.contains(at(0, 0, 2)));
    assert!(!map.contains(at(0, 0, 3)));
    assert!(!map.contains(at(0, 0, 4)));
    let mut culler = VisibilityCuller::new();
    assert_eq!(set_stone_visibility(&mut culler, &map), 0);
    assert_eq!(culler.len(), 3);
    assert_eq!(culler.get(map.get(at(0, 0, 0)).unwrap()), Some(Visibility::Hidden));
    assert_eq!(culler.get(map.get(at(0, 0, 1)).unwrap()), Some(Visibility::Hidden));
    assert_eq!(culler.get(map.get(at(0, 0, 2)).unwrap()), Some(Visibility::Visible));
    assert_eq!(culler.get(3), None);
}

#[test]
fn stones_are_placed_by_x_then_y_then_from_the_ground_up() {
    let mut map = StoneMap::new(3, 2, 2).unwrap();
    let heights = HeightMap::from_columns(vec![vec![2, 0], vec![1, 3]]);
    assert_eq!(place_stones(&mut map, &heights), Ok(()));
    assert_eq!(
        stones(&map),
        vec![at(0, 0, 0), at(0, 0, 1), at(1, 0, 0), at(1, 1, 0), at(1, 1, 1), at(1, 1, 2)]
    );
    assert!(!map.contains(at(0, 1, 0)));
    assert!(!map.contains(at(0, 0, 2)));
}

#[test]
fn heights_that_are_not_positive_place_nothing() {
    let mut map = StoneMap::new(3, 2, 2).unwrap();
    let heights = HeightMap::from_columns(vec![vec![0, -4], vec![i32::MIN, 0], vec![0], vec![]]);
    assert_eq!(place_stones(&mut map, &heights), Ok(()));
    assert_eq!(map.len(), 0);
}

#[test]
fn a_column_above_the_levels_is_out_of_bounds_and_nothing_is_placed() {
    let mut map = StoneMap::new(3, 2, 2).unwrap();
    let heights = HeightMap::from_columns(vec![vec![2, 1], vec![1, 4]]);
    assert_eq!(place_stones(&mut map, &heights), Err(TerrainError::OutOfBounds));
    assert_eq!(map.len(), 0);
    let full = HeightMap::from_columns(vec![vec![3, 3], vec![3, 3]]);
    assert_eq!(place_stones(&mut map, &full), Ok(()));
    assert_eq!(map.len(), 12);
}

#[test]
fn a_column_beside_the_grid_is_out_of_bounds() {
    let mut map = StoneMap::new(3, 1, 1).unwrap();
    let wide = HeightMap::from_columns(vec![vec![1], vec![1]]);
    assert_eq!(place_stones(&mut map, &wide), Err(TerrainError::OutOfBounds));
    let long = HeightMap::from_columns(vec![vec![1, 1]]);
    assert_eq!(place_stones(&mut map, &long), Err(TerrainError::OutOfBounds));
    // Columns beside the grid that hold nothing do no harm.
    let empty_beside = HeightMap::from_columns(vec![vec![2, 0], vec![0, 0]]);
    assert_eq!(place_stones(&mut map, &empty_beside), Ok(()));
    assert_eq!(stones(&map), vec![at(0, 0, 0), at(0, 0, 1)]);
}

#[test]
fn a_taken_cell_stops_the_placing_and_nothing_is_placed() {
    let mut map = StoneMap::new(3, 2, 2).unwrap();
    assert_eq!(map.set(at(1, 1, 1)), Ok(0));
    let heights = HeightMap::from_columns(vec![vec![2, 1], vec![1, 2]]);
    assert_eq!(place_stones(&mut map, &heights), Err(TerrainError::CellOccupied));
    assert_eq!(stones(&map), vec![at(1, 1, 1)]);
    // A stone above the heights is not in the way.
    let lower = HeightMap::from_columns(vec![vec![2, 1], vec![1, 1]]);
    assert_eq!(place_stones(&mut map, &lower), Ok(()));
    assert_eq!(
        stones(&map),
        vec![at(1, 1, 1), at(0, 0, 0), at(0, 0, 1), at(0, 1, 0), at(1, 0, 0), at(1, 1, 0)]
    );
}

#[test]
fn out_of_bounds_is_reported_even_where_a_cell_is_taken() {
    let mut map = StoneMap::new(2, 1, 1).unwrap();
    assert_eq!(map.set(at(0, 0, 0)), Ok(0));
    let heights = HeightMap::from_columns(vec![vec![3]]);
    assert_eq!(place_stones(&mut map, &heights), Err(TerrainError::OutOfBounds));
    assert_eq!(map.len(), 1);
}

#[test]
fn placing_twice_hits_the_stones_of_the_first_time() {
    let mut map = StoneMap::new(4, 2, 2).unwrap();
    let heights = HeightMap::from_columns(vec![vec![1, 2], vec![3, 0]]);
    assert_eq!(place_stones(&mut map, &heights), Ok(()));
    let first = stones(&map);
    assert_eq!(place_stones(&mut map, &heights), Err(TerrainError::CellOccupied));
    assert_eq!(stones(&map), first);
}

#[test]
fn spawn_terrain_fills_each_column_below_its_height() {
    let noise = NoiseField::from_columns(vec![
        vec![-UNIT, -750_000],
        vec![-2 * UNIT, -500_000],
    ])
    .unwrap();
    let p = params(5);
    // 1 + (raw + 1) / 2 * 4: heights 1, 1 (1.5), 0 (-1), 2
    let mut map = StoneMap::new(5, 2, 2).unwrap();
    assert_eq!(spawn_terrain(&mut map, &noise, &p), Ok(()));
    assert_eq!(stones(&map), vec![at(0, 0, 0), at(0, 1, 0), at(1, 1, 0), at(1, 1, 1)]);
    for x in 0..2 {
        for y in 0..2 {
            let h = height_map(&noise, &p).unwrap().get(x as usize, y as usize).unwrap();
            for z in 0..5 {
                assert_eq!(map.contains(at(x, y, z)), z < h);
            }
        }
    }
}

#[test]
fn two_runs_give_the_same_heights_and_the_same_stones() {
    let samples = vec![
        vec![-UNIT, 0, 250_000, 999_999],
        vec![UNIT, -333_333, 1, -1],
        vec![42, -700_000, 700_000, 500_000],
    ];
    let p = params(20);
    let run = || {
        let noise = NoiseField::from_columns(samples.clone()).unwrap();
        let heights = height_map(&noise, &p).unwrap();
        let mut grid = Vec::new();
        for x in 0..3 {
            for y in 0..4 {
                grid.push(heights.get(x, y).unwrap());
            }
        }
        let mut map = StoneMap::new(20, 3, 4).unwrap();
        assert_eq!(spawn_terrain(&mut map, &noise, &p), Ok(()));
        (grid, stones(&map))
    };
    let (first_heights, first_stones) = run();
    let (second_heights, second_stones) = run();
    assert_eq!(first_heights, second_heights);
    assert_eq!(first_stones, second_stones);
    assert_eq!(first_stones.len(), first_heights.iter().sum::<i32>() as usize);
}

#[test]
fn a_covered_stone_is_hidden_and_an_open_one_is_visible() {
    let mut map = StoneMap::new(3, 2, 1).unwrap();
    map.set(at(0, 0, 0)).unwrap();
    map.set(at(0, 0, 1)).unwrap();
    map.set(at(1, 0, 0)).unwrap();
    map.set(at(1, 0, 2)).unwrap();
    assert_eq!(stone_visibility(&map, at(0, 0, 0)), Visibility::Hidden);
    assert_eq!(stone_visibility(&map, at(0, 0, 1)), Visibility::Visible);
    assert_eq!(stone_visibility(&map, at(1, 0, 0)), Visibility::Visible);
    assert_eq!(stone_visibility(&map, at(1, 0, 1)), Visibility::Hidden);
    assert_eq!(stone_visibility(&map, at(1, 0, 2)), Visibility::Visible);
    for id in 0..map.len() {
        let pos = map.position_of(id).unwrap();
        let covered = map.contains(at(pos.x, pos.y, pos.z + 1));
        assert_eq!(stone_visibility(&map, pos) == Visibility::Hidden, covered);
    }
}

#[test]
fn the_top_level_is_always_visible() {
    let mut map = StoneMap::new(2, 1, 1).unwrap();
    map.set(at(0, 0, 0)).unwrap();
    map.set(at(0, 0, 1)).unwrap();
    assert_eq!(stone_visibility(&map, at(0, 0, 1)), Visibility::Visible);
    assert_eq!(stone_visibility(&map, at(0, 0, i32::MAX)), Visibility::Visible);
    assert_eq!(stone_visibility(&map, at(0, 0, -1)), Visibility::Hidden);
}

#[test]
fn a_pass_reaches_only_the_stones_placed_since_the_pass_before() {
    let mut map = StoneMap::new(3, 1, 1).unwrap();
    let mut culler = VisibilityCuller::new();
    assert_eq!(set_stone_visibility(&mut culler, &map), 0);
    assert_eq!(culler.len(), 0);
    map.set(at(0, 0, 0)).unwrap();
    assert_eq!(set_stone_visibility(&mut culler, &map), 0);
    assert_eq!(culler.get(0), Some(Visibility::Visible));
    map.set(at(0, 0, 1)).unwrap();
    map.set(at(0, 0, 2)).unwrap();
    assert_eq!(set_stone_visibility(&mut culler, &map), 1);
    assert_eq!(culler.len(), 3);
    // The flag of the first stone is as the first pass left it.
    assert_eq!(culler.get(0), Some(Visibility::Visible));
    assert_eq!(culler.get(1), Some(Visibility::Hidden));
    assert_eq!(culler.get(2), Some(Visibility::Visible));
    assert_eq!(set_stone_visibility(&mut culler, &map), 3);
    assert_eq!(culler.len(), 3);
}
