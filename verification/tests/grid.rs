use sneky_fox::entities::Bone;
use sneky_fox::geom::Pos;
use sneky_fox::level::Level;

fn level(width: u32, height: u32, tiles: Vec<u32>) -> Level {
    Level::new(width, height, tiles, "test".to_string(), None)
}

fn floor(width: u32, height: u32) -> Level {
    level(width, height, vec![1; (width * height) as usize])
}

#[test]
fn get_tile_returns_stored_ids() {
    let l = level(3, 2, vec![1, 2, 3, 4, 5, 6]);
    assert_eq!(l.get_tile(0, 0), 1);
    assert_eq!(l.get_tile(1, 0), 2);
    assert_eq!(l.get_tile(2, 0), 3);
    assert_eq!(l.get_tile(0, 1), 4);
    assert_eq!(l.get_tile(2, 1), 6);
}

#[test]
fn get_tile_out_of_range_is_zero() {
    let l = level(3, 2, vec![1, 2, 3, 4, 5, 6]);
    assert_eq!(l.get_tile(3, 0), 0);
    assert_eq!(l.get_tile(0, 2), 0);
    assert_eq!(l.get_tile(100, 100), 0);
}

#[test]
fn has_tile_false_outside_bounds() {
    let l = floor(3, 2);
    assert!(!l.has_tile(3, 0));
    assert!(!l.has_tile(0, 2));
    assert!(!l.has_tile(3, 2));
    assert!(!l.has_tile(u32::MAX, 0));
    assert!(l.has_tile(2, 1));
}

#[test]
fn has_tile_false_on_zero_id() {
    let l = level(2, 2, vec![1, 0, 1, 1]);
    assert!(l.has_tile(0, 0));
    assert!(!l.has_tile(1, 0));
}

#[test]
fn diagonal_order_3x2() {
    let l = level(3, 2, vec![1, 2, 3, 4, 5, 6]);
    let got = l.tiles_diagonal();
    let expected = vec![
        (1, 0, 0),
        (4, 0, 1),
        (2, 1, 0),
        (5, 1, 1),
        (3, 2, 0),
        (6, 2, 1),
    ];
    assert_eq!(got, expected);
}

#[test]
fn diagonal_iterator_steps_match_collected() {
    let l = level(3, 2, vec![1, 2, 3, 4, 5, 6]);
    let mut it = l.iter_tiles_diagonal();
    let mut got = Vec::new();
    while let Some(t) = it.next() {
        got.push(t);
    }
    assert_eq!(got, l.tiles_diagonal());
    assert_eq!(it.next(), None);
}

#[test]
fn diagonal_visits_every_cell_once() {
    let l = floor(4, 7);
    let got = l.tiles_diagonal();
    assert_eq!(got.len(), 28);
    let mut seen = vec![false; 28];
    for &(id, x, y) in &got {
        assert_eq!(id, 1);
        let idx = (y * 4 + x) as usize;
        assert!(!seen[idx], "cell visited twice");
        seen[idx] = true;
    }
    assert!(seen.iter().all(|&s| s));
    for i in 0..got.len() {
        for j in 0..got.len() {
            let (_, xi, yi) = got[i];
            let (_, xj, yj) = got[j];
            if xi + yi < xj + yj {
                assert!(i < j, "smaller anti-diagonal must come strictly first");
            }
        }
    }
}

#[test]
fn diagonal_single_cell_and_column() {
    assert_eq!(floor(1, 1).tiles_diagonal(), vec![(1, 0, 0)]);
    assert_eq!(
        floor(1, 4).tiles_diagonal(),
        vec![(1, 0, 0), (1, 0, 1), (1, 0, 2), (1, 0, 3)]
    );
    assert_eq!(
        floor(4, 1).tiles_diagonal(),
        vec![(1, 0, 0), (1, 1, 0), (1, 2, 0), (1, 3, 0)]
    );
}

#[test]
fn diagonal_empty_grid() {
    let l = level(0, 5, vec![]);
    assert_eq!(l.tiles_diagonal(), Vec::<(u32, u32, u32)>::new());
    let mut it = l.iter_tiles_diagonal();
    assert_eq!(it.next(), None);
}

#[test]
fn adjacent_four_center_and_corner() {
    let l = floor(3, 3);
    let center = l.get_adjacent_four(Pos { x: 1, y: 1 });
    assert_eq!(
        center,
        vec![
            Pos { x: 0, y: 1 },
            Pos { x: 2, y: 1 },
            Pos { x: 1, y: 0 },
            Pos { x: 1, y: 2 },
        ]
    );
    let corner = l.get_adjacent_four(Pos { x: 0, y: 0 });
    assert_eq!(corner, vec![Pos { x: 1, y: 0 }, Pos { x: 0, y: 1 }]);
}

#[test]
fn adjacent_four_skips_missing_tiles() {
    let l = level(3, 3, vec![1, 0, 1, 1, 1, 1, 1, 1, 1]);
    let center = l.get_adjacent_four(Pos { x: 1, y: 1 });
    assert_eq!(
        center,
        vec![Pos { x: 0, y: 1 }, Pos { x: 2, y: 1 }, Pos { x: 1, y: 2 }]
    );
}

#[test]
fn adjacent_eight_center() {
    let l = floor(3, 3);
    let got = l.get_adjacent_eight(Pos { x: 1, y: 1 });
    assert_eq!(got.len(), 8);
    for x in 0..3u32 {
        for y in 0..3u32 {
            let p = Pos { x, y };
            if (x, y) != (1, 1) {
                assert!(got.contains(&p));
            } else {
                assert!(!got.contains(&p));
            }
        }
    }
}

#[test]
fn throwable_positions_are_cardinal_neighbors() {
    let l = floor(3, 3);
    let bone = Bone::new(1, 1);
    let got = bone.get_throwable_positions(&l);
    assert_eq!(got, l.get_adjacent_four(Pos { x: 1, y: 1 }));
}
