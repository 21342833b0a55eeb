use game_of_life::coords::CoordIter;
use game_of_life::game::{band_bounds, NUMBER_OF_THREADS};
use game_of_life::grid::Grid;
use game_of_life::rules::{BoolData, ClassicConway};
use game_of_life::{DataType, GError, Game};

#[derive(Clone, Copy, Debug, PartialEq)]
struct Num(u32);

impl DataType for Num {}

fn nums(n: u32) -> Vec<Num> {
    (0..n).map(Num).collect()
}


fn bools(v: &[u8]) -> Vec<BoolData> {
    v.iter().map(|&x| BoolData { value: x == 1 }).collect()
}

fn values(g: &Game<ClassicConway>) -> Vec<u8> {
    let mut out = Vec::new();
    let mut it = g.iter();
    while let Some((_, d)) = it.next() {
        out.push(d.value as u8);
    }
    out
}

#[test]
fn construction_derives_height() {
    for (len, width) in [(0usize, 1u16), (6, 3), (6, 2), (6, 6), (12, 4), (7, 1)] {
        let g: Game<ClassicConway> = Game::init_with_data(bools(&vec![0; len]), width).unwrap();
        let s = g.get_size();
        assert_eq!(s.width, width);
        assert_eq!(s.height as usize, len / width as usize);
    }
}

#[test]
fn construction_rejects_partial_rows() {
    let r: Result<Game<ClassicConway>, GError> = Game::init_with_data(bools(&[0; 7]), 3);
    match r {
        Err(e) => assert_eq!(e, GError::InitializationError { size: 7, width: 3 }),
        Ok(_) => panic!("seven cells do not make rows of three"),
    }
    let r: Result<Game<ClassicConway>, GError> = Game::init_with_data(bools(&[0; 5]), 10);
    assert!(r.is_err());
}

#[test]
fn corner_window_wraps_both_axes() {
    let cells: Vec<BoolData> = (0..12).map(|i| BoolData { value: i == 11 }).collect();
    let g = Grid::init_with_data(cells, 4).unwrap();
    let area = g.get_area((0, 0), 3);
    assert_eq!(area.len(), 9);
    assert!(area[0].value);
    assert_eq!(area.iter().filter(|d| d.value).count(), 1);
}

#[test]
fn window_is_row_major_and_wrapped() {
    let g = Grid::init_with_data(nums(12), 4).unwrap();
    let area: Vec<u32> = g.get_area((0, 0), 3).into_iter().map(|n| n.0).collect();
    assert_eq!(area, vec![11, 8, 9, 3, 0, 1, 7, 4, 5]);
    let area: Vec<u32> = g.get_area((5, -1), 1).into_iter().map(|n| n.0).collect();
    assert_eq!(area, vec![9]);
    let area: Vec<u32> = g.get_area((2, 1), 5).into_iter().map(|n| n.0).collect();
    assert_eq!(area.len(), 25);
    assert_eq!(area[12], 6);
}

#[test]
fn reading_twice_gives_the_same_sequence() {
    let g: Game<ClassicConway> = Game::init_with_data(bools(&[1, 0, 0, 1, 1, 0]), 3).unwrap();
    let mut first = Vec::new();
    let mut it = g.iter();
    while let Some((c, d)) = it.next() {
        first.push((c, d.value));
    }
    let mut second = Vec::new();
    let mut it = g.iter();
    while let Some((c, d)) = it.next() {
        second.push((c, d.value));
    }
    assert_eq!(first, second);
    assert_eq!(
        first,
        vec![((0, 0), true), ((1, 0), false), ((2, 0), false), ((0, 1), true), ((1, 1), true), ((2, 1), false)]
    );
}

#[test]
fn equal_grids_step_to_equal_grids() {
    let start = [0, 1, 1, 0, 1, 0, 0, 1, 1, 1, 0, 0, 0, 0, 1, 1, 0, 1, 0, 0];
    let mut a: Game<ClassicConway> = Game::init_with_data(bools(&start), 5).unwrap();
    let mut b: Game<ClassicConway> = Game::init_with_data(bools(&start), 5).unwrap();
    for _ in 0..3 {
        a.next_step();
        b.next_step();
        assert_eq!(values(&a), values(&b));
    }
}

#[test]
fn bands_cover_every_row_once() {
    for height in [0u16, 1, 2, 3, 4, 5, 7, 10, 160, 65535] {
        for threads in [1u16, 2, 3, 4, 7] {
            let mut next = 0u16;
            for i in 0..threads {
                let (s, e) = band_bounds(i, threads, height);
                assert_eq!(s, next);
                assert!(s <= e);
                next = e;
            }
            assert_eq!(next, height);
        }
    }
    assert_eq!(band_bounds(3, NUMBER_OF_THREADS, 10), (7, 10));
    assert_eq!(band_bounds(0, NUMBER_OF_THREADS, 10), (0, 2));
}

#[test]
fn blinker_oscillates() {
    let horizontal = [
        0, 0, 0, 0, 0, //
        0, 0, 0, 0, 0, //
        0, 1, 1, 1, 0, //
        0, 0, 0, 0, 0, //
        0, 0, 0, 0, 0,
    ];
    let vertical = [
        0, 0, 0, 0, 0, //
        0, 0, 1, 0, 0, //
        0, 0, 1, 0, 0, //
        0, 0, 1, 0, 0, //
        0, 0, 0, 0, 0,
    ];
    let mut g: Game<ClassicConway> = Game::init_with_data(bools(&horizontal), 5).unwrap();
    g.next_step();
    assert_eq!(values(&g), vertical.to_vec());
    g.next_step();
    assert_eq!(values(&g), horizontal.to_vec());
}

#[test]
fn three_by_three_torus_sees_every_cell() {
    // On a 3 x 3 torus each window is the whole grid, so three live cells wake every cell.
    let mut g: Game<ClassicConway> =
        Game::init_with_data(bools(&[0, 0, 0, 1, 1, 1, 0, 0, 0]), 3).unwrap();
    g.next_step();
    assert_eq!(values(&g), vec![1; 9]);
}

#[test]
fn lone_cell_dies_and_block_stays() {
    let mut lone = vec![0u8; 25];
    lone[12] = 1;
    let mut g: Game<ClassicConway> = Game::init_with_data(bools(&lone), 5).unwrap();
    g.next_step();
    assert_eq!(values(&g), vec![0; 25]);

    let block = [
        0, 0, 0, 0, 0, 0, //
        0, 0, 0, 0, 0, 0, //
        0, 0, 1, 1, 0, 0, //
        0, 0, 1, 1, 0, 0, //
        0, 0, 0, 0, 0, 0, //
        0, 0, 0, 0, 0, 0,
    ];
    let mut g: Game<ClassicConway> = Game::init_with_data(bools(&block), 6).unwrap();
    for _ in 0..5 {
        g.next_step();
        assert_eq!(values(&g), block.to_vec());
    }
}

#[test]
fn glider_moves_on_a_torus() {
    let start = [
        0, 1, 0, 0, 0, //
        0, 0, 1, 0, 0, //
        1, 1, 1, 0, 0, //
        0, 0, 0, 0, 0, //
        0, 0, 0, 0, 0,
    ];
    let mut g: Game<ClassicConway> = Game::init_with_data(bools(&start), 5).unwrap();
    for _ in 0..20 {
        g.next_step();
    }
    // Twenty steps move a glider five cells down and five right: back where it started.
    assert_eq!(values(&g), start.to_vec());
}

#[test]
fn one_band_computes_its_rows() {
    let horizontal = [
        0, 0, 0, 0, 0, //
        0, 0, 0, 0, 0, //
        0, 1, 1, 1, 0, //
        0, 0, 0, 0, 0, //
        0, 0, 0, 0, 0,
    ];
    let g: Game<ClassicConway> = Game::init_with_data(bools(&horizontal), 5).unwrap();
    let band: Vec<u8> = g.compute_band(1, 3).iter().map(|d| d.value as u8).collect();
    assert_eq!(band, vec![0, 0, 1, 0, 0, 0, 0, 1, 0, 0]);
    assert!(g.compute_band(2, 2).is_empty());
}

#[test]
fn index_reads_unwrapped_coordinates() {
    let mut grid = Grid::init_with_data(nums(6), 3).unwrap();
    assert_eq!(*grid.index((2, 1)), Num(5));
    assert_eq!(*grid.index((0, 1)), Num(3));
    *grid.index_mut((1, 0)) = Num(40);
    assert_eq!(grid.get_raw_data(), &[Num(0), Num(40), Num(2), Num(3), Num(4), Num(5)]);
    grid.get_raw_mut_data()[5] = Num(50);
    assert_eq!(*grid.index((2, 1)), Num(50));
    let g: Game<ClassicConway> = Game::init_with_data(bools(&[0, 1, 0, 0]), 2).unwrap();
    assert!(g.index((1, 0)).value);
    assert!(!g.index((1, 1)).value);
}

#[test]
fn coordinates_come_row_by_row() {
    let mut it = CoordIter::new(3, 1, 3);
    let mut seen = Vec::new();
    while let Some(c) = it.next() {
        seen.push(c);
    }
    assert_eq!(seen, vec![(0, 1), (1, 1), (2, 1), (0, 2), (1, 2), (2, 2)]);
    assert_eq!(it.next(), None);
    let mut empty = CoordIter::new(4, 2, 2);
    assert_eq!(empty.next(), None);
}

#[test]
fn colors_are_four_bytes_per_cell() {
    let g: Game<ClassicConway> = Game::init_with_data(bools(&[1, 0]), 1).unwrap();
    let (bytes, size) = g.to_raw_colors();
    assert_eq!(bytes, vec![255, 255, 255, 255, 0, 0, 0, 255]);
    assert_eq!((size.width, size.height), (1, 2));
}

#[test]
fn text_has_one_line_per_row() {
    let g: Game<ClassicConway> = Game::init_with_data(bools(&[1, 0, 0, 0, 1, 1]), 3).unwrap();
    let text: String = g.to_text().into_iter().collect();
    assert_eq!(text, "*__\n_**\n");
}

#[test]
fn random_fill_has_the_asked_size() {
    let g: Game<ClassicConway> = Game::init_random_data((7, 5)).unwrap();
    let s = g.get_size();
    assert_eq!((s.width, s.height), (7, 5));
    assert_eq!(values(&g).len(), 35);
}
