use geoprop::grid::{disk_cells, included_rings};

const CELL: u64 = 0x89283080dcbffff;
const PENTAGON: u64 = 0x8009fffffffffff;
const SQRT_3: f32 = 1.732_050_8;

fn first_ring() -> Vec<u64> {
    let mut ring = vec![
        0x89283080ddbffff,
        0x89283080c37ffff,
        0x89283080c27ffff,
        0x89283080d53ffff,
        0x89283080dcfffff,
        0x89283080dc3ffff,
    ];
    ring.sort_unstable();
    ring
}

fn second_ring() -> Vec<u64> {
    let mut ring = vec![
        0x89283080ca7ffff,
        0x89283080cafffff,
        0x89283080c33ffff,
        0x89283080c23ffff,
        0x89283080c2fffff,
        0x89283080d5bffff,
        0x89283080d43ffff,
        0x89283080d57ffff,
        0x89283080d1bffff,
        0x89283080dc7ffff,
        0x89283080dd7ffff,
        0x89283080dd3ffff,
    ];
    ring.sort_unstable();
    ring
}

fn within_radius(res: u8, max_radius_km: f32, ring: u32) -> bool {
    let edge_length = h3o::Resolution::try_from(res).unwrap().edge_length_km() as f32;
    ring as f32 <= max_radius_km / (edge_length * SQRT_3)
}

#[test]
fn no_rings_no_cells() {
    assert_eq!(disk_cells(CELL, 0), Vec::<u64>::new());
}

#[test]
fn ring_zero_is_the_cell() {
    assert_eq!(disk_cells(CELL, 1), vec![CELL]);
}

#[test]
fn first_ring_holds_the_six_neighbours() {
    let cells = disk_cells(CELL, 2);
    assert_eq!(cells.len(), 7);
    assert_eq!(cells[0], CELL);
    let mut ring = cells[1..].to_vec();
    ring.sort_unstable();
    assert_eq!(ring, first_ring());
}

#[test]
fn second_ring_follows_the_first() {
    let cells = disk_cells(CELL, 3);
    assert_eq!(cells.len(), 19);
    let mut inner = cells[1..7].to_vec();
    inner.sort_unstable();
    assert_eq!(inner, first_ring());
    let mut outer = cells[7..].to_vec();
    outer.sort_unstable();
    assert_eq!(outer, second_ring());
}

#[test]
fn ring_order_is_that_of_the_grid() {
    let origin = h3o::CellIndex::try_from(CELL).unwrap();
    let mut expected = Vec::new();
    for k in 0..5 {
        let ring: Option<Vec<h3o::CellIndex>> = origin.grid_ring_fast(k).collect();
        for cell in ring.unwrap() {
            expected.push(u64::from(cell));
        }
    }
    assert_eq!(disk_cells(CELL, 5), expected);
}

#[test]
fn smaller_disk_begins_the_larger() {
    let small = disk_cells(CELL, 4);
    let large = disk_cells(CELL, 9);
    assert_eq!(small.len(), 1 + 6 + 12 + 18);
    assert_eq!(large.len(), 1 + 3 * 8 * 9);
    assert_eq!(&large[..small.len()], &small[..]);
}

#[test]
fn disk_names_no_cell_twice() {
    let mut cells = disk_cells(CELL, 12);
    let before = cells.len();
    assert_eq!(before, 1 + 3 * 11 * 12);
    cells.sort_unstable();
    cells.dedup();
    assert_eq!(cells.len(), before);
}

#[test]
fn ring_around_a_pentagon_contributes_nothing() {
    assert_eq!(disk_cells(PENTAGON, 3), vec![PENTAGON]);
}

#[test]
fn ring_that_meets_a_pentagon_contributes_nothing() {
    // A neighbour of the pentagon: its first ring holds the pentagon.
    let neighbour: u64 = 0x8007fffffffffff;
    assert_eq!(disk_cells(neighbour, 2), vec![neighbour]);
}

#[test]
fn what_is_no_cell_has_no_rings() {
    assert_eq!(disk_cells(0, 3), Vec::<u64>::new());
    assert_eq!(disk_cells(u64::MAX, 1), Vec::<u64>::new());
    // An edge index, not a cell index.
    assert_eq!(disk_cells(0x115283473fffffff, 2), Vec::<u64>::new());
}

#[test]
fn rings_are_counted_up_to_the_first_refusal() {
    let up_to = |_res: u8, bound: u32, ring: u32| ring <= bound;
    assert_eq!(included_rings(10, 0, &up_to), 1);
    assert_eq!(included_rings(10, 5, &up_to), 6);
    assert_eq!(included_rings(3, 91, &up_to), 92);
    let never = |_res: u8, _bound: u32, _ring: u32| false;
    assert_eq!(included_rings(10, 7, &never), 0);
    let gap = |_res: u8, _bound: u32, ring: u32| ring != 3;
    assert_eq!(included_rings(10, 7, &gap), 3);
}

#[test]
fn ring_rule_sees_its_arguments() {
    let rule = |res: u8, radius: i64, ring: u32| {
        assert_eq!(res, 9);
        assert_eq!(radius, -4);
        ring < 2
    };
    assert_eq!(included_rings(9, -4, &rule), 2);
}

#[test]
fn ring_count_follows_the_radius() {
    // floor(12 / (0.075863786 * 1.7320508)) + 1
    assert_eq!(included_rings(10, 12.0_f32, &within_radius), 92);
    assert_eq!(included_rings(10, 0.0_f32, &within_radius), 1);
    assert_eq!(included_rings(10, -0.0_f32, &within_radius), 1);
    assert_eq!(included_rings(10, -1.0_f32, &within_radius), 0);
    assert_eq!(included_rings(10, f32::NAN, &within_radius), 0);
    // floor(100 / (9.854091 * 1.7320508)) + 1
    assert_eq!(included_rings(5, 100.0_f32, &within_radius), 6);
    // floor(1 / (1281.256 * 1.7320508)) + 1
    assert_eq!(included_rings(0, 1.0_f32, &within_radius), 1);
}

#[test]
fn wider_radius_keeps_every_ring() {
    let mut last = 0;
    for tenth_km in 0..60 {
        let rings = included_rings(9, tenth_km as f32 / 10.0, &within_radius);
        assert!(rings >= last);
        last = rings;
    }
    assert_eq!(last, 17);
}
