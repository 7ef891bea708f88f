use rusty_fractals::area::Area;
use rusty_fractals::domain::{Domain, DEFAULT_CHUNKS};
use rusty_fractals::domain_element::{DomainElement, DomainElementState};
use rusty_fractals::fractal::{
    CalculationConfig, FractalConfig, FractalDefinition, GloriousHead, Math, NebulaSide,
    ResolutionMultiplier,
};
use rusty_fractals::machine::{ChunkResult, ConfigError, Machine};
use rusty_fractals::mem::{Mem, MemPhoenix, MemType};
use rusty_fractals::result_data::ResultData;
use rusty_fractals::result_pixels::ResultPixels;
use rusty_fractals::scalar::Scalar;

const NAME: &str = "Glorious Head";
const PHOENIX_INIT_C: f64 = 0.35;
const PHOENIX_INIT_P: f64 = -0.25;
const PHOENIX_INIT_PHOENIX_INITIALIZER: f64 = 1.0;

/// Double precision numbers as the engine's scalar.
#[derive(Clone, Copy, Debug, PartialEq)]
struct F(f64);

impl Scalar for F {
    fn spec_plus(self, rhs: Self) -> Self {
        self.plus(rhs)
    }

    fn spec_minus(self, rhs: Self) -> Self {
        self.minus(rhs)
    }

    fn spec_times(self, rhs: Self) -> Self {
        self.times(rhs)
    }

    fn spec_divide(self, rhs: Self) -> Self {
        self.divide(rhs)
    }

    fn spec_less_than(self, rhs: Self) -> bool {
        self.less_than(rhs)
    }

    fn spec_from_count(n: u32) -> Self {
        Self::from_count(n)
    }

    fn spec_truncate(self) -> u32 {
        self.truncate()
    }

    fn plus(self, rhs: Self) -> Self {
        F(self.0 + rhs.0)
    }

    fn minus(self, rhs: Self) -> Self {
        F(self.0 - rhs.0)
    }

    fn times(self, rhs: Self) -> Self {
        F(self.0 * rhs.0)
    }

    fn divide(self, rhs: Self) -> Self {
        F(self.0 / rhs.0)
    }

    fn less_than(self, rhs: Self) -> bool {
        self.0 < rhs.0
    }

    fn from_count(n: u32) -> Self {
        F(n as f64)
    }

    fn truncate(self) -> u32 {
        self.0 as u32
    }
}

fn nebula() -> NebulaSide {
    NebulaSide { name: "Nebula side".to_string() }
}

fn glorious_head() -> GloriousHead<F> {
    GloriousHead {
        name: NAME.to_string(),
        c: F(PHOENIX_INIT_C),
        p: F(PHOENIX_INIT_P),
        phoenix_initializer: F(PHOENIX_INIT_PHOENIX_INITIALIZER),
    }
}

fn definition(iteration_min: u32, iteration_max: u32, area_size: f64) -> FractalDefinition<F> {
    FractalDefinition {
        iteration_min,
        iteration_max,
        area_size: F(area_size),
        target_re: F(0.0),
        target_im: F(0.0),
    }
}

fn config(width: u32, height: u32) -> FractalConfig {
    FractalConfig {
        resolution_width: width,
        resolution_height: height,
        resolution_multiplier: ResolutionMultiplier::Single,
        repeat: false,
        save_images: false,
    }
}

fn machine_10x10() -> Machine<F> {
    Machine::new(&definition(2, 50, 4.0), &config(10, 10), F(4.0), 5, 1).unwrap()
}

fn total(pixels: &ResultPixels) -> u64 {
    let mut sum = 0u64;
    for x in 0..pixels.width {
        for y in 0..pixels.height {
            sum += pixels.value_at(x, y) as u64;
        }
    }
    sum
}

#[test]
fn test_math() {
    let glorious_head = glorious_head();
    let m = Mem { re: F(0.0), im: F(0.0) };
    let mut mp = MemPhoenix {
        m,
        c: F(PHOENIX_INIT_C),
        p: F(PHOENIX_INIT_P),
        prev_prev_re: F(PHOENIX_INIT_PHOENIX_INITIALIZER),
        prev_prev_im: F(PHOENIX_INIT_PHOENIX_INITIALIZER),
        prev_re: F(PHOENIX_INIT_PHOENIX_INITIALIZER),
        prev_im: F(PHOENIX_INIT_PHOENIX_INITIALIZER),
    };

    glorious_head.math(&mut mp, F(1.0), F(0.1));

    assert_eq!(mp.re().0, 1.1);
    assert_eq!(mp.im().0, -0.15);
}

#[test]
fn main_test_math() {
    let nebula = nebula();
    let mut m = Mem { re: F(0.0), im: F(0.0) };
    Math::<F>::math(&nebula, &mut m, F(1.0), F(0.1));
    assert_eq!(m.re.0, 1.0);
    assert_eq!(m.im.0, 0.1);
}

#[test]
fn phoenix_math_shifts_history() {
    let glorious_head = glorious_head();
    let mut mp = glorious_head.new_mem(F(0.0), F(0.0));
    glorious_head.math(&mut mp, F(1.0), F(0.1));
    // the history holds the value before the origin was added
    assert_eq!(mp.prev_re.0, 0.35 + -0.25);
    assert_eq!(mp.prev_im.0, -0.25);
    assert_eq!(mp.prev_prev_re.0, 1.0);
    assert_eq!(mp.prev_prev_im.0, 1.0);
    assert_eq!(mp.c.0, 0.35);
    assert_eq!(mp.p.0, -0.25);
}

#[test]
fn mem_square_plus_quadrance() {
    let mut m = Mem::new(F(3.0), F(2.0));
    assert_eq!(m.quadrance().0, 13.0);
    m.square();
    assert_eq!((m.re, m.im), (F(5.0), F(12.0)));
    m.plus(F(-1.0), F(0.5));
    assert_eq!((m.re, m.im), (F(4.0), F(12.5)));
}

#[test]
fn quadratic_orbit_of_minus_one_alternates() {
    let nebula = nebula();
    let mut m: Mem<F> = nebula.new_mem(F(-1.0), F(0.0));
    assert_eq!((m.re, m.im), (F(-1.0), F(0.0)));
    nebula.math(&mut m, F(-1.0), F(0.0));
    assert_eq!(m.re.0, 0.0);
    nebula.math(&mut m, F(-1.0), F(0.0));
    assert_eq!(m.re.0, -1.0);
}

#[test]
fn area_layout() {
    let area = Area::new(F(4.0), F(1.0), F(-1.0), 8, 4).unwrap();
    assert_eq!(area.width_re.0, 4.0);
    assert_eq!(area.height_im.0, 2.0);
    assert_eq!(area.border_low_re.0, -1.0);
    assert_eq!(area.border_high_re.0, 3.0);
    assert_eq!(area.border_low_im.0, -2.0);
    assert_eq!(area.border_high_im.0, 0.0);
    assert_eq!(area.scale_x.0, 0.5);
    assert_eq!(area.scale_y.0, 0.5);
    assert_eq!((area.width_x, area.height_y), (8, 4));
}

#[test]
fn area_refuses_degenerate_layouts() {
    assert!(Area::new(F(4.0), F(0.0), F(0.0), 0, 4).is_none());
    assert!(Area::new(F(4.0), F(0.0), F(0.0), 4, 0).is_none());
    assert!(Area::new(F(0.0), F(0.0), F(0.0), 4, 4).is_none());
    assert!(Area::new(F(-1.0), F(0.0), F(0.0), 4, 4).is_none());
    assert!(Area::new(F(f64::NAN), F(0.0), F(0.0), 4, 4).is_none());
    assert!(Area::new(F(4.0), F(0.0), F(0.0), 4, 4).is_some());
}

#[test]
fn area_contains_is_strict_and_in_the_plane() {
    let area = Area::new(F(4.0), F(0.0), F(0.0), 10, 10).unwrap();
    assert!(area.contains(F(0.0), F(0.0)));
    assert!(area.contains(F(-1.999), F(1.999)));
    assert!(!area.contains(F(-2.0), F(0.0)));
    assert!(!area.contains(F(2.0), F(0.0)));
    assert!(!area.contains(F(0.0), F(2.0)));
    assert!(!area.contains(F(0.0), F(-2.5)));
    assert!(!area.contains(F(f64::NAN), F(0.0)));
}

#[test]
fn area_to_plane_is_affine() {
    let area = Area::new(F(4.0), F(0.0), F(0.0), 8, 8).unwrap();
    assert_eq!(area.to_plane(0, 0), (F(-1.75), F(-1.75)));
    assert_eq!(area.to_plane(1, 0), (F(-1.25), F(-1.75)));
    assert_eq!(area.to_plane(7, 3), (F(1.75), F(-0.25)));
}

#[test]
fn area_round_trip_returns_the_pixel() {
    let area = Area::new(F(7.0), F(-0.10675625916322415), F(-0.8914368889277283), 64, 36).unwrap();
    for x in 0..64 {
        for y in 0..36 {
            let (re, im) = area.to_plane(x, y);
            assert!(area.contains(re, im));
            assert_eq!(area.to_pixel(re, im), Some((x, y)));
        }
    }
}

#[test]
fn area_to_pixel_outside_is_none() {
    let area = Area::new(F(4.0), F(0.0), F(0.0), 8, 8).unwrap();
    assert_eq!(area.to_pixel(F(-1.9), F(1.9)), Some((0, 7)));
    assert_eq!(area.to_pixel(F(0.1), F(0.1)), Some((4, 4)));
    assert_eq!(area.to_pixel(F(2.1), F(0.0)), None);
    assert_eq!(area.to_pixel(F(0.0), F(-3.0)), None);
    assert_eq!(area.to_pixel(F(f64::NAN), F(0.0)), None);
    assert_eq!(area.to_pixel(F(f64::INFINITY), F(0.0)), None);
}

#[test]
fn domain_new_places_a_fresh_point_in_every_pixel() {
    let area = Area::new(F(4.0), F(0.0), F(0.0), 4, 2).unwrap();
    let domain = Domain::new(&area, 2, 7).unwrap();
    assert_eq!((domain.width, domain.height, domain.chunks, domain.seed), (4, 2, 2, 7));
    assert_eq!(domain.elements.len(), 4);
    for x in 0..4u32 {
        assert_eq!(domain.elements[x as usize].len(), 2);
        for y in 0..2u32 {
            let el = &domain.elements[x as usize][y as usize];
            assert_eq!((el.origin_re, el.origin_im), area.to_plane(x, y));
            assert_eq!(el.state, DomainElementState::ActiveNew);
            assert_eq!((el.iterator, el.length), (0, 0));
            assert_eq!(domain.mask[x as usize][y as usize], DomainElementState::ActiveNew);
        }
    }
}

#[test]
fn domain_refuses_no_chunks() {
    let area = Area::new(F(4.0), F(0.0), F(0.0), 4, 4).unwrap();
    assert!(Domain::new(&area, 0, 0).is_none());
    assert_eq!(DEFAULT_CHUNKS, 20);
    assert!(Domain::new(&area, DEFAULT_CHUNKS, 0).is_some());
}

#[test]
fn make_chunk_goes_column_by_column() {
    let area = Area::new(F(4.0), F(0.0), F(0.0), 4, 4).unwrap();
    let domain = Domain::new(&area, 2, 0).unwrap();
    let chunk = domain.make_chunk(1, 3, 2, 4);
    let origins: Vec<(F, F)> = chunk.iter().map(|el| (el.origin_re, el.origin_im)).collect();
    assert_eq!(
        origins,
        vec![area.to_plane(1, 2), area.to_plane(1, 3), area.to_plane(2, 2), area.to_plane(2, 3)]
    );
    assert!(domain.make_chunk(2, 2, 0, 4).is_empty());
    assert!(domain.make_chunk(0, 4, 1, 1).is_empty());
}

#[test]
fn put_chunk_is_the_inverse_of_make_chunk() {
    let area = Area::new(F(4.0), F(0.0), F(0.0), 4, 4).unwrap();
    let mut domain = Domain::new(&area, 2, 0).unwrap();
    let mut chunk = domain.make_chunk(1, 3, 2, 4);
    for (k, el) in chunk.iter_mut().enumerate() {
        el.set_finished_state(k as u32 + 10, k as u32, 2, 50);
    }
    domain.put_chunk(1, 3, 2, 4, &chunk);
    assert_eq!(domain.elements[1][2].iterator, 10);
    assert_eq!(domain.elements[1][3].iterator, 11);
    assert_eq!(domain.elements[2][2].iterator, 12);
    assert_eq!(domain.elements[2][3].iterator, 13);
    assert_eq!(domain.elements[2][3].state, DomainElementState::GoodPath);
    assert_eq!(domain.elements[0][2].state, DomainElementState::ActiveNew);
    assert_eq!(domain.elements[1][1].state, DomainElementState::ActiveNew);
    assert_eq!(domain.elements[3][3].state, DomainElementState::ActiveNew);
    assert_eq!(domain.make_chunk(1, 3, 2, 4).len(), 4);
    assert_eq!(domain.make_chunk(1, 3, 2, 4)[3].length, 3);
}

#[test]
fn chunks_cover_every_cell_exactly_once() {
    let area = Area::new(F(4.0), F(0.0), F(0.0), 20, 10).unwrap();
    let domain = Domain::new(&area, 5, 0).unwrap();
    let mut seen = vec![vec![0u32; 10]; 20];
    for cx in 0..5u32 {
        for cy in 0..5u32 {
            let (x_from, x_to, y_from, y_to) = domain.chunk_bounds([cx, cy]);
            assert_eq!((x_to - x_from, y_to - y_from), (4, 2));
            assert_eq!(domain.make_chunk(x_from, x_to, y_from, y_to).len(), 8);
            for x in x_from..x_to {
                for y in y_from..y_to {
                    seen[x][y] += 1;
                }
            }
        }
    }
    assert!(seen.iter().all(|column| column.iter().all(|&n| n == 1)));
}

#[test]
fn chunks_leave_out_the_remainder_of_an_uneven_grid() {
    let area = Area::new(F(4.0), F(0.0), F(0.0), 7, 7).unwrap();
    let domain = Domain::new(&area, 3, 0).unwrap();
    assert_eq!(domain.chunk_bounds([0, 0]), (0, 2, 0, 2));
    assert_eq!(domain.chunk_bounds([2, 1]), (4, 6, 2, 4));
}

#[test]
fn shuffled_coordinates_are_a_permutation() {
    let area = Area::new(F(4.0), F(0.0), F(0.0), 20, 20).unwrap();
    let mut domain = Domain::new(&area, 20, 42).unwrap();
    let coordinates = domain.shuffled_calculation_coordinates();
    assert_eq!(coordinates.len(), 400);
    let mut seen = vec![vec![0u32; 20]; 20];
    for xy in &coordinates {
        assert!(xy[0] < 20 && xy[1] < 20);
        seen[xy[0] as usize][xy[1] as usize] += 1;
    }
    assert!(seen.iter().all(|column| column.iter().all(|&n| n == 1)));
    let ordered: Vec<[u32; 2]> =
        (0..20u32).flat_map(|cx| (0..20u32).map(move |cy| [cx, cy])).collect();
    assert_ne!(coordinates, ordered);
}

#[test]
fn shuffled_coordinates_follow_the_seed() {
    let area = Area::new(F(4.0), F(0.0), F(0.0), 8, 8).unwrap();
    let mut first = Domain::new(&area, 4, 42).unwrap();
    let mut second = Domain::new(&area, 4, 42).unwrap();
    let mut third = Domain::new(&area, 4, 43).unwrap();
    let a = first.shuffled_calculation_coordinates();
    let b = second.shuffled_calculation_coordinates();
    let c = third.shuffled_calculation_coordinates();
    assert_eq!(a, b);
    assert_ne!(a, c);
    assert_eq!(first.seed, second.seed);
    assert_ne!(first.seed, 42);
    // the source has moved on: the next frame gets another order
    let next = first.shuffled_calculation_coordinates();
    assert_ne!(a, next);
    assert_eq!(next.len(), 16);
}

#[test]
fn shuffle_of_a_single_chunk() {
    let area = Area::new(F(4.0), F(0.0), F(0.0), 8, 8).unwrap();
    let mut domain = Domain::new(&area, 1, 5).unwrap();
    assert_eq!(domain.shuffled_calculation_coordinates(), vec![[0, 0]]);
    assert_eq!(domain.seed, 5);
}

#[test]
fn shuffle_draws_from_the_documented_source() {
    let area = Area::new(F(4.0), F(0.0), F(0.0), 8, 8).unwrap();
    let mut domain = Domain::new(&area, 2, 0).unwrap();
    let coordinates = domain.shuffled_calculation_coordinates();
    // by hand: the positions 3, 2, 1 are settled with three draws from 0
    let mut expected = vec![[0u32, 0u32], [0, 1], [1, 0], [1, 1]];
    let mut state: u64 = 0;
    for position in (1..4usize).rev() {
        state = state.wrapping_mul(6364136223846793005).wrapping_add(1442695040888963407);
        let other = ((state / 0x2_0000_0000) % (position as u64 + 1)) as usize;
        expected.swap(position, other);
    }
    assert_eq!(coordinates, expected);
    assert_eq!(domain.seed, state);
}

#[test]
fn mask_full_update_shows_the_states() {
    let area = Area::new(F(4.0), F(0.0), F(0.0), 4, 4).unwrap();
    let mut domain = Domain::new(&area, 2, 0).unwrap();
    domain.elements[1][2].set_finished_state(50, 10, 2, 50);
    domain.elements[3][0].set_finished_state(1, 0, 2, 50);
    assert_eq!(domain.mask[1][2], DomainElementState::ActiveNew);
    domain.mask_full_update();
    assert_eq!(domain.mask[1][2], DomainElementState::TooLong);
    assert_eq!(domain.mask[3][0], DomainElementState::TooShort);
    assert_eq!(domain.mask[0][0], DomainElementState::ActiveNew);
}

#[test]
fn activate_all_marks_finished_points_active() {
    let area = Area::new(F(4.0), F(0.0), F(0.0), 2, 2).unwrap();
    let mut domain = Domain::new(&area, 1, 0).unwrap();
    domain.elements[0][1].set_finished_state(50, 10, 2, 50);
    domain.elements[1][1].state = DomainElementState::Hibernated;
    domain.activate_all();
    assert_eq!(domain.elements[0][0].state, DomainElementState::ActiveNew);
    assert_eq!(domain.elements[0][1].state, DomainElementState::Active);
    assert_eq!((domain.elements[0][1].iterator, domain.elements[0][1].length), (50, 10));
    assert_eq!(domain.elements[1][1].state, DomainElementState::Active);
}

#[test]
fn machine_refuses_degenerate_configurations() {
    let refused = |d: &FractalDefinition<F>, c: &FractalConfig, chunks: u32| {
        Machine::new(d, c, F(4.0), chunks, 0).err()
    };
    assert_eq!(
        refused(&definition(50, 50, 4.0), &config(10, 10), 5),
        Some(ConfigError::IterationBounds)
    );
    assert_eq!(
        refused(&definition(51, 50, 0.0), &config(0, 10), 0),
        Some(ConfigError::IterationBounds)
    );
    assert_eq!(refused(&definition(2, 50, 0.0), &config(10, 10), 0), Some(ConfigError::EmptyArea));
    assert_eq!(refused(&definition(2, 50, 4.0), &config(10, 0), 5), Some(ConfigError::EmptyArea));
    assert_eq!(refused(&definition(2, 50, 4.0), &config(10, 10), 0), Some(ConfigError::NoChunks));
    assert_eq!(refused(&definition(2, 50, 4.0), &config(10, 10), 5), None);
}

#[test]
fn machine_new_keeps_the_configuration() {
    let machine = Machine::new(&definition(8, 2500, 4.5), &config(16, 9), F(4.0), 3, 11).unwrap();
    assert_eq!(machine.calculation_config.iteration_min, 8);
    assert_eq!(machine.calculation_config.iteration_max, 2500);
    assert_eq!(machine.calculation_config.boundary, F(4.0));
    assert_eq!((machine.area.width_x, machine.area.height_y), (16, 9));
    assert_eq!(machine.area.width_re, F(4.5));
    assert_eq!((machine.domain.width, machine.domain.height), (16, 9));
    assert_eq!((machine.domain.chunks, machine.domain.seed), (3, 11));
    assert_eq!(machine.result_config.resolution_multiplier, ResolutionMultiplier::Single);
    assert!(!machine.result_config.repeat);
    assert!(!machine.result_config.save_images);
}

#[test]
fn origin_zero_is_bounded_and_leaves_no_path() {
    let machine = machine_10x10();
    let mut el = DomainElement::new(F(0.0), F(0.0));
    let mut result = ResultData::new(machine.area);
    machine.calculate_path_finite(&mut el, &nebula(), &mut result);
    assert_eq!(el.state, DomainElementState::TooLong);
    assert_eq!(el.iterator, 50);
    assert_eq!(el.iterator, machine.calculation_config.iteration_max);
    assert_eq!(el.length, 50);
    assert!(result.paths.is_empty());
    assert_eq!((el.origin_re, el.origin_im), (F(0.0), F(0.0)));
}

#[test]
fn origin_past_the_boundary_stops_at_once() {
    let machine = machine_10x10();
    let mut el = DomainElement::new(F(2.0), F(2.0));
    let mut result = ResultData::new(machine.area);
    machine.calculate_path_finite(&mut el, &nebula(), &mut result);
    assert_eq!((el.iterator, el.length), (0, 0));
    assert_eq!(el.state, DomainElementState::TooShort);
    assert!(result.paths.is_empty());
}

#[test]
fn escaping_origin_records_its_path() {
    // 0.3 -> 0.39 -> 0.4521 -> ... leaves the boundary after 11 steps; the last
    // of them lands outside the area, the 10 before it lie inside
    let machine = machine_10x10();
    let mut el = DomainElement::new(F(0.3), F(0.0));
    let mut result = ResultData::new(machine.area);
    machine.calculate_path_finite(&mut el, &nebula(), &mut result);

    let mut z = 0.3f64;
    let mut expected = Vec::new();
    let mut steps = 0;
    while z * z + 0.0 * 0.0 < 4.0 && steps < 50 {
        z = z * z - 0.0 * 0.0 + 0.3;
        if -2.0 < z && z < 2.0 {
            expected.push([F(z), F(0.0)]);
        }
        steps += 1;
    }
    assert_eq!(steps, 11);
    assert_eq!(expected.len(), 10);

    assert_eq!(el.iterator, 11);
    assert_eq!(el.length, 10);
    assert_eq!(el.state, DomainElementState::GoodPath);
    assert_eq!(result.paths, vec![expected]);
    assert_eq!(result.paths[0][0], [F(0.39), F(0.0)]);
}

#[test]
fn short_escape_is_classified_and_not_recorded() {
    // 1.0 -> 2.0, which is at the boundary: one step, and it lands outside the area
    let machine = machine_10x10();
    let mut el = DomainElement::new(F(1.0), F(0.0));
    let mut result = ResultData::new(machine.area);
    machine.calculate_path_finite(&mut el, &nebula(), &mut result);
    assert_eq!((el.iterator, el.length), (1, 0));
    assert_eq!(el.state, DomainElementState::TooShort);
    assert!(result.paths.is_empty());
}

#[test]
fn phoenix_family_runs_through_the_same_algorithm() {
    let machine = machine_10x10();
    let mut el = DomainElement::new(F(0.0), F(0.0));
    let mut result = ResultData::new(machine.area);
    machine.calculate_path_finite(&mut el, &glorious_head(), &mut result);

    let head = glorious_head();
    let mut mp = head.new_mem(F(0.0), F(0.0));
    let mut steps = 0;
    let mut inside = 0;
    while mp.quadrance().0 < 4.0 && steps < 50 {
        head.math(&mut mp, F(0.0), F(0.0));
        if machine.area.contains(mp.re(), mp.im()) {
            inside += 1;
        }
        steps += 1;
    }
    assert_eq!((el.iterator, el.length), (steps, inside));
}

#[test]
fn chunk_calculation_skips_inactive_points() {
    let mut machine = machine_10x10();
    machine.domain.elements[0][0].state = DomainElementState::Hibernated;
    machine.domain.elements[0][1].state = DomainElementState::Finished;
    let mut result = ResultData::new(machine.area);
    let chunk = machine.chunk_calculation([0, 0], &nebula(), &mut result);
    assert_eq!(chunk.len(), 4);
    assert_eq!(chunk[0].state, DomainElementState::Hibernated);
    assert_eq!(chunk[1].state, DomainElementState::Finished);
    assert_eq!((chunk[0].iterator, chunk[1].iterator), (0, 0));
    assert!(!chunk[2].state.is_active());
    assert!(!chunk[3].state.is_active());
    // the grid itself is only read
    assert_eq!(machine.domain.elements[1][0].state, DomainElementState::ActiveNew);
}

#[test]
fn chunk_calculation_matches_the_single_points() {
    let machine = Machine::new(&definition(2, 50, 4.0), &config(10, 10), F(4.0), 2, 1).unwrap();
    let mut result = ResultData::new(machine.area);
    let chunk = machine.chunk_calculation([1, 0], &nebula(), &mut result);
    let mut expected_paths = ResultData::new(machine.area);
    let mut k = 0;
    for x in 5..10 {
        for y in 0..5 {
            let mut el = machine.domain.elements[x][y];
            machine.calculate_path_finite(&mut el, &nebula(), &mut expected_paths);
            assert_eq!((chunk[k].origin_re, chunk[k].origin_im), (el.origin_re, el.origin_im));
            assert_eq!(
                (chunk[k].state, chunk[k].iterator, chunk[k].length),
                (el.state, el.iterator, el.length)
            );
            k += 1;
        }
    }
    assert_eq!(k, 25);
    assert_eq!(result.paths, expected_paths.paths);
}

#[test]
fn start_frame_marks_all_points_and_draws_the_order() {
    let mut machine = machine_10x10();
    machine.domain.elements[3][4].set_finished_state(50, 50, 2, 50);
    machine.domain.elements[9][9].state = DomainElementState::Hibernated;
    let mut twin = machine_10x10();
    let coordinates = machine.start_frame();
    assert_eq!(coordinates, twin.domain.shuffled_calculation_coordinates());
    assert_eq!(machine.domain.seed, twin.domain.seed);
    assert_eq!(machine.domain.elements[3][4].state, DomainElementState::Active);
    assert_eq!(machine.domain.elements[3][4].iterator, 50);
    assert_eq!(machine.domain.elements[9][9].state, DomainElementState::Active);
    assert_eq!(machine.domain.elements[0][0].state, DomainElementState::ActiveNew);
    assert_eq!(coordinates.len(), 25);
}

#[test]
fn finish_frame_takes_results_in_any_order() {
    let mut forth = machine_10x10();
    let mut back = machine_10x10();
    let coordinates = forth.start_frame();
    back.start_frame();
    let result_of = |machine: &Machine<F>, xy: [u32; 2]| {
        let mut paths = ResultData::new(machine.area);
        let elements = machine.chunk_calculation(xy, &nebula(), &mut paths);
        ChunkResult { xy, elements, paths }
    };
    let results: Vec<ChunkResult<F>> = coordinates.iter().map(|xy| result_of(&forth, *xy)).collect();
    let reversed: Vec<ChunkResult<F>> =
        coordinates.iter().rev().map(|xy| result_of(&back, *xy)).collect();
    let first = forth.finish_frame(&results);
    let second = back.finish_frame(&reversed);
    assert_eq!(first.pixels, second.pixels);
    assert!(total(&first) > 0);
    for x in 0..10 {
        for y in 0..10 {
            assert_eq!(forth.domain.elements[x][y].state, back.domain.elements[x][y].state);
            assert_eq!(forth.domain.mask[x][y], forth.domain.elements[x][y].state);
            assert!(!forth.domain.elements[x][y].state.is_active());
        }
    }
}

#[test]
fn finish_frame_leaves_out_results_that_do_not_fit() {
    let mut machine = machine_10x10();
    let area = machine.area;
    let mut el = DomainElement::new(F(9.0), F(9.0));
    el.set_finished_state(7, 7, 2, 50);
    let path = |re: f64| {
        let mut paths = ResultData::new(area);
        paths.add_escape_path_long(vec![[F(re), F(0.1)]]);
        paths
    };
    let results = vec![
        // no chunk of the grid
        ChunkResult { xy: [5, 0], elements: vec![el; 4], paths: path(-1.9) },
        // one element short
        ChunkResult { xy: [0, 0], elements: vec![el; 3], paths: path(-1.9) },
        // fits: the chunk of the columns 2..4 and the rows 4..6
        ChunkResult { xy: [1, 2], elements: vec![el; 4], paths: path(1.9) },
    ];
    let pixels = machine.finish_frame(&results);
    for x in 0..10 {
        for y in 0..10 {
            let put = (2..4).contains(&x) && (4..6).contains(&y);
            let state = machine.domain.elements[x][y].state;
            assert_eq!(state == DomainElementState::GoodPath, put);
            assert_eq!(machine.domain.elements[x][y].iterator, if put { 7 } else { 0 });
            assert_eq!(machine.domain.mask[x][y], state);
        }
    }
    assert_eq!(machine.domain.elements[2][4].origin_re, F(9.0));
    // the paths of all three are counted
    assert_eq!(pixels.value_at(0, 5), 2);
    assert_eq!(pixels.value_at(9, 5), 1);
    assert_eq!(total(&pixels), 3);
}

#[test]
fn finish_frame_of_nothing_is_a_blank_histogram() {
    let mut machine = machine_10x10();
    let pixels = machine.finish_frame(&Vec::new());
    assert_eq!((pixels.width, pixels.height), (10, 10));
    assert_eq!(total(&pixels), 0);
    assert_eq!(machine.domain.elements[0][0].state, DomainElementState::ActiveNew);
}

#[test]
fn calculate_classifies_the_whole_grid() {
    let mut machine = machine_10x10();
    let fresh = machine_10x10();
    let pixels = machine.calculate(&nebula());
    assert_eq!((pixels.width, pixels.height), (10, 10));

    let mut paths = ResultData::new(fresh.area);
    let mut good = 0;
    for x in 0..10 {
        for y in 0..10 {
            let mut el = fresh.domain.elements[x][y];
            fresh.calculate_path_finite(&mut el, &nebula(), &mut paths);
            let after = &machine.domain.elements[x][y];
            assert_eq!((after.origin_re, after.origin_im), (el.origin_re, el.origin_im));
            assert_eq!((after.state, after.iterator, after.length), (el.state, el.iterator, el.length));
            assert_eq!(machine.domain.mask[x][y], el.state);
            assert!(!after.state.is_active());
            if el.state == DomainElementState::GoodPath {
                good += 1;
            }
        }
    }
    assert_eq!(paths.paths.len(), good);
    assert!(good > 0);

    // whatever the order of the chunks was, the histogram is that of all paths
    let mut expected = ResultPixels::new(10, 10);
    paths.translate_paths_to_pixel_grid(&mut expected);
    assert_eq!(pixels.pixels, expected.pixels);
    let points: usize = paths.paths.iter().map(|path| path.len()).sum();
    assert_eq!(total(&pixels), points as u64);
}

#[test]
fn calculate_leaves_the_remainder_of_an_uneven_grid() {
    let mut machine =
        Machine::new(&definition(2, 50, 4.0), &config(7, 7), F(4.0), 3, 9).unwrap();
    machine.domain.elements[6][6].state = DomainElementState::Finished;
    machine.calculate(&nebula());
    for x in 0..7 {
        for y in 0..7 {
            let el = &machine.domain.elements[x][y];
            if x < 6 && y < 6 {
                assert!(!el.state.is_active());
            } else if x == 6 && y == 6 {
                assert_eq!(el.state, DomainElementState::Active);
            } else {
                assert_eq!(el.state, DomainElementState::ActiveNew);
            }
        }
    }
}

#[test]
fn calculate_twice_gives_the_same_histogram() {
    let mut machine = machine_10x10();
    let first = machine.calculate(&nebula());
    let seed_after_first = machine.domain.seed;
    let second = machine.calculate(&nebula());
    assert_ne!(machine.domain.seed, seed_after_first);
    assert_eq!(first.pixels, second.pixels);
}

#[test]
fn translation_counts_points_inside_the_grid() {
    let area = Area::new(F(4.0), F(0.0), F(0.0), 4, 4).unwrap();
    let mut result = ResultData::new(area);
    result.add_escape_path_long(vec![[F(-1.5), F(-1.5)], [F(0.5), F(0.5)], [F(5.0), F(0.0)]]);
    result.add_escape_path_long(vec![]);
    result.add_escape_path_long(vec![[F(0.6), F(0.7)], [F(1.9), F(-1.9)], [F(0.0), F(f64::NAN)]]);
    assert_eq!(result.paths.len(), 3);

    let mut first = ResultPixels::new(4, 4);
    result.translate_paths_to_pixel_grid(&mut first);
    assert_eq!(first.value_at(0, 0), 1);
    assert_eq!(first.value_at(2, 2), 2);
    assert_eq!(first.value_at(3, 0), 1);
    assert_eq!(first.value_at(1, 1), 0);
    // six points, two of them outside
    assert_eq!(total(&first), 4);

    let mut second = ResultPixels::new(4, 4);
    result.translate_paths_to_pixel_grid(&mut second);
    assert_eq!(first.pixels, second.pixels);

    // a second translation into the same grid adds up
    result.translate_paths_to_pixel_grid(&mut second);
    assert_eq!(second.value_at(2, 2), 4);
    assert_eq!(total(&second), 8);
}

#[test]
fn translation_does_not_depend_on_the_order_of_paths() {
    let area = Area::new(F(4.0), F(0.0), F(0.0), 4, 4).unwrap();
    let a = vec![[F(-1.5), F(-1.5)], [F(0.5), F(0.5)]];
    let b = vec![[F(0.6), F(0.7)], [F(1.9), F(-1.9)]];
    let mut forth = ResultData::new(area);
    forth.add_escape_path_long(a.clone());
    forth.add_escape_path_long(b.clone());
    let mut back = ResultData::new(area);
    back.add_escape_path_long(b);
    back.add_escape_path_long(a);
    let mut first = ResultPixels::new(4, 4);
    let mut second = ResultPixels::new(4, 4);
    forth.translate_paths_to_pixel_grid(&mut first);
    back.translate_paths_to_pixel_grid(&mut second);
    assert_eq!(first.pixels, second.pixels);
}

#[test]
fn translation_into_a_smaller_grid_clips() {
    let area = Area::new(F(4.0), F(0.0), F(0.0), 4, 4).unwrap();
    let mut result = ResultData::new(area);
    result.add_escape_path_long(vec![[F(-1.5), F(-1.5)], [F(1.5), F(1.5)]]);
    let mut pixels = ResultPixels::new(2, 2);
    result.translate_paths_to_pixel_grid(&mut pixels);
    assert_eq!(pixels.value_at(0, 0), 1);
    assert_eq!(total(&pixels), 1);
}

#[test]
fn a_cell_stops_counting_at_the_largest_count() {
    let mut pixels = ResultPixels::new(2, 2);
    pixels.pixels[1][0] = u32::MAX - 1;
    pixels.add(1, 0);
    assert_eq!(pixels.value_at(1, 0), u32::MAX);
    pixels.add(1, 0);
    assert_eq!(pixels.value_at(1, 0), u32::MAX);
    assert_eq!(pixels.value_at(0, 0), 0);
}

#[test]
fn calculation_config_is_plain_data() {
    let config = CalculationConfig { iteration_min: 42, iteration_max: 14800, boundary: F(4.0) };
    assert_eq!((config.iteration_min, config.iteration_max), (42, 14800));
}
