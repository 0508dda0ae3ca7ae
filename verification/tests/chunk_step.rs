use falling_sand::chunk::{SimulationHelperChunk, SimulatorChunkContext, CHUNK_AREA, CHUNK_SIZE};
use falling_sand::helper::SimulationHelper;
use falling_sand::material::{
    Color, Light, LightTexel, MaterialInstance, PhysicsType, LIGHT_FULL, TEST,
};
use falling_sand::particle::{Particle, Position};
use falling_sand::rect::Rect;
use falling_sand::rule::{Velocity, VELOCITY_SCALE};
use falling_sand::simulator::Simulator;

const SAND_ID: u16 = 7;

fn sand() -> MaterialInstance {
    MaterialInstance {
        material_id: SAND_ID,
        physics: PhysicsType::Sand,
        color: Color::rgba(200, 180, 90, 255),
        light: Light { r: 1, g: 2, b: 3 },
    }
}

fn solid() -> MaterialInstance {
    MaterialInstance {
        material_id: TEST,
        physics: PhysicsType::Solid,
        color: Color::rgb(40, 40, 40),
        light: Light { r: 0, g: 0, b: 0 },
    }
}

fn blank_chunk() -> SimulatorChunkContext {
    SimulatorChunkContext {
        pixels: vec![MaterialInstance::air(); CHUNK_AREA],
        colors: vec![0; CHUNK_AREA * 4],
        lights: vec![LightTexel { r: 0, g: 0, b: 0, a: 0 }; CHUNK_AREA],
        dirty: false,
        dirty_rect: None,
    }
}

fn blank_neighborhood() -> [SimulatorChunkContext; 9] {
    core::array::from_fn(|_| blank_chunk())
}

fn put(chunks: &mut [SimulatorChunkContext; 9], x: i32, y: i32, mat: MaterialInstance) {
    let (ch, px, _, _) = SimulationHelperChunk::local_to_indices(x, y);
    chunks[ch].pixels[px] = mat;
}

fn at(chunks: &[SimulatorChunkContext; 9], x: i32, y: i32) -> MaterialInstance {
    let (ch, px, _, _) = SimulationHelperChunk::local_to_indices(x, y);
    chunks[ch].pixels[px]
}

fn count_sand(chunks: &[SimulatorChunkContext; 9]) -> usize {
    chunks
        .iter()
        .map(|c| c.pixels.iter().filter(|p| p.physics == PhysicsType::Sand).count())
        .sum()
}

fn pixels_of(chunks: &[SimulatorChunkContext; 9]) -> Vec<Vec<MaterialInstance>> {
    chunks.iter().map(|c| c.pixels.clone()).collect()
}

#[test]
fn idle_chunk_is_left_alone_however_often_it_is_stepped() {
    let mut chunks = blank_neighborhood();
    put(&mut chunks, 50, 50, sand());
    chunks[0].dirty_rect = Some(Rect::<i32>::new(1, 2, 3, 4));
    chunks[7].dirty_rect = Some(Rect::<i32>::new(0, 0, 100, 100));
    chunks[7].dirty = true;
    let pixels = pixels_of(&chunks);
    let colors: Vec<Vec<u8>> = chunks.iter().map(|c| c.colors.clone()).collect();
    let lights: Vec<Vec<LightTexel>> = chunks.iter().map(|c| c.lights.clone()).collect();
    let mut particles: Vec<Particle> = Vec::new();

    for _ in 0..5 {
        Simulator::simulate_chunk(0, 0, &mut chunks, &mut particles);
        assert!(particles.is_empty());
        for (i, c) in chunks.iter().enumerate() {
            assert_eq!(c.dirty_rect, None);
            assert_eq!(c.pixels, pixels[i]);
            assert_eq!(c.colors, colors[i]);
            assert_eq!(c.lights, lights[i]);
        }
        assert!(chunks[7].dirty);
        assert!(!chunks[4].dirty);
    }
}

#[test]
fn isolated_pixel_ends_in_exactly_one_place() {
    for seed in 0..200u64 {
        let mut chunks = blank_neighborhood();
        put(&mut chunks, 50, 50, sand());
        chunks[4].dirty_rect = Some(Rect::<i32>::new(48, 48, 53, 53));
        let mut particles: Vec<Particle> = Vec::new();
        let rng = fastrand::Rng::with_seed(seed);

        Simulator::simulate_chunk_with(3, -2, &mut chunks, &mut particles, &rng);

        assert_eq!(at(&chunks, 50, 50), MaterialInstance::air());
        assert_eq!(count_sand(&chunks) + particles.len(), 1);
        if particles.is_empty() {
            let left = at(&chunks, 49, 51) == sand();
            let right = at(&chunks, 51, 51) == sand();
            assert!(left != right);
        } else {
            assert_eq!(particles[0].material, sand());
            assert_eq!(particles[0].pos, Position { x: 350, y: -150 });
            let v = particles[0].vel;
            assert!(-(VELOCITY_SCALE / 4) <= v.x && v.x < VELOCITY_SCALE / 4);
            assert!(VELOCITY_SCALE <= v.y && v.y < 2 * VELOCITY_SCALE);
        }
    }
}

#[test]
fn pixel_over_a_shaft_becomes_a_particle() {
    let mut chunks = blank_neighborhood();
    put(&mut chunks, 10, 20, sand());
    put(&mut chunks, 9, 21, solid());
    put(&mut chunks, 11, 21, solid());
    chunks[4].dirty_rect = Some(Rect::<i32>::new(10, 20, 11, 21));
    let mut particles = vec![Particle::new(solid(), Position { x: 1, y: 2 }, Velocity { x: 3, y: 4 })];

    Simulator::simulate_chunk(-1, 2, &mut chunks, &mut particles);

    assert_eq!(count_sand(&chunks), 0);
    assert_eq!(particles.len(), 2);
    assert_eq!(particles[0], Particle::new(solid(), Position { x: 1, y: 2 }, Velocity { x: 3, y: 4 }));
    assert_eq!(particles[1].material, sand());
    assert_eq!(particles[1].pos, Position { x: -90, y: 220 });
    assert_eq!(chunks[4].dirty_rect, Some(Rect::<i32>::new(10, 20, 11, 21)));
    for i in [0, 1, 2, 3, 5, 6, 7, 8] {
        assert_eq!(chunks[i].dirty_rect, None);
    }
}

#[test]
fn pixel_moves_with_its_colour_and_light_and_the_rectangle_is_tight() {
    let mut chunks = blank_neighborhood();
    put(&mut chunks, 50, 50, sand());
    put(&mut chunks, 50, 51, solid());
    put(&mut chunks, 51, 51, solid());
    put(&mut chunks, 48, 51, solid());
    chunks[4].dirty_rect = Some(Rect::<i32>::new(0, 0, 100, 100));
    let mut particles: Vec<Particle> = Vec::new();

    Simulator::simulate_chunk(0, 0, &mut chunks, &mut particles);

    assert!(particles.is_empty());
    assert_eq!(at(&chunks, 50, 50), MaterialInstance::air());
    assert_eq!(at(&chunks, 49, 51), sand());
    assert_eq!(chunks[4].dirty_rect, Some(Rect::<i32>::new(49, 50, 51, 52)));
    assert!(chunks[4].dirty);
    let moved = 49 + 51 * 100;
    assert_eq!(&chunks[4].colors[moved * 4..moved * 4 + 4], &[200, 180, 90, 255]);
    assert_eq!(chunks[4].lights[moved], LightTexel { r: 1, g: 2, b: 3, a: LIGHT_FULL });
    let left = 50 + 50 * 100;
    assert_eq!(&chunks[4].colors[left * 4..left * 4 + 4], &[0, 0, 0, 0]);
    assert_eq!(chunks[4].lights[left], LightTexel { r: 0, g: 0, b: 0, a: LIGHT_FULL });
}

#[test]
fn mirrored_configuration_gives_the_mirrored_result() {
    let flip = |x: i32| i32::from(CHUNK_SIZE) - 1 - x;
    let mut chunks = blank_neighborhood();
    let mut mirror = blank_neighborhood();
    for (x, y, mat) in [(50, 50, sand()), (50, 51, solid()), (51, 51, solid()), (48, 51, solid())] {
        put(&mut chunks, x, y, mat);
        put(&mut mirror, flip(x), y, mat);
    }
    chunks[4].dirty_rect = Some(Rect::<i32>::new(40, 40, 60, 60));
    mirror[4].dirty_rect = Some(Rect::<i32>::new(40, 40, 60, 60));
    let mut particles: Vec<Particle> = Vec::new();

    Simulator::simulate_chunk(0, 0, &mut chunks, &mut particles);
    Simulator::simulate_chunk(0, 0, &mut mirror, &mut particles);

    assert!(particles.is_empty());
    for y in 0..100 {
        for x in 0..100 {
            assert_eq!(at(&mirror, flip(x), y), at(&chunks, x, y));
        }
    }
    assert_eq!(at(&mirror, flip(49), 51), sand());
    assert_eq!(chunks[4].dirty_rect, Some(Rect::<i32>::new(49, 50, 51, 52)));
    assert_eq!(mirror[4].dirty_rect, Some(Rect::<i32>::new(49, 50, 51, 52)));
}

#[test]
fn pixel_falls_across_the_chunk_boundary() {
    let mut chunks = blank_neighborhood();
    put(&mut chunks, 30, 99, sand());
    put(&mut chunks, 29, 100, solid());
    put(&mut chunks, 31, 100, solid());
    put(&mut chunks, 30, 101, solid());
    chunks[4].dirty_rect = Some(Rect::<i32>::new(30, 99, 31, 100));
    let mut particles: Vec<Particle> = Vec::new();

    Simulator::simulate_chunk(0, 0, &mut chunks, &mut particles);

    assert!(particles.is_empty());
    assert_eq!(chunks[4].pixels[30 + 99 * 100], MaterialInstance::air());
    assert_eq!(chunks[7].pixels[30], sand());
    assert_eq!(chunks[4].dirty_rect, Some(Rect::<i32>::new(30, 99, 31, 100)));
    assert_eq!(chunks[7].dirty_rect, Some(Rect::<i32>::new(30, 0, 31, 1)));
    assert!(chunks[7].dirty);
}

#[test]
fn column_settles_and_keeps_its_sand() {
    for seed in 0..20u64 {
        let mut chunks = blank_neighborhood();
        for x in 0..100 {
            put(&mut chunks, x, 60, solid());
        }
        for y in 50..58 {
            put(&mut chunks, 50, y, sand());
        }
        chunks[4].dirty_rect = Some(Rect::<i32>::new(0, 0, 100, 100));
        let mut particles: Vec<Particle> = Vec::new();
        let rng = fastrand::Rng::with_seed(seed);

        let mut steps = 0;
        while chunks[4].dirty_rect.is_some() {
            Simulator::simulate_chunk_with(0, 0, &mut chunks, &mut particles, &rng);
            assert_eq!(count_sand(&chunks) + particles.len(), 8);
            steps += 1;
            assert!(steps <= 8 * 300 + 1);
        }
        assert_eq!(count_sand(&chunks) + particles.len(), 8);
        for p in &particles {
            assert_eq!(p.material, sand());
        }
        for y in 0..100 {
            for x in 0..100 {
                if at(&chunks, x, y).physics == PhysicsType::Sand {
                    assert!(y < 60);
                }
            }
        }
        for c in &chunks {
            assert_eq!(c.dirty_rect, None);
        }
    }
}

#[test]
fn column_on_the_floor_settles_without_particles() {
    for seed in 0..20u64 {
        let mut chunks = blank_neighborhood();
        for x in 0..100 {
            put(&mut chunks, x, 58, solid());
        }
        for y in 54..58 {
            put(&mut chunks, 50, y, sand());
        }
        chunks[4].dirty_rect = Some(Rect::<i32>::new(0, 0, 100, 100));
        let mut particles: Vec<Particle> = Vec::new();
        let rng = fastrand::Rng::with_seed(seed);

        let mut steps = 0;
        while chunks[4].dirty_rect.is_some() {
            Simulator::simulate_chunk_with(0, 0, &mut chunks, &mut particles, &rng);
            steps += 1;
            assert!(steps <= 4 * 300 + 1);
        }
        assert!(particles.is_empty());
        assert_eq!(count_sand(&chunks), 4);
        assert_eq!(at(&chunks, 50, 57), sand());
    }
}

#[test]
fn helper_reads_back_what_it_wrote() {
    let mut helper = SimulationHelperChunk {
        chunk_data: blank_neighborhood(),
        min_x: [CHUNK_SIZE + 1; 9],
        min_y: [CHUNK_SIZE + 1; 9],
        max_x: [0; 9],
        max_y: [0; 9],
        particles: Vec::new(),
        chunk_x: 5,
        chunk_y: 6,
    };
    helper.set_pixel_local(-1, 120, sand());
    helper.set_color_local(-1, 120, Color::rgba(1, 2, 3, 4));
    helper.set_light_local(-1, 120, Light { r: 9, g: 8, b: 7 });
    helper.set_pixel_local(-20, 110, solid());
    helper.add_particle(sand(), Position { x: -1, y: 120 }, Velocity { x: 0, y: VELOCITY_SCALE });

    assert_eq!(helper.get_pixel_local(-1, 120), sand());
    assert_eq!(*helper.borrow_pixel_local(-20, 110), solid());
    assert_eq!(helper.get_pixel_local(0, 120), MaterialInstance::air());
    assert_eq!(helper.get_color_local(-1, 120), Color::rgba(1, 2, 3, 4));
    assert_eq!(helper.get_light_local(-1, 120), Light { r: 9, g: 8, b: 7 });
    assert_eq!(helper.chunk_data[6].pixels[99 + 20 * 100], sand());
    assert!(helper.chunk_data[6].dirty);
    assert_eq!(helper.particles[0].pos, Position { x: 499, y: 720 });

    helper.finish_dirty_rects();
    assert_eq!(helper.chunk_data[6].dirty_rect, Some(Rect::<i32>::new(80, 10, 100, 21)));
    assert_eq!(helper.chunk_data[4].dirty_rect, None);
}

#[test]
fn rectangle_of_width_and_height() {
    assert_eq!(Rect::<i32>::new_wh(3, 4, 5, 6), Rect::<i32>::new(3, 4, 8, 10));
    assert_eq!(Rect::<i64>::new_wh(-3, -4, 5, 6), Rect::<i64>::new(-3, -4, 2, 2));
    let r = Rect::<i32>::new(1, 2, 3, 4);
    assert_eq!((r.left(), r.top(), r.right(), r.bottom()), (1, 2, 3, 4));
}

#[test]
fn pixel_with_room_falls_one_or_two_cells() {
    let mut one = 0;
    let mut two = 0;
    for seed in 0..64u64 {
        let mut chunks = blank_neighborhood();
        put(&mut chunks, 20, 30, sand());
        put(&mut chunks, 19, 31, solid());
        put(&mut chunks, 21, 31, solid());
        put(&mut chunks, 20, 33, solid());
        chunks[4].dirty_rect = Some(Rect::<i32>::new(20, 30, 21, 31));
        let mut particles: Vec<Particle> = Vec::new();
        let rng = fastrand::Rng::with_seed(seed);

        Simulator::simulate_chunk_with(0, 0, &mut chunks, &mut particles, &rng);

        assert!(particles.is_empty());
        assert_eq!(at(&chunks, 20, 30), MaterialInstance::air());
        assert_eq!(count_sand(&chunks), 1);
        if at(&chunks, 20, 31) == sand() {
            one += 1;
            assert_eq!(chunks[4].dirty_rect, Some(Rect::<i32>::new(20, 30, 21, 32)));
        } else {
            two += 1;
            assert_eq!(at(&chunks, 20, 32), sand());
            assert_eq!(chunks[4].dirty_rect, Some(Rect::<i32>::new(20, 30, 21, 33)));
        }
    }
    assert!(one > 0 && two > 0);
}

#[test]
fn solid_and_air_never_move() {
    let mut chunks = blank_neighborhood();
    put(&mut chunks, 20, 30, solid());
    chunks[4].dirty_rect = Some(Rect::<i32>::new(0, 0, 100, 100));
    chunks[2].dirty_rect = Some(Rect::<i32>::new(0, 0, 1, 1));
    let before = pixels_of(&chunks);
    let mut particles: Vec<Particle> = Vec::new();

    Simulator::simulate_chunk(0, 0, &mut chunks, &mut particles);

    assert_eq!(pixels_of(&chunks), before);
    assert!(particles.is_empty());
    for c in &chunks {
        assert_eq!(c.dirty_rect, None);
        assert!(!c.dirty);
    }
}
