use falling_sand::chunk::CHUNK_AREA;
use falling_sand::helper::SimulationHelper;
use falling_sand::material::{Color, Light, MaterialInstance, PhysicsType, TEST};
use falling_sand::particle::{Particle, Position};
use falling_sand::rigidbody::{FSRigidBody, Pose, SimulationHelperRigidBody};
use falling_sand::rule::Velocity;
use falling_sand::simulator::Simulator;
use falling_sand::world::{pixel_to_chunk_pos, ChunkHandler, WorldChunk};

fn sand() -> MaterialInstance {
    MaterialInstance {
        material_id: 7,
        physics: PhysicsType::Sand,
        color: Color::rgba(200, 180, 90, 255),
        light: Light { r: 0, g: 0, b: 0 },
    }
}

fn solid() -> MaterialInstance {
    MaterialInstance {
        material_id: TEST,
        physics: PhysicsType::Solid,
        color: Color::rgb(40, 40, 40),
        light: Light { r: 0, g: 0, b: 0 },
    }
}

fn pose(angle: f32, x: f32, y: f32) -> Pose {
    Pose { re: angle.cos().to_bits(), im: angle.sin().to_bits(), x: x.to_bits(), y: y.to_bits() }
}

fn upright(x: f32, y: f32) -> Pose {
    Pose { re: 1.0f32.to_bits(), im: 0.0f32.to_bits(), x: x.to_bits(), y: y.to_bits() }
}

fn quarter_turn(x: f32, y: f32) -> Pose {
    Pose { re: 0.0f32.to_bits(), im: 1.0f32.to_bits(), x: x.to_bits(), y: y.to_bits() }
}

fn world_chunk(chunk_x: i32, chunk_y: i32) -> WorldChunk {
    WorldChunk {
        chunk_x,
        chunk_y,
        pixels: vec![MaterialInstance::air(); CHUNK_AREA],
        colors: vec![0; CHUNK_AREA * 4],
    }
}

fn world_with(solids: &[(usize, usize)]) -> ChunkHandler {
    let mut chunk = world_chunk(0, 0);
    for &(x, y) in solids {
        chunk.pixels[x + y * 100] = solid();
        chunk.colors[(x + y * 100) * 4 + 3] = 255;
        chunk.colors[(x + y * 100) * 4] = 40;
    }
    ChunkHandler { loaded_chunks: vec![chunk] }
}

fn body(width: u16, height: u16, pose: Option<Pose>, filled: &[(usize, MaterialInstance)]) -> FSRigidBody {
    let mut pixels = vec![MaterialInstance::air(); usize::from(width) * usize::from(height)];
    for &(idx, mat) in filled {
        pixels[idx] = mat;
    }
    FSRigidBody { width, height, pixels, pose, image_dirty: false }
}

#[test]
fn pixel_that_cannot_move_leaves_the_body_alone() {
    let world = world_with(&[(10, 22), (11, 22), (12, 22)]);
    let mut bodies = vec![body(3, 3, Some(upright(10.0, 20.0)), &[(4, sand())])];
    let before = bodies[0].pixels.clone();
    let mut particles: Vec<Particle> = Vec::new();

    let needs_remesh = Simulator::simulate_rigidbodies(&world, &mut bodies, &mut particles);

    assert_eq!(needs_remesh, vec![false]);
    assert_eq!(bodies[0].pixels, before);
    assert!(!bodies[0].image_dirty);
    assert!(particles.is_empty());
}

#[test]
fn moved_pixel_lands_in_the_bodys_own_grid() {
    let world = world_with(&[(10, 22), (12, 22), (11, 23), (10, 23), (12, 23)]);
    let mut bodies = vec![body(3, 3, Some(upright(10.0, 20.0)), &[(4, sand())])];
    let mut particles: Vec<Particle> = Vec::new();

    let needs_remesh = Simulator::simulate_rigidbodies(&world, &mut bodies, &mut particles);

    assert_eq!(needs_remesh, vec![false]);
    assert_eq!(bodies[0].pixels[4], MaterialInstance::air());
    assert_eq!(bodies[0].pixels[7], sand());
    assert_eq!(bodies[0].pixels.iter().filter(|p| p.physics == PhysicsType::Sand).count(), 1);
    assert!(bodies[0].image_dirty);
    assert_eq!((bodies[0].width, bodies[0].height), (3, 3));
    assert!(particles.is_empty());
    assert_eq!(world.loaded_chunks[0].pixels[11 + 22 * 100], MaterialInstance::air());
}

#[test]
fn losing_a_solid_cell_asks_for_a_new_shape() {
    let world = world_with(&[(10, 22), (12, 22), (11, 23), (10, 23), (12, 23)]);
    let mut bodies = vec![body(3, 3, Some(upright(10.0, 20.0)), &[(4, sand()), (7, solid())])];
    let mut particles: Vec<Particle> = Vec::new();

    let needs_remesh = Simulator::simulate_rigidbodies(&world, &mut bodies, &mut particles);

    assert_eq!(needs_remesh, vec![true]);
    assert_eq!(bodies[0].pixels[4], MaterialInstance::air());
    assert_eq!(bodies[0].pixels[7], sand());
    assert!(!bodies[0].image_dirty);
}

#[test]
fn step_without_solid_changes_asks_for_no_new_shape() {
    for seed in 0..50u64 {
        let world = world_with(&[]);
        let mut bodies = vec![
            body(4, 4, Some(upright(30.0, 30.0)), &[(0, solid()), (5, sand()), (6, sand())]),
            body(2, 2, None, &[(0, sand())]),
        ];
        let solid_before: Vec<bool> =
            bodies[0].pixels.iter().map(|p| p.physics == PhysicsType::Solid).collect();
        let mut particles: Vec<Particle> = Vec::new();
        let rng = fastrand::Rng::with_seed(seed);

        let needs_remesh =
            Simulator::simulate_rigidbodies_with(&world, &mut bodies, &mut particles, &rng);

        let solid_after: Vec<bool> =
            bodies[0].pixels.iter().map(|p| p.physics == PhysicsType::Solid).collect();
        assert_eq!(needs_remesh[0], solid_before != solid_after);
        assert!(!needs_remesh[1]);
        assert_eq!(bodies[0].image_dirty, !needs_remesh[0]);
        assert_eq!(bodies[1].pixels[0], sand());
        assert!(!bodies[1].image_dirty);
        assert_eq!(bodies[0].pose, Some(upright(30.0, 30.0)));
    }
}

#[test]
fn another_body_blocks_the_way() {
    let world = world_with(&[]);
    let mut bodies = vec![
        body(3, 3, Some(upright(10.0, 20.0)), &[(4, sand())]),
        body(3, 1, Some(upright(10.0, 22.0)), &[(0, solid()), (1, solid()), (2, solid())]),
    ];
    let mut particles: Vec<Particle> = Vec::new();

    let needs_remesh = Simulator::simulate_rigidbodies(&world, &mut bodies, &mut particles);

    assert_eq!(needs_remesh, vec![false, false]);
    assert_eq!(bodies[0].pixels[4], sand());
    assert!(!bodies[0].image_dirty);
    assert!(!bodies[1].image_dirty);
}

#[test]
fn body_unknown_to_the_physics_engine_is_skipped() {
    let world = world_with(&[]);
    let mut bodies = vec![body(3, 3, None, &[(4, sand())])];
    let mut particles: Vec<Particle> = Vec::new();

    let needs_remesh = Simulator::simulate_rigidbodies(&world, &mut bodies, &mut particles);

    assert_eq!(needs_remesh, vec![false]);
    assert_eq!(bodies[0].pixels[4], sand());
    assert!(!bodies[0].image_dirty);
    assert!(particles.is_empty());
}

#[test]
fn no_bodies_no_verdicts() {
    let world = world_with(&[]);
    let mut bodies: Vec<FSRigidBody> = Vec::new();
    let mut particles: Vec<Particle> = Vec::new();
    assert!(Simulator::simulate_rigidbodies(&world, &mut bodies, &mut particles).is_empty());
}

#[test]
fn pixel_over_open_space_becomes_a_particle_at_its_world_place() {
    let world = world_with(&[(10, 22), (12, 22)]);
    let mut bodies = vec![body(3, 3, Some(upright(10.0, 20.0)), &[(4, sand())])];
    let mut particles: Vec<Particle> = Vec::new();

    let needs_remesh = Simulator::simulate_rigidbodies(&world, &mut bodies, &mut particles);

    assert_eq!(needs_remesh, vec![false]);
    assert_eq!(bodies[0].pixels[4], MaterialInstance::air());
    assert_eq!(particles.len(), 1);
    assert_eq!(particles[0].material, sand());
    assert_eq!(particles[0].pos, Position { x: 11, y: 21 });
    assert!(bodies[0].image_dirty);
}

#[test]
fn body_shows_its_pixels_where_its_pose_puts_them() {
    let turned = body(2, 1, Some(quarter_turn(10.0, 20.0)), &[(1, sand())]);
    assert_eq!(turned.covering(10, 21), Some(&sand()));
    assert_eq!(turned.covering(10, 20), None);
    assert_eq!(turned.covering(11, 20), None);

    let straight = body(2, 1, Some(upright(10.0, 20.0)), &[(1, sand())]);
    assert_eq!(straight.covering(11, 20), Some(&sand()));
    assert_eq!(straight.covering(10, 21), None);
    assert_eq!(straight.covering(12, 20), None);

    let half = body(2, 1, Some(pose(0.0, -5.5, 0.25)), &[(0, solid())]);
    assert_eq!(half.covering(-5, 0), Some(&solid()));

    let unplaced = body(2, 1, None, &[(1, sand())]);
    assert_eq!(unplaced.covering(1, 0), None);
}

#[test]
fn cell_lookup_checks_bounds_and_air() {
    let b = body(3, 2, None, &[(5, sand())]);
    assert_eq!(b.pixel_in((2, 1)), Some(&sand()));
    assert_eq!(b.pixel_in((1, 1)), None);
    assert_eq!(b.pixel_in((3, 1)), None);
    assert_eq!(b.pixel_in((2, 2)), None);
    assert_eq!(b.pixel_in((-1, 0)), None);
    assert_eq!(b.pixel_in((0, -1)), None);
}

#[test]
fn helper_resolves_reads_by_priority() {
    let world = world_with(&[(11, 21)]);
    let bodies = vec![
        body(3, 3, Some(upright(10.0, 20.0)), &[(4, sand()), (5, sand())]),
        body(3, 3, Some(upright(10.0, 20.0)), &[(4, sand()), (8, solid())]),
    ];
    let mut helper = SimulationHelperRigidBody {
        air: MaterialInstance::air(),
        chunk_handler: &world,
        rigidbodies: bodies,
        particles: Vec::new(),
        acting: 0,
        dirty: false,
        needs_remesh: false,
    };
    // the world's own pixel comes first
    assert_eq!(helper.get_pixel_local(11, 21), solid());
    assert_eq!(helper.get_color_local(11, 21), Color::rgba(40, 0, 0, 255));
    // then another body's pixel; the acting body's own pixels are not seen
    assert_eq!(helper.get_pixel_local(12, 22), solid());
    assert_eq!(helper.get_color_local(12, 22), Color::rgb(40, 40, 40));
    assert_eq!(helper.get_pixel_local(12, 21), MaterialInstance::air());
    assert_eq!(*helper.borrow_pixel_local(12, 21), MaterialInstance::air());
    assert_eq!(helper.get_color_local(12, 21), Color::rgba(0, 0, 0, 0));
    // where no chunk is loaded there is air
    assert_eq!(helper.get_pixel_local(-500, 7), MaterialInstance::air());
    assert_eq!(helper.get_light_local(11, 21), Light { r: 0, g: 0, b: 0 });

    helper.set_color_local(12, 22, Color::rgb(1, 1, 1));
    helper.set_light_local(12, 22, Light { r: 1, g: 1, b: 1 });
    assert!(!helper.dirty);
    helper.set_pixel_local(500, 500, solid());
    assert!(!helper.dirty);
    helper.set_pixel_local(10, 20, solid());
    assert!(helper.dirty && helper.needs_remesh);
    assert_eq!(helper.rigidbodies[0].pixels[0], solid());
    assert_eq!(helper.rigidbodies[1].pixels[0], MaterialInstance::air());

    helper.acting = 1;
    assert_eq!(helper.get_pixel_local(12, 21), sand());
    helper.add_particle(sand(), Position { x: 3, y: 4 }, Velocity { x: 5, y: 6 });
    assert_eq!(helper.particles, vec![Particle::new(sand(), Position { x: 3, y: 4 }, Velocity { x: 5, y: 6 })]);
}

#[test]
fn world_lookup_uses_floor_division() {
    assert_eq!(pixel_to_chunk_pos(0, 0), (0, 0));
    assert_eq!(pixel_to_chunk_pos(-1, -100), (-1, -1));
    assert_eq!(pixel_to_chunk_pos(-101, 199), (-2, 1));

    let mut west = world_chunk(-1, 0);
    west.pixels[99 + 5 * 100] = sand();
    west.colors[(99 + 5 * 100) * 4 + 1] = 77;
    let mut twin = world_chunk(-1, 0);
    twin.pixels[99 + 5 * 100] = solid();
    let world = ChunkHandler { loaded_chunks: vec![world_chunk(0, 0), west, twin] };

    assert_eq!(world.get(-1, 5), Some(&sand()));
    assert_eq!(world.get(0, 5), Some(&MaterialInstance::air()));
    assert_eq!(world.get(100, 5), None);
    assert_eq!(world.get(-1, -1), None);
    assert_eq!(world.get_color(-1, 5), Some(Color::rgba(0, 77, 0, 0)));
    assert_eq!(world.get_color(-1, 100), None);
    assert_eq!(world.get_chunk(-1, 0).map(|c| c.pixels[99 + 5 * 100]), Some(sand()));
    assert!(world.get_chunk(0, 1).is_none());
    assert_eq!(world.loaded_chunks[0].get_color(100, 0), None);
    assert_eq!(world.loaded_chunks[0].get_color(0, 0), Some(Color::rgba(0, 0, 0, 0)));
}
