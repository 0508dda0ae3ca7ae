use falling_sand::ecs::{FilePersistent, GameEntity};
use falling_sand::material::{Color, MaterialInstance, PhysicsType, TEST};
use falling_sand::rect::Rect;
use falling_sand::template::{
    init_structure_templates, make_test_structure, AngleMod, Direction, MaterialBuf,
    StructureNodeConfig, StructureNodeGlobalPlacement, StructureNodeLocalPlacement,
};

#[test]
fn config_builders_set_one_field_each() {
    let c = StructureNodeConfig::new("rooms");
    assert_eq!(c.pool, "rooms");
    assert!(!c.depth_override);
    assert!(c.block_in_dirs.is_none());

    let c = c.override_depth();
    assert_eq!(c.pool, "rooms");
    assert!(c.depth_override);
    assert!(c.block_in_dirs.is_none());

    let c = c.block_in_dirs(vec![Direction::Up, Direction::Left]);
    assert_eq!(c.pool, "rooms");
    assert!(c.depth_override);
    assert_eq!(c.block_in_dirs, Some(vec![Direction::Up, Direction::Left]));
    assert!(c.blocks(Direction::Left));
    assert!(!c.blocks(Direction::Down));

    let d = c.duplicate();
    assert_eq!((d.pool, d.depth_override, d.block_in_dirs), ("rooms", true, c.block_in_dirs));
    assert!(!StructureNodeConfig::new("x").blocks(Direction::Up));
}

#[test]
fn directions_turn_clockwise_on_the_screen() {
    assert_eq!(Direction::Up.opposite(), Direction::Down);
    assert_eq!(Direction::Left.opposite(), Direction::Right);
    assert_eq!(Direction::Up.rotated(AngleMod::Clockwise90), Direction::Right);
    assert_eq!(Direction::Right.rotated(AngleMod::Clockwise90), Direction::Down);
    assert_eq!(Direction::Left.rotated(AngleMod::CounterClockwise90), Direction::Down);
    assert_eq!(Direction::Down.rotated(AngleMod::Angle180), Direction::Up);
    assert_eq!(Direction::Up.angle(Direction::Left), AngleMod::CounterClockwise90);
    for from in [Direction::Up, Direction::Down, Direction::Left, Direction::Right] {
        assert_eq!(from.rotated(AngleMod::Straight), from);
        for to in [Direction::Up, Direction::Down, Direction::Left, Direction::Right] {
            assert_eq!(from.rotated(from.angle(to)), to);
        }
    }
}

#[test]
fn points_turn_about_a_pivot() {
    let pivot = (10, 20);
    assert_eq!(AngleMod::Straight.rotate_point((13, 21), pivot), (13, 21));
    assert_eq!(AngleMod::Clockwise90.rotate_point((13, 21), pivot), (9, 23));
    assert_eq!(AngleMod::Angle180.rotate_point((13, 21), pivot), (7, 19));
    assert_eq!(AngleMod::CounterClockwise90.rotate_point((13, 21), pivot), (11, 17));
}

#[test]
fn buffer_needs_one_pixel_per_cell() {
    assert!(MaterialBuf::new(3, 2, vec![MaterialInstance::air(); 5]).is_err());
    let mut buf = MaterialBuf::new(3, 2, vec![MaterialInstance::air(); 6]).unwrap();
    let wall = MaterialInstance {
        material_id: TEST,
        physics: PhysicsType::Solid,
        color: Color::rgb(1, 2, 3),
        light: falling_sand::material::Light { r: 0, g: 0, b: 0 },
    };
    buf.set(2, 1, wall);
    buf.set(3, 0, wall);
    buf.set(0, 2, wall);
    assert_eq!(buf.materials.iter().filter(|m| **m == wall).count(), 1);
    assert_eq!(buf.materials[5], wall);
}

#[test]
fn scaffold_has_a_shaded_rim_with_gaps_at_the_nodes() {
    let nodes = vec![
        (
            StructureNodeLocalPlacement { x: 0, y: 16, direction_out: Direction::Left },
            StructureNodeConfig::new("rooms"),
        ),
        (
            StructureNodeLocalPlacement { x: 100, y: 16, direction_out: Direction::Right },
            StructureNodeConfig::new("rooms"),
        ),
    ];
    let t = make_test_structure(100, 32, nodes);
    assert_eq!((t.buf.width, t.buf.height, t.buf.materials.len()), (100, 32, 3200));
    assert_eq!(t.child_nodes.len(), 2);
    let at = |x: usize, y: usize| t.buf.materials[x + y * 100];

    assert_eq!(at(0, 0).physics, PhysicsType::Solid);
    assert_eq!(at(0, 0).material_id, TEST);
    assert_eq!(at(0, 0).color, Color::rgba(0, 0, 0, 255));
    assert_eq!(at(50, 0).color, Color::rgba(127, 0, 0, 255));
    assert_eq!(at(99, 31).color, Color::rgba(252, 247, 0, 255));
    assert_eq!(at(3, 4).physics, PhysicsType::Solid);
    assert_eq!(at(3, 5), MaterialInstance::air());
    assert_eq!(at(4, 4), MaterialInstance::air());
    assert_eq!(at(50, 16), MaterialInstance::air());
    assert_eq!(at(0, 16), MaterialInstance::air());
    assert_eq!(at(0, 5), MaterialInstance::air());
    assert_eq!(at(0, 4).physics, PhysicsType::Solid);
    assert_eq!(at(0, 27), MaterialInstance::air());
    assert_eq!(at(0, 28).physics, PhysicsType::Solid);
    assert_eq!(at(99, 16), MaterialInstance::air());
    assert_eq!(at(88, 16), MaterialInstance::air());
    assert_eq!(at(96, 4).physics, PhysicsType::Solid);
    assert_eq!(at(96, 5), MaterialInstance::air());
    assert_eq!(at(95, 4), MaterialInstance::air());
}

#[test]
fn registry_holds_the_four_scaffolds() {
    let registry = init_structure_templates();
    let names: Vec<&str> = registry.iter().map(|(name, _)| *name).collect();
    assert_eq!(names, vec!["a", "a2", "b", "b2"]);
    let sizes: Vec<(u16, u16, usize)> =
        registry.iter().map(|(_, t)| (t.buf.width, t.buf.height, t.child_nodes.len())).collect();
    assert_eq!(sizes, vec![(120, 120, 5), (200, 100, 2), (100, 32, 2), (80, 80, 2)]);
    assert_eq!(registry[0].1.child_nodes[3].0, StructureNodeLocalPlacement { x: 40, y: 0, direction_out: Direction::Up });
    assert_eq!(registry[0].1.child_nodes[3].1.pool, "hallways");
    assert_eq!(registry[1].1.child_nodes[1].1.block_in_dirs, Some(vec![Direction::Up, Direction::Down]));
    assert!(registry[2].1.child_nodes[0].1.depth_override);
    assert_eq!(registry[3].1.child_nodes[1].1.pool, "rooms_or_straight_hallways");
    assert_eq!(registry[3].1.buf.materials[0].physics, PhysicsType::Solid);
    assert_eq!(registry[3].1.buf.materials[40 + 40 * 80], MaterialInstance::air());
}

#[test]
fn template_is_offered_once_for_each_willing_node() {
    let registry = init_structure_templates();
    let crossing = &registry[0].1;
    let opts = crossing.options((1000, 2000), Direction::Right);
    assert_eq!(opts.len(), 5);

    let (bounds, children, angle) = &opts[0];
    assert_eq!(*angle, AngleMod::Straight);
    assert_eq!(*bounds, Rect::<i64>::new(1000, 1940, 1120, 2060));
    let placed: Vec<StructureNodeGlobalPlacement> = children.iter().map(|c| c.0).collect();
    assert_eq!(
        placed,
        vec![
            StructureNodeGlobalPlacement { x: 1120, y: 1980, direction_out: Direction::Right },
            StructureNodeGlobalPlacement { x: 1120, y: 2020, direction_out: Direction::Right },
            StructureNodeGlobalPlacement { x: 1040, y: 1940, direction_out: Direction::Up },
            StructureNodeGlobalPlacement { x: 1080, y: 2060, direction_out: Direction::Down },
        ]
    );
    assert!(children.iter().all(|c| c.1.pool == "hallways" && !c.1.depth_override));

    let (bounds, children, angle) = &opts[1];
    assert_eq!(*angle, AngleMod::Angle180);
    assert_eq!(*bounds, Rect::<i64>::new(1000, 1920, 1120, 2040));
    assert_eq!(children.len(), 4);
    assert_eq!(
        children[0].0,
        StructureNodeGlobalPlacement { x: 1120, y: 1980, direction_out: Direction::Right }
    );
    assert_eq!(
        children[1].0,
        StructureNodeGlobalPlacement { x: 1000, y: 1960, direction_out: Direction::Left }
    );

    let (bounds, _, angle) = &opts[3];
    assert_eq!(*angle, AngleMod::CounterClockwise90);
    assert_eq!((bounds.left(), bounds.top()), (1000, 1920));
    assert_eq!((bounds.x2, bounds.y2), (1120, 2040));
}

#[test]
fn node_that_refuses_a_direction_gives_no_option() {
    let registry = init_structure_templates();
    let hallway = &registry[1].1;
    assert!(hallway.options((0, 0), Direction::Up).is_empty());
    assert!(hallway.options((0, 0), Direction::Down).is_empty());
    let opts = hallway.options((-50, 70), Direction::Left);
    assert_eq!(opts.len(), 2);
    assert_eq!(opts[1].2, AngleMod::Straight);
    assert_eq!(opts[1].0, Rect::<i64>::new(-250, 50, -50, 150));
    assert_eq!(opts[0].2, AngleMod::Angle180);
    assert_eq!(opts[0].1[0].1.block_in_dirs, Some(vec![Direction::Up, Direction::Down]));
}

#[test]
fn markers_are_plain_values() {
    assert_eq!(FilePersistent, FilePersistent);
    assert_eq!(GameEntity, GameEntity.clone());
}
