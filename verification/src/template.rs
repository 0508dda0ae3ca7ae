//! Structure templates: a rectangular buffer of material with nodes on its
//! rim where further structures may be attached, and the ways in which a
//! template can be attached to a node that faces a given direction.

use vstd::prelude::*;
use crate::material::{Color, Light, MaterialInstance, PhysicsType, TEST, air_pixel};
use crate::rect::Rect;

verus! {

/// One of the four directions of the grid. Rows grow downwards.
#[derive(Clone, Copy, Debug, PartialEq, Eq, Hash, Structural)]
pub enum Direction {
    Up,
    Down,
    Left,
    Right,
}

/// A rotation by a number of quarter turns.
#[derive(Clone, Copy, Debug, PartialEq, Eq, Hash, Structural)]
pub enum AngleMod {
    Straight,
    Clockwise90,
    Angle180,
    CounterClockwise90,
}

/// How far from the origin a template may be attached, on either axis.
pub const ORIGIN_LIMIT: i64 = 0x4000_0000_0000_0000;

/// Width of the rim of a scaffold structure.
pub const RIM: u16 = 4;

/// A scaffold's rim is left open closer than this to a node, on both axes.
pub const NODE_CLEARANCE: u32 = 12;

impl Direction {
    /// The number of clockwise quarter turns that lead from `Up` to this
    /// direction.
    pub open spec fn turns(self) -> int {
        match self {
            Direction::Up => 0,
            Direction::Right => 1,
            Direction::Down => 2,
            Direction::Left => 3,
        }
    }

    /// The direction that many clockwise quarter turns from `Up`.
    pub open spec fn of_turns(t: int) -> Direction {
        if t % 4 == 0 {
            Direction::Up
        } else if t % 4 == 1 {
            Direction::Right
        } else if t % 4 == 2 {
            Direction::Down
        } else {
            Direction::Left
        }
    }

    /// The direction that faces this one.
    pub fn opposite(self) -> (d: Direction)
        ensures
            d == Direction::of_turns(self.turns() + 2),
    {
        match self {
            Direction::Up => Direction::Down,
            Direction::Down => Direction::Up,
            Direction::Left => Direction::Right,
            Direction::Right => Direction::Left,
        }
    }

    /// The rotation that turns this direction into `other`.
    pub fn angle(self, other: Direction) -> (a: AngleMod)
        ensures
            a == AngleMod::of_turns(other.turns() - self.turns()),
    {
        match (self, other) {
            (Direction::Up, Direction::Up) => AngleMod::Straight,
            (Direction::Up, Direction::Right) => AngleMod::Clockwise90,
            (Direction::Up, Direction::Down) => AngleMod::Angle180,
            (Direction::Up, Direction::Left) => AngleMod::CounterClockwise90,
            (Direction::Right, Direction::Right) => AngleMod::Straight,
            (Direction::Right, Direction::Down) => AngleMod::Clockwise90,
            (Direction::Right, Direction::Left) => AngleMod::Angle180,
            (Direction::Right, Direction::Up) => AngleMod::CounterClockwise90,
            (Direction::Down, Direction::Down) => AngleMod::Straight,
            (Direction::Down, Direction::Left) => AngleMod::Clockwise90,
            (Direction::Down, Direction::Up) => AngleMod::Angle180,
            (Direction::Down, Direction::Right) => AngleMod::CounterClockwise90,
            (Direction::Left, Direction::Left) => AngleMod::Straight,
            (Direction::Left, Direction::Up) => AngleMod::Clockwise90,
            (Direction::Left, Direction::Right) => AngleMod::Angle180,
            (Direction::Left, Direction::Down) => AngleMod::CounterClockwise90,
        }
    }

    /// This direction turned by `angle`.
    pub fn rotated(self, angle: AngleMod) -> (d: Direction)
        ensures
            d == Direction::of_turns(self.turns() + angle.turns()),
    {
        match angle {
            AngleMod::Straight => self,
            AngleMod::Clockwise90 => match self {
                Direction::Up => Direction::Right,
                Direction::Right => Direction::Down,
                Direction::Down => Direction::Left,
                Direction::Left => Direction::Up,
            },
            AngleMod::Angle180 => self.opposite(),
            AngleMod::CounterClockwise90 => match self {
                Direction::Up => Direction::Left,
                Direction::Left => Direction::Down,
                Direction::Down => Direction::Right,
                Direction::Right => Direction::Up,
            },
        }
    }
}

impl AngleMod {
    /// The number of clockwise quarter turns.
    pub open spec fn turns(self) -> int {
        match self {
            AngleMod::Straight => 0,
            AngleMod::Clockwise90 => 1,
            AngleMod::Angle180 => 2,
            AngleMod::CounterClockwise90 => 3,
        }
    }

    /// The rotation by that many clockwise quarter turns.
    pub open spec fn of_turns(t: int) -> AngleMod {
        if t % 4 == 0 {
            AngleMod::Straight
        } else if t % 4 == 1 {
            AngleMod::Clockwise90
        } else if t % 4 == 2 {
            AngleMod::Angle180
        } else {
            AngleMod::CounterClockwise90
        }
    }

    /// Where a point comes to lie when it is turned about a pivot. On the
    /// screen, with rows growing downwards, a clockwise quarter turn takes
    /// the offset `(dx, dy)` to `(-dy, dx)`.
    pub open spec fn turned(self, point: (int, int), pivot: (int, int)) -> (int, int) {
        let dx = point.0 - pivot.0;
        let dy = point.1 - pivot.1;
        match self {
            AngleMod::Straight => point,
            AngleMod::Clockwise90 => (pivot.0 - dy, pivot.1 + dx),
            AngleMod::Angle180 => (pivot.0 - dx, pivot.1 - dy),
            AngleMod::CounterClockwise90 => (pivot.0 + dy, pivot.1 - dx),
        }
    }

    /// Turns a point about a pivot.
    pub fn rotate_point(&self, point: (i64, i64), pivot: (i64, i64)) -> (p: (i64, i64))
        requires
            -ORIGIN_LIMIT <= pivot.0 <= ORIGIN_LIMIT,
            -ORIGIN_LIMIT <= pivot.1 <= ORIGIN_LIMIT,
            -ORIGIN_LIMIT < point.0 - pivot.0 < ORIGIN_LIMIT,
            -ORIGIN_LIMIT < point.1 - pivot.1 < ORIGIN_LIMIT,
        ensures
            (p.0 as int, p.1 as int) == self.turned(
                (point.0 as int, point.1 as int),
                (pivot.0 as int, pivot.1 as int),
            ),
    {
        let dx = point.0 - pivot.0;
        let dy = point.1 - pivot.1;
        match self {
            AngleMod::Straight => point,
            AngleMod::Clockwise90 => (pivot.0 - dy, pivot.1 + dx),
            AngleMod::Angle180 => (pivot.0 - dx, pivot.1 - dy),
            AngleMod::CounterClockwise90 => (pivot.0 + dy, pivot.1 - dx),
        }
    }
}

/// Turning a direction by the angle that leads from it to another gives
/// that other direction, and a turned direction is turned back by the
/// opposite angle.
pub proof fn lemma_angle_leads_to(from: Direction, to: Direction)
    ensures
        Direction::of_turns(from.turns() + AngleMod::of_turns(to.turns() - from.turns()).turns())
            == to,
        Direction::of_turns(from.turns()) == from,
{
}

/// Turning a point keeps its distance from the pivot on the grid, and four
/// quarter turns bring it back.
pub proof fn lemma_quarter_turns(point: (int, int), pivot: (int, int))
    ensures
        AngleMod::Angle180.turned(point, pivot) == AngleMod::Clockwise90.turned(
            AngleMod::Clockwise90.turned(point, pivot),
            pivot,
        ),
        AngleMod::CounterClockwise90.turned(AngleMod::Clockwise90.turned(point, pivot), pivot)
            == point,
        AngleMod::Angle180.turned(AngleMod::Angle180.turned(point, pivot), pivot) == point,
{
}

/// Names a pool of structures from which a node's child is drawn.
pub type StructurePoolID = &'static str;

/// A rectangular buffer of pixels, row by row.
#[derive(Debug, Clone)]
pub struct MaterialBuf {
    pub width: u16,
    pub height: u16,
    pub materials: Vec<MaterialInstance>,
}

impl MaterialBuf {
    /// The buffer holds one pixel for every cell.
    pub open spec fn wf(self) -> bool {
        self.materials@.len() == self.width * self.height
    }

    /// Makes a buffer of the given size from its pixels; fails exactly if
    /// their number is not that of the cells.
    pub fn new(width: u16, height: u16, materials: Vec<MaterialInstance>) -> (r: Result<
        MaterialBuf,
        String,
    >)
        ensures
            r is Ok <==> materials@.len() == width * height,
            r matches Ok(buf) ==> buf.width == width && buf.height == height && buf.materials
                == materials,
    {
        assert(width * height <= 0xFFFF * 0xFFFF) by (nonlinear_arith)
            requires
                0 <= width <= 0xFFFF,
                0 <= height <= 0xFFFF,
        ;
        if materials.len() == width as usize * height as usize {
            Ok(MaterialBuf { width, height, materials })
        } else {
            Err("incorrect materials size".to_owned())
        }
    }

    /// Replaces the pixel in column `x` and row `y`, if there is such a
    /// cell.
    pub fn set(&mut self, x: u16, y: u16, mat: MaterialInstance)
        requires
            old(self).wf(),
        ensures
            final(self).wf(),
            final(self).width == old(self).width,
            final(self).height == old(self).height,
            final(self).materials@ == if x < old(self).width && y < old(self).height {
                old(self).materials@.update(x + y * old(self).width, mat)
            } else {
                old(self).materials@
            },
    {
        if x < self.width && y < self.height {
            assert(0 <= y * self.width && x + y * self.width < self.width * self.height <= 0xFFFF
                * 0xFFFF) by (nonlinear_arith)
                requires
                    0 <= x < self.width <= 0xFFFF,
                    0 <= y < self.height <= 0xFFFF,
            ;
            self.materials[x as usize + y as usize * self.width as usize] = mat;
        }
    }
}

/// A structure that can be placed in the world: its pixels and the nodes
/// at which further structures attach.
#[derive(Debug, Clone)]
pub struct StructureTemplate {
    pub buf: MaterialBuf,
    pub child_nodes: Vec<(StructureNodeLocalPlacement, StructureNodeConfig)>,
}

/// Where a node sits in its template, and which way it faces.
#[derive(Debug, Clone, Copy, PartialEq, Eq, Structural)]
pub struct StructureNodeLocalPlacement {
    pub x: u32,
    pub y: u32,
    pub direction_out: Direction,
}

/// Where a node sits in the world, and which way it faces.
#[derive(Debug, Clone, Copy, PartialEq, Eq, Structural)]
pub struct StructureNodeGlobalPlacement {
    pub x: i64,
    pub y: i64,
    pub direction_out: Direction,
}

/// What a node asks of the structure attached to it.
#[derive(Debug, Clone)]
pub struct StructureNodeConfig {
    pub pool: StructurePoolID,
    /// If `true`, this node will still try to generate a child even if depth is at 0
    pub depth_override: bool,
    pub block_in_dirs: Option<Vec<Direction>>,
}

/// A node's configuration as mathematics.
pub struct NodeConfigView {
    pub pool: StructurePoolID,
    pub depth_override: bool,
    pub block_in_dirs: Option<Seq<Direction>>,
}

impl View for StructureNodeConfig {
    type V = NodeConfigView;

    open spec fn view(&self) -> NodeConfigView {
        NodeConfigView {
            pool: self.pool,
            depth_override: self.depth_override,
            block_in_dirs: match self.block_in_dirs {
                Some(dirs) => Some(dirs@),
                None => None,
            },
        }
    }
}

impl NodeConfigView {
    /// Whether the node refuses a parent that comes in facing `dir_in`.
    pub open spec fn blocks(self, dir_in: Direction) -> bool {
        match self.block_in_dirs {
            Some(dirs) => dirs.contains(dir_in),
            None => false,
        }
    }
}

impl StructureNodeConfig {
    /// A node that draws from `pool`, stops where no depth is left and
    /// refuses no direction.
    pub fn new(pool: StructurePoolID) -> (c: Self)
        ensures
            c.pool == pool,
            !c.depth_override,
            c.block_in_dirs is None,
    {
        Self { pool, depth_override: false, block_in_dirs: None }
    }

    /// The same node, but asking for a child even where no depth is left.
    #[must_use]
    pub fn override_depth(self) -> (c: Self)
        ensures
            c.pool == self.pool,
            c.depth_override,
            c.block_in_dirs == self.block_in_dirs,
    {
        let mut c = self;
        c.depth_override = true;
        c
    }

    /// The same node, but refusing parents that come in facing one of
    /// `dirs`.
    #[must_use]
    pub fn block_in_dirs(self, dirs: Vec<Direction>) -> (c: Self)
        ensures
            c.pool == self.pool,
            c.depth_override == self.depth_override,
            c.block_in_dirs == Some(dirs),
    {
        let mut c = self;
        c.block_in_dirs = Some(dirs);
        c
    }

    /// Whether the node refuses a parent that comes in facing `dir_in`.
    pub fn blocks(&self, dir_in: Direction) -> (b: bool)
        ensures
            b == self@.blocks(dir_in),
    {
        match &self.block_in_dirs {
            Some(block) => {
                let mut i: usize = 0;
                while i < block.len()
                    invariant
                        0 <= i <= block@.len(),
                        self.block_in_dirs == Some(*block),
                        forall|k: int| 0 <= k < i ==> block@[k] != dir_in,
                    decreases block@.len() - i,
                {
                    if block[i] == dir_in {
                        assert(block@[i as int] == dir_in);
                        return true;
                    }
                    i += 1;
                }
                false
            },
            None => false,
        }
    }

    /// A configuration that says the same.
    pub fn duplicate(&self) -> (c: Self)
        ensures
            c@ == self@,
    {
        let dirs = match &self.block_in_dirs {
            Some(block) => {
                let mut copy: Vec<Direction> = Vec::new();
                let mut i: usize = 0;
                while i < block.len()
                    invariant
                        0 <= i <= block@.len(),
                        copy@ == block@.subrange(0, i as int),
                    decreases block@.len() - i,
                {
                    copy.push(block[i]);
                    proof {
                        assert(copy@ =~= block@.subrange(0, i + 1));
                    }
                    i += 1;
                }
                proof {
                    assert(copy@ =~= block@);
                }
                Some(copy)
            },
            None => None,
        };
        Self { pool: self.pool, depth_override: self.depth_override, block_in_dirs: dirs }
    }
}

/// A structure template as mathematics.
pub struct TemplateView {
    pub width: u16,
    pub height: u16,
    pub materials: Seq<MaterialInstance>,
    pub child_nodes: Seq<(StructureNodeLocalPlacement, NodeConfigView)>,
}

/// The views of a list of nodes.
pub open spec fn node_views(nodes: Seq<(StructureNodeLocalPlacement, StructureNodeConfig)>) -> Seq<
    (StructureNodeLocalPlacement, NodeConfigView),
> {
    Seq::new(nodes.len(), |i: int| (nodes[i].0, nodes[i].1@))
}

impl View for StructureTemplate {
    type V = TemplateView;

    open spec fn view(&self) -> TemplateView {
        TemplateView {
            width: self.buf.width,
            height: self.buf.height,
            materials: self.buf.materials@,
            child_nodes: node_views(self.child_nodes@),
        }
    }
}

/// One way to attach a template: the rectangle it then covers, where its
/// other nodes then lie, and the angle by which its buffer is turned before
/// it is pasted at the rectangle's upper left corner.
pub struct OptionView {
    pub bounds: Rect<i64>,
    pub children: Seq<(StructureNodeGlobalPlacement, NodeConfigView)>,
    pub angle: AngleMod,
}

/// The angle by which a template is turned so that its node facing `out`
/// meets a parent that comes in facing `dir_in`.
pub open spec fn attach_angle(out: Direction, dir_in: Direction) -> AngleMod {
    AngleMod::of_turns(Direction::of_turns(dir_in.turns() + 2).turns() - out.turns())
}

/// The rectangle spanned by two opposite corners of `r` after they were
/// turned about `pivot`.
pub open spec fn turned_rect(r: Rect<i64>, pivot: (int, int), angle: AngleMod) -> Rect<i64> {
    let a = angle.turned((r.x1 as int, r.y1 as int), pivot);
    let b = angle.turned((r.x2 as int, r.y2 as int), pivot);
    Rect {
        x1: (if a.0 <= b.0 { a.0 } else { b.0 }) as i64,
        y1: (if a.1 <= b.1 { a.1 } else { b.1 }) as i64,
        x2: (if a.0 <= b.0 { b.0 } else { a.0 }) as i64,
        y2: (if a.1 <= b.1 { b.1 } else { a.1 }) as i64,
    }
}

/// Where a node of the template lies in the world once the template,
/// placed with its upper left corner at `(x1, y1)`, was turned about
/// `origin`.
pub open spec fn child_placed(
    node: (StructureNodeLocalPlacement, NodeConfigView),
    x1: int,
    y1: int,
    angle: AngleMod,
    origin: (int, int),
) -> (StructureNodeGlobalPlacement, NodeConfigView) {
    let p = angle.turned((x1 + node.0.x, y1 + node.0.y), origin);
    (
        StructureNodeGlobalPlacement {
            x: p.0 as i64,
            y: p.1 as i64,
            direction_out: Direction::of_turns(node.0.direction_out.turns() + angle.turns()),
        },
        node.1,
    )
}

/// The first `n` nodes but the one at `skip`, each placed in the world.
pub open spec fn children_placed(
    nodes: Seq<(StructureNodeLocalPlacement, NodeConfigView)>,
    skip: int,
    x1: int,
    y1: int,
    angle: AngleMod,
    origin: (int, int),
    n: nat,
) -> Seq<(StructureNodeGlobalPlacement, NodeConfigView)>
    decreases n,
{
    if n == 0 {
        Seq::empty()
    } else if n - 1 == skip {
        children_placed(nodes, skip, x1, y1, angle, origin, (n - 1) as nat)
    } else {
        children_placed(nodes, skip, x1, y1, angle, origin, (n - 1) as nat).push(
            child_placed(nodes[n - 1], x1, y1, angle, origin),
        )
    }
}

impl TemplateView {
    /// The way to attach the template by its node `i` to a parent at
    /// `origin` that comes in facing `dir_in`: the node comes to lie on
    /// `origin`, facing the parent.
    pub open spec fn option_at(self, i: int, origin: (int, int), dir_in: Direction) -> OptionView {
        let placement = self.child_nodes[i].0;
        let x1 = origin.0 - placement.x;
        let y1 = origin.1 - placement.y;
        let angle = attach_angle(placement.direction_out, dir_in);
        OptionView {
            bounds: turned_rect(
                Rect {
                    x1: x1 as i64,
                    y1: y1 as i64,
                    x2: (x1 + self.width) as i64,
                    y2: (y1 + self.height) as i64,
                },
                origin,
                angle,
            ),
            children: children_placed(
                self.child_nodes,
                i,
                x1,
                y1,
                angle,
                origin,
                self.child_nodes.len(),
            ),
            angle,
        }
    }

    /// The ways to attach the template by one of its first `n` nodes, in
    /// the order of the nodes; a node that refuses parents facing `dir_in`
    /// gives none.
    pub open spec fn options_upto(self, origin: (int, int), dir_in: Direction, n: nat) -> Seq<
        OptionView,
    >
        decreases n,
    {
        if n == 0 {
            Seq::empty()
        } else if self.child_nodes[n - 1].1.blocks(dir_in) {
            self.options_upto(origin, dir_in, (n - 1) as nat)
        } else {
            self.options_upto(origin, dir_in, (n - 1) as nat).push(
                self.option_at(n - 1, origin, dir_in),
            )
        }
    }
}

/// The views of a list of placed children.
pub open spec fn child_views(children: Seq<(StructureNodeGlobalPlacement, StructureNodeConfig)>) -> Seq<
    (StructureNodeGlobalPlacement, NodeConfigView),
> {
    Seq::new(children.len(), |i: int| (children[i].0, children[i].1@))
}

/// The views of a list of options.
pub open spec fn option_views(
    opts: Seq<(Rect<i64>, Vec<(StructureNodeGlobalPlacement, StructureNodeConfig)>, AngleMod)>,
) -> Seq<OptionView> {
    Seq::new(
        opts.len(),
        |i: int| OptionView { bounds: opts[i].0, children: child_views(opts[i].1@), angle: opts[i].2 },
    )
}

/// The rectangle spanned by two opposite corners of `rect` after they were
/// turned about `pivot`.
fn rotated(rect: Rect<i64>, pivot: (i64, i64), angle: AngleMod) -> (r: Rect<i64>)
    requires
        -ORIGIN_LIMIT <= pivot.0 <= ORIGIN_LIMIT,
        -ORIGIN_LIMIT <= pivot.1 <= ORIGIN_LIMIT,
        -ORIGIN_LIMIT < rect.x1 - pivot.0 < ORIGIN_LIMIT,
        -ORIGIN_LIMIT < rect.y1 - pivot.1 < ORIGIN_LIMIT,
        -ORIGIN_LIMIT < rect.x2 - pivot.0 < ORIGIN_LIMIT,
        -ORIGIN_LIMIT < rect.y2 - pivot.1 < ORIGIN_LIMIT,
    ensures
        r == turned_rect(rect, (pivot.0 as int, pivot.1 as int), angle),
{
    let (x1_r, y1_r) = angle.rotate_point((rect.x1, rect.y1), pivot);
    let (x2_r, y2_r) = angle.rotate_point((rect.x2, rect.y2), pivot);

    Rect::<i64>::new(
        if x1_r <= x2_r { x1_r } else { x2_r },
        if y1_r <= y2_r { y1_r } else { y2_r },
        if x1_r <= x2_r { x2_r } else { x1_r },
        if y1_r <= y2_r { y2_r } else { y1_r },
    )
}

impl StructureTemplate {
    /// The ways to attach this template to a parent at `origin` that comes
    /// in facing `dir_in`: one for each node that does not refuse that
    /// direction, in the order of the nodes.
    pub fn options(&self, origin: (i64, i64), dir_in: Direction) -> (opts: Vec<
        (Rect<i64>, Vec<(StructureNodeGlobalPlacement, StructureNodeConfig)>, AngleMod),
    >)
        requires
            -ORIGIN_LIMIT <= origin.0 <= ORIGIN_LIMIT,
            -ORIGIN_LIMIT <= origin.1 <= ORIGIN_LIMIT,
        ensures
            option_views(opts@) == self@.options_upto(
                (origin.0 as int, origin.1 as int),
                dir_in,
                self.child_nodes@.len(),
            ),
    {
        let ghost o = (origin.0 as int, origin.1 as int);
        let ghost nodes = self@.child_nodes;
        let mut opts: Vec<
            (Rect<i64>, Vec<(StructureNodeGlobalPlacement, StructureNodeConfig)>, AngleMod),
        > = Vec::new();
        proof {
            assert(option_views(opts@) =~= self@.options_upto(o, dir_in, 0));
        }

        let mut i: usize = 0;
        while i < self.child_nodes.len()
            invariant
                0 <= i <= self.child_nodes@.len(),
                o == (origin.0 as int, origin.1 as int),
                nodes == self@.child_nodes,
                -ORIGIN_LIMIT <= origin.0 <= ORIGIN_LIMIT,
                -ORIGIN_LIMIT <= origin.1 <= ORIGIN_LIMIT,
                option_views(opts@) == self@.options_upto(o, dir_in, i as nat),
            decreases self.child_nodes@.len() - i,
        {
            let placement = &self.child_nodes[i].0;
            let config = &self.child_nodes[i].1;
            assert(nodes[i as int] == (*placement, config@));

            if config.blocks(dir_in) {
                i += 1;
                continue;
            }
            let ofs_x = placement.x as i64;
            let ofs_y = placement.y as i64;
            let src = Rect::<i64>::new_wh(
                origin.0 - ofs_x,
                origin.1 - ofs_y,
                self.buf.width as i64,
                self.buf.height as i64,
            );

            let angle = placement.direction_out.angle(dir_in.opposite());

            let bounds = rotated(src, origin, angle);

            let mut children: Vec<(StructureNodeGlobalPlacement, StructureNodeConfig)> = Vec::new();
            proof {
                assert(child_views(children@) =~= children_placed(
                    nodes,
                    i as int,
                    src.x1 as int,
                    src.y1 as int,
                    angle,
                    o,
                    0,
                ));
            }
            let mut ci: usize = 0;
            while ci < self.child_nodes.len()
                invariant
                    0 <= ci <= self.child_nodes@.len(),
                    0 <= i < self.child_nodes@.len(),
                    o == (origin.0 as int, origin.1 as int),
                    nodes == self@.child_nodes,
                    -ORIGIN_LIMIT <= origin.0 <= ORIGIN_LIMIT,
                    -ORIGIN_LIMIT <= origin.1 <= ORIGIN_LIMIT,
                    src.x1 == origin.0 - placement.x,
                    src.y1 == origin.1 - placement.y,
                    child_views(children@) == children_placed(
                        nodes,
                        i as int,
                        src.x1 as int,
                        src.y1 as int,
                        angle,
                        o,
                        ci as nat,
                    ),
                decreases self.child_nodes@.len() - ci,
            {
                if ci != i {
                    let ch_placement = &self.child_nodes[ci].0;
                    let ch_config = &self.child_nodes[ci].1;
                    assert(nodes[ci as int] == (*ch_placement, ch_config@));
                    let src_x = src.x1 + ch_placement.x as i64;
                    let src_y = src.y1 + ch_placement.y as i64;
                    let (dst_x, dst_y) = angle.rotate_point((src_x, src_y), origin);
                    let ghost before = children@;
                    children.push(
                        (
                            StructureNodeGlobalPlacement {
                                x: dst_x,
                                y: dst_y,
                                direction_out: ch_placement.direction_out.rotated(angle),
                            },
                            ch_config.duplicate(),
                        ),
                    );
                    proof {
                        assert(child_views(children@) =~= child_views(before).push(
                            child_placed(
                                nodes[ci as int],
                                src.x1 as int,
                                src.y1 as int,
                                angle,
                                o,
                            ),
                        ));
                    }
                }
                ci += 1;
            }

            let ghost before = opts@;
            opts.push((bounds, children, angle));
            proof {
                assert(option_views(opts@) =~= option_views(before).push(
                    self@.option_at(i as int, o, dir_in),
                ));
            }
            i += 1;
        }

        opts
    }
}

/// Whether the cell `(x, y)` lies closer than `NODE_CLEARANCE` to one of the
/// nodes, on both axes.
pub open spec fn near_node(
    nodes: Seq<(StructureNodeLocalPlacement, NodeConfigView)>,
    x: int,
    y: int,
) -> bool {
    exists|k: int|
        0 <= k < nodes.len() && {
            let n = (#[trigger] nodes[k]).0;
            -(NODE_CLEARANCE as int) < n.x - x < NODE_CLEARANCE && -(NODE_CLEARANCE as int) < n.y
                - y < NODE_CLEARANCE
        }
}

/// Whether the cell `(x, y)` lies on the rim of a buffer `w` wide and `h`
/// tall.
pub open spec fn on_rim(x: int, y: int, w: int, h: int) -> bool {
    x < RIM || y < RIM || x >= w - RIM || y >= h - RIM
}

/// The pixel a scaffold structure holds at `(x, y)`: solid on the rim
/// except near a node, shaded from black in the upper left corner towards
/// red to the right and green downwards; air elsewhere.
pub open spec fn scaffold_pixel(
    nodes: Seq<(StructureNodeLocalPlacement, NodeConfigView)>,
    w: int,
    h: int,
    x: int,
    y: int,
) -> MaterialInstance {
    if on_rim(x, y, w, h) && !near_node(nodes, x, y) {
        MaterialInstance {
            material_id: TEST,
            physics: PhysicsType::Solid,
            color: Color { r: (x * 255 / w) as u8, g: (y * 255 / h) as u8, b: 0, a: 255 },
            light: Light { r: 0, g: 0, b: 0 },
        }
    } else {
        air_pixel()
    }
}

/// Whether a template is the scaffold structure of the given size with
/// the given nodes.
pub open spec fn is_scaffold(
    t: TemplateView,
    w: u16,
    h: u16,
    nodes: Seq<(StructureNodeLocalPlacement, NodeConfigView)>,
) -> bool {
    &&& t.width == w
    &&& t.height == h
    &&& t.child_nodes == nodes
    &&& t.materials.len() == w * h
    &&& forall|x: int, y: int|
        0 <= x < w && 0 <= y < h ==> #[trigger] t.materials[x + y * w] == scaffold_pixel(
            nodes,
            w as int,
            h as int,
            x,
            y,
        )
}

/// Whether the cell `(x, y)` lies closer than `NODE_CLEARANCE` to one of the
/// nodes, on both axes.
fn is_near_node(child_nodes: &Vec<(StructureNodeLocalPlacement, StructureNodeConfig)>, x: u16, y: u16) -> (near: bool)
    ensures
        near == near_node(node_views(child_nodes@), x as int, y as int),
{
    let ghost nodes = node_views(child_nodes@);
    let mut k: usize = 0;
    while k < child_nodes.len()
        invariant
            0 <= k <= child_nodes@.len(),
            nodes == node_views(child_nodes@),
            forall|j: int|
                0 <= j < k ==> !({
                    let n = (#[trigger] nodes[j]).0;
                    -(NODE_CLEARANCE as int) < n.x - x < NODE_CLEARANCE && -(NODE_CLEARANCE as int)
                        < n.y - y < NODE_CLEARANCE
                }),
        decreases child_nodes@.len() - k,
    {
        let cn = &child_nodes[k].0;
        assert(nodes[k as int].0 == *cn);
        let dx: u32 = if cn.x >= x as u32 {
            cn.x - x as u32
        } else {
            x as u32 - cn.x
        };
        let dy: u32 = if cn.y >= y as u32 {
            cn.y - y as u32
        } else {
            y as u32 - cn.y
        };
        if dx < NODE_CLEARANCE && dy < NODE_CLEARANCE {
            return true;
        }
        k += 1;
    }
    false
}

/// Two cells of a grid that share their place in the buffer are the same
/// cell.
proof fn lemma_cells_apart(x1: int, y1: int, x2: int, y2: int, w: int)
    requires
        0 <= x1 < w,
        0 <= x2 < w,
        0 <= y1,
        0 <= y2,
        x1 + y1 * w == x2 + y2 * w,
    ensures
        x1 == x2,
        y1 == y2,
{
    vstd::arithmetic::div_mod::lemma_fundamental_div_mod_converse(x1 + y1 * w, w, y1, x1);
    vstd::arithmetic::div_mod::lemma_fundamental_div_mod_converse(x2 + y2 * w, w, y2, x2);
}

/// Builds a scaffold structure: a box `w` wide and `h` tall with a solid rim
/// that is left open near each of the nodes.
pub fn make_test_structure(
    w: u16,
    h: u16,
    child_nodes: Vec<(StructureNodeLocalPlacement, StructureNodeConfig)>,
) -> (t: StructureTemplate)
    requires
        w >= RIM,
        h >= RIM,
        w * h <= u16::MAX,
    ensures
        is_scaffold(t@, w, h, node_views(child_nodes@)),
        t.child_nodes == child_nodes,
{
    let ghost nodes = node_views(child_nodes@);
    let mut materials: Vec<MaterialInstance> = Vec::new();
    let area: usize = w as usize * h as usize;
    while materials.len() < area
        invariant
            materials@.len() <= area,
            forall|i: int| 0 <= i < materials@.len() ==> materials@[i] == air_pixel(),
        decreases area - materials@.len(),
    {
        materials.push(MaterialInstance::air());
    }
    let mut buf = MaterialBuf { width: w, height: h, materials };
    proof {
        assert forall|cx: int, cy: int| 0 <= cx < w && 0 <= cy < h implies #[trigger] buf.materials@[cx
            + cy * w] == air_pixel() by {
            assert(0 <= cx + cy * w < w * h) by (nonlinear_arith)
                requires
                    0 <= cx < w,
                    0 <= cy < h,
            ;
        }
    }

    let mut x: u16 = 0;
    while x < w
        invariant
            0 <= x <= w,
            w >= RIM,
            h >= RIM,
            w * h <= u16::MAX,
            nodes == node_views(child_nodes@),
            buf.width == w,
            buf.height == h,
            buf.wf(),
            forall|cx: int, cy: int|
                0 <= cx < w && 0 <= cy < h ==> #[trigger] buf.materials@[cx + cy * w] == if cx
                    < x {
                    scaffold_pixel(nodes, w as int, h as int, cx, cy)
                } else {
                    air_pixel()
                },
        decreases w - x,
    {
        let mut y: u16 = 0;
        while y < h
            invariant
                0 <= x < w,
                0 <= y <= h,
                w >= RIM,
                h >= RIM,
                w * h <= u16::MAX,
                nodes == node_views(child_nodes@),
                buf.width == w,
                buf.height == h,
                buf.wf(),
                forall|cx: int, cy: int|
                    0 <= cx < w && 0 <= cy < h ==> #[trigger] buf.materials@[cx + cy * w] == if cx
                        < x || (cx == x && cy < y) {
                        scaffold_pixel(nodes, w as int, h as int, cx, cy)
                    } else {
                        air_pixel()
                    },
            decreases h - y,
        {
            let near_node = is_near_node(&child_nodes, x, y);
            let ghost before = buf.materials@;
            if (x < RIM || y < RIM || (x >= w - RIM) || (y >= h - RIM)) && !near_node {
                assert(x * 255 / (w as int) <= 255 && y * 255 / (h as int) <= 255) by (nonlinear_arith)
                    requires
                        0 <= x < w,
                        0 <= y < h,
                ;
                buf.set(
                    x,
                    y,
                    MaterialInstance {
                        material_id: TEST,
                        physics: PhysicsType::Solid,
                        color: Color::rgb(
                            (x as u32 * 255 / w as u32) as u8,
                            (y as u32 * 255 / h as u32) as u8,
                            0,
                        ),
                        light: Light { r: 0, g: 0, b: 0 },
                    },
                );
            }
            proof {
                assert(0 <= x + y * w < w * h) by (nonlinear_arith)
                    requires
                        0 <= x < w,
                        0 <= y < h,
                ;
                assert(buf.materials@ == before || buf.materials@ == before.update(
                    x + y * w,
                    buf.materials@[x + y * w],
                ));
                assert forall|cx: int, cy: int| 0 <= cx < w && 0 <= cy < h implies #[trigger] buf.materials@[cx
                    + cy * w] == if cx < x || (cx == x && cy < y + 1) {
                    scaffold_pixel(nodes, w as int, h as int, cx, cy)
                } else {
                    air_pixel()
                } by {
                    assert(0 <= cx + cy * w < w * h) by (nonlinear_arith)
                        requires
                            0 <= cx < w,
                            0 <= cy < h,
                    ;
                    if cx + cy * w == x + y * w {
                        lemma_cells_apart(cx, cy, x as int, y as int, w as int);
                    }
                    assert(before[cx + cy * w] == if cx < x || (cx == x && cy < y) {
                        scaffold_pixel(nodes, w as int, h as int, cx, cy)
                    } else {
                        air_pixel()
                    });
                    if cx == x && cy == y {
                        assert(on_rim(x as int, y as int, w as int, h as int) == (x < RIM || y < RIM
                            || (x >= w - RIM) || (y >= h - RIM)));
                        assert(buf.materials@[x + y * w] == scaffold_pixel(
                            nodes,
                            w as int,
                            h as int,
                            x as int,
                            y as int,
                        ));
                    } else {
                        assert(cx + cy * w != x + y * w);
                        assert(buf.materials@ == before || buf.materials@ == before.update(
                            x + y * w,
                            buf.materials@[x + y * w],
                        ));
                        assert(buf.materials@[cx + cy * w] == before[cx + cy * w]);
                    }
                }
            }
            y += 1;
        }
        x += 1;
    }

    StructureTemplate { buf, child_nodes }
}

/// Names a structure template.
pub type StructureTemplateID = &'static str;

/// The templates known, each under its name, in the order in which they
/// were registered.
pub type StructureTemplateRegistry = Vec<(StructureTemplateID, StructureTemplate)>;

/// A node at `(x, y)` that faces `direction_out` and draws from `pool`.
pub open spec fn plain_node(x: u32, y: u32, direction_out: Direction, pool: StructurePoolID) -> (
    StructureNodeLocalPlacement,
    NodeConfigView,
) {
    (
        StructureNodeLocalPlacement { x, y, direction_out },
        NodeConfigView { pool, depth_override: false, block_in_dirs: None },
    )
}

/// A hallway node that refuses parents coming in facing up or down.
pub open spec fn level_node(x: u32, y: u32, direction_out: Direction) -> (
    StructureNodeLocalPlacement,
    NodeConfigView,
) {
    (
        StructureNodeLocalPlacement { x, y, direction_out },
        NodeConfigView {
            pool: "hallways",
            depth_override: false,
            block_in_dirs: Some(seq![Direction::Up, Direction::Down]),
        },
    )
}

/// A node that still asks for a child when no depth is left.
pub open spec fn eager_node(x: u32, y: u32, direction_out: Direction, pool: StructurePoolID) -> (
    StructureNodeLocalPlacement,
    NodeConfigView,
) {
    (
        StructureNodeLocalPlacement { x, y, direction_out },
        NodeConfigView { pool, depth_override: true, block_in_dirs: None },
    )
}

/// The nodes of the crossing registered as `a`.
pub open spec fn crossing_nodes() -> Seq<(StructureNodeLocalPlacement, NodeConfigView)> {
    seq![
        plain_node(0, 60, Direction::Left, "hallways"),
        plain_node(120, 40, Direction::Right, "hallways"),
        plain_node(120, 80, Direction::Right, "hallways"),
        plain_node(40, 0, Direction::Up, "hallways"),
        plain_node(80, 120, Direction::Down, "hallways"),
    ]
}

/// The nodes of the level hallway registered as `a2`.
pub open spec fn level_hallway_nodes() -> Seq<(StructureNodeLocalPlacement, NodeConfigView)> {
    seq![level_node(0, 50, Direction::Left), level_node(200, 20, Direction::Right)]
}

/// The nodes of the corridor registered as `b`.
pub open spec fn corridor_nodes() -> Seq<(StructureNodeLocalPlacement, NodeConfigView)> {
    seq![
        eager_node(0, 16, Direction::Left, "rooms"),
        eager_node(100, 16, Direction::Right, "rooms"),
    ]
}

/// The nodes of the corner registered as `b2`.
pub open spec fn corner_nodes() -> Seq<(StructureNodeLocalPlacement, NodeConfigView)> {
    seq![
        eager_node(0, 60, Direction::Left, "rooms_or_straight_hallways"),
        eager_node(60, 0, Direction::Up, "rooms_or_straight_hallways"),
    ]
}

/// Registers the scaffold structures: a crossing, a level hallway, a
/// corridor and a corner.
#[allow(clippy::too_many_lines)]
pub fn init_structure_templates() -> (registry: StructureTemplateRegistry)
    ensures
        registry@.len() == 4,
        registry@[0].0 == "a",
        is_scaffold(registry@[0].1@, 120, 120, crossing_nodes()),
        registry@[1].0 == "a2",
        is_scaffold(registry@[1].1@, 200, 100, level_hallway_nodes()),
        registry@[2].0 == "b",
        is_scaffold(registry@[2].1@, 100, 32, corridor_nodes()),
        registry@[3].0 == "b2",
        is_scaffold(registry@[3].1@, 80, 80, corner_nodes()),
{
    let mut registry: StructureTemplateRegistry = Vec::new();

    let crossing = vec![
        (
            StructureNodeLocalPlacement { x: 0, y: 60, direction_out: Direction::Left },
            StructureNodeConfig::new("hallways"),
        ),
        (
            StructureNodeLocalPlacement { x: 120, y: 40, direction_out: Direction::Right },
            StructureNodeConfig::new("hallways"),
        ),
        (
            StructureNodeLocalPlacement { x: 120, y: 80, direction_out: Direction::Right },
            StructureNodeConfig::new("hallways"),
        ),
        (
            StructureNodeLocalPlacement { x: 40, y: 0, direction_out: Direction::Up },
            StructureNodeConfig::new("hallways"),
        ),
        (
            StructureNodeLocalPlacement { x: 80, y: 120, direction_out: Direction::Down },
            StructureNodeConfig::new("hallways"),
        ),
    ];
    proof {
        assert(node_views(crossing@) =~= crossing_nodes());
    }
    registry.push(("a", make_test_structure(120, 120, crossing)));

    let level = vec![
        (
            StructureNodeLocalPlacement { x: 0, y: 50, direction_out: Direction::Left },
            StructureNodeConfig::new("hallways").block_in_dirs(
                vec![Direction::Up, Direction::Down],
            ),
        ),
        (
            StructureNodeLocalPlacement { x: 200, y: 20, direction_out: Direction::Right },
            StructureNodeConfig::new("hallways").block_in_dirs(
                vec![Direction::Up, Direction::Down],
            ),
        ),
    ];
    proof {
        assert(level@[0].1@.block_in_dirs->0 =~= seq![Direction::Up, Direction::Down]);
        assert(level@[1].1@.block_in_dirs->0 =~= seq![Direction::Up, Direction::Down]);
        assert(node_views(level@) =~= level_hallway_nodes());
    }
    registry.push(("a2", make_test_structure(200, 100, level)));

    let corridor = vec![
        (
            StructureNodeLocalPlacement { x: 0, y: 16, direction_out: Direction::Left },
            StructureNodeConfig::new("rooms").override_depth(),
        ),
        (
            StructureNodeLocalPlacement { x: 100, y: 16, direction_out: Direction::Right },
            StructureNodeConfig::new("rooms").override_depth(),
        ),
    ];
    proof {
        assert(node_views(corridor@) =~= corridor_nodes());
    }
    registry.push(("b", make_test_structure(100, 32, corridor)));

    let corner = vec![
        (
            StructureNodeLocalPlacement { x: 0, y: 60, direction_out: Direction::Left },
            StructureNodeConfig::new("rooms_or_straight_hallways").override_depth(),
        ),
        (
            StructureNodeLocalPlacement { x: 60, y: 0, direction_out: Direction::Up },
            StructureNodeConfig::new("rooms_or_straight_hallways").override_depth(),
        ),
    ];
    proof {
        assert(node_views(corner@) =~= corner_nodes());
    }
    registry.push(("b2", make_test_structure(80, 80, corner)));

    registry
}

} // verus!
