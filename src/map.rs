use vstd::prelude::*;
use crate::rect::{Rect, rects_overlap, center_x, center_y};
use crate::components::Entity;
use crate::random::rng_range;

verus! {

pub const MAP_WIDTH: usize = 80;
pub const MAP_HEIGHT: usize = 43;
pub const MAP_COUNT: usize = MAP_HEIGHT * MAP_WIDTH;

pub const MAX_ROOMS: i32 = 30;
pub const MIN_SIZE: i32 = 6;
pub const MAX_SIZE: i32 = 10;

#[derive(Clone, Copy, Debug, PartialEq, Eq, Structural)]
pub enum TileType {
    Wall,
    Floor,
}

/// A tile position on the grid.
#[derive(Clone, Copy, Debug, PartialEq, Eq, Structural)]
pub struct Point {
    pub x: i32,
    pub y: i32,
}

impl Point {
    pub fn new(x: i32, y: i32) -> (r: Point)
        ensures
            r.x == x,
            r.y == y,
    {
        Point { x, y }
    }
}

/// One dungeon level: the tile grid, its rooms, and the per-tile surfaces
/// that sight, movement and rendering read.
pub struct GameMap {
    pub tiles: Vec<TileType>,
    pub rooms: Vec<Rect>,
    pub width: i32,
    pub height: i32,
    pub revealed_tiles: Vec<bool>,
    pub visible_tiles: Vec<bool>,
    pub blocked: Vec<bool>,
    pub bloodstains: Vec<bool>,
    pub depth: i32,
    pub tile_content: Vec<Vec<Entity>>,
}

/// Whether `(x, y)` lies on the grid.
pub open spec fn on_grid(x: int, y: int) -> bool {
    0 <= x < MAP_WIDTH && 0 <= y < MAP_HEIGHT
}

/// Row-major index of a tile.
pub open spec fn idx_of(x: int, y: int) -> int {
    y * MAP_WIDTH + x
}

/// The column and the row of a tile index.
pub open spec fn col_of(i: int) -> int {
    i % (MAP_WIDTH as int)
}

pub open spec fn row_of(i: int) -> int {
    i / (MAP_WIDTH as int)
}

/// A room, at least two tiles across, whose carved floor stays inside the
/// one-tile border of the grid.
pub open spec fn room_in_bounds(r: Rect) -> bool {
    0 <= r.x1 && r.x1 + 2 <= r.x2 && r.x2 <= MAP_WIDTH - 2 && 0 <= r.y1 && r.y1 + 2 <= r.y2
        && r.y2 <= MAP_HEIGHT - 2
}

/// No two rooms of the list overlap.
pub open spec fn rooms_disjoint(rooms: Seq<Rect>) -> bool {
    forall|i: int, j: int|
        0 <= i < j < rooms.len() ==> !rects_overlap(#[trigger] rooms[i], #[trigger] rooms[j])
}

pub open spec fn rooms_in_bounds(rooms: Seq<Rect>) -> bool {
    forall|i: int| 0 <= i < rooms.len() ==> room_in_bounds(#[trigger] rooms[i])
}

/// Whether tile `i` is carved by `room`: its interior `x1+1..=x2`, `y1+1..=y2`.
pub open spec fn in_room(r: Rect, i: int) -> bool {
    r.x1 < col_of(i) <= r.x2 && r.y1 < row_of(i) <= r.y2
}

/// Whether tile `i` lies on the horizontal run from `x1` to `x2` on row `y`.
pub open spec fn on_hline(x1: int, x2: int, y: int, i: int) -> bool {
    row_of(i) == y && (if x1 <= x2 { x1 <= col_of(i) <= x2 } else { x2 <= col_of(i) <= x1 })
}

/// Whether tile `i` lies on the vertical run from `y1` to `y2` on column `x`.
pub open spec fn on_vline(y1: int, y2: int, x: int, i: int) -> bool {
    col_of(i) == x && (if y1 <= y2 { y1 <= row_of(i) <= y2 } else { y2 <= row_of(i) <= y1 })
}

pub proof fn lemma_idx_split(x: int, y: int)
    requires
        on_grid(x, y),
    ensures
        0 <= idx_of(x, y) < MAP_COUNT,
        col_of(idx_of(x, y)) == x,
        row_of(idx_of(x, y)) == y,
{
    assert(0 <= idx_of(x, y) < MAP_COUNT) by (nonlinear_arith)
        requires
            0 <= x < 80,
            0 <= y < 43,
    ;
    vstd::arithmetic::div_mod::lemma_fundamental_div_mod_converse(idx_of(x, y), 80, y, x);
}

pub proof fn lemma_idx_join(i: int)
    requires
        0 <= i < MAP_COUNT,
    ensures
        on_grid(col_of(i), row_of(i)),
        idx_of(col_of(i), row_of(i)) == i,
{
    vstd::arithmetic::div_mod::lemma_fundamental_div_mod(i, 80);
}

/// Whether tile `i` lies on the corridor that joins the centre of `prev`
/// to the centre of `room`: one horizontal and one vertical run, the
/// horizontal one first or second.
pub open spec fn on_corridor(prev: Rect, room: Rect, horizontal_first: bool, i: int) -> bool {
    let (px, py, nx, ny) = (center_x(prev), center_y(prev), center_x(room), center_y(room));
    if horizontal_first {
        on_hline(px, nx, py, i) || on_vline(py, ny, nx, i)
    } else {
        on_vline(py, ny, px, i) || on_hline(px, nx, ny, i)
    }
}

/// The centre of a room that stays in bounds lies on the grid, off its border.
pub proof fn lemma_center_inside(r: Rect)
    requires
        room_in_bounds(r),
    ensures
        1 <= center_x(r) <= MAP_WIDTH - 2,
        1 <= center_y(r) <= MAP_HEIGHT - 2,
{
}

/// Two maps that differ at most in their tiles and their rooms.
pub open spec fn same_surfaces(a: GameMap, b: GameMap) -> bool {
    &&& a.width == b.width
    &&& a.height == b.height
    &&& a.revealed_tiles@ == b.revealed_tiles@
    &&& a.visible_tiles@ == b.visible_tiles@
    &&& a.blocked@ == b.blocked@
    &&& a.bloodstains@ == b.bloodstains@
    &&& a.depth == b.depth
    &&& a.tile_content@ == b.tile_content@
}

/// Whether `(x, y)` is a floor tile of the grid `tiles`.
pub open spec fn floor_at(tiles: Seq<TileType>, x: int, y: int) -> bool {
    on_grid(x, y) && tiles[idx_of(x, y)] == TileType::Floor
}

/// Whether two points are side by side (not diagonal).
pub open spec fn side_by_side(a: (int, int), b: (int, int)) -> bool {
    (a.1 == b.1 && (a.0 - b.0 == 1 || b.0 - a.0 == 1)) || (a.0 == b.0 && (a.1 - b.1 == 1 || b.1
        - a.1 == 1))
}

/// A walk over floor tiles, each step to a side neighbour.
pub open spec fn floor_path(tiles: Seq<TileType>, p: Seq<(int, int)>) -> bool {
    &&& p.len() >= 1
    &&& forall|k: int| 0 <= k < p.len() ==> floor_at(tiles, (#[trigger] p[k]).0, p[k].1)
    &&& forall|k: int| 0 <= k < p.len() - 1 ==> side_by_side(#[trigger] p[k], p[k + 1])
}

/// Whether `b` can be reached from `a` by walking over floor tiles.
pub open spec fn connected(tiles: Seq<TileType>, a: (int, int), b: (int, int)) -> bool {
    exists|p: Seq<(int, int)>| #[trigger] floor_path(tiles, p) && p[0] == a && p.last() == b
}

pub open spec fn center_of(r: Rect) -> (int, int) {
    (center_x(r), center_y(r))
}

/// Every room centre can be reached from the centre of the first room.
pub open spec fn rooms_connected(tiles: Seq<TileType>, rooms: Seq<Rect>) -> bool {
    forall|i: int|
        0 <= i < rooms.len() ==> connected(tiles, center_of(rooms[0]), center_of(#[trigger] rooms[i]))
}

proof fn lemma_path_grows(t1: Seq<TileType>, t2: Seq<TileType>, p: Seq<(int, int)>)
    requires
        floor_path(t1, p),
        t1.len() == MAP_COUNT,
        t2.len() == MAP_COUNT,
        forall|i: int| 0 <= i < MAP_COUNT && t1[i] == TileType::Floor ==> t2[i] == TileType::Floor,
    ensures
        floor_path(t2, p),
{
    assert forall|k: int| 0 <= k < p.len() implies floor_at(t2, (#[trigger] p[k]).0, p[k].1) by {
        assert(floor_at(t1, p[k].0, p[k].1));
        lemma_idx_split(p[k].0, p[k].1);
    }
}

proof fn lemma_connected_grows(t1: Seq<TileType>, t2: Seq<TileType>, a: (int, int), b: (int, int))
    requires
        connected(t1, a, b),
        t1.len() == MAP_COUNT,
        t2.len() == MAP_COUNT,
        forall|i: int| 0 <= i < MAP_COUNT && t1[i] == TileType::Floor ==> t2[i] == TileType::Floor,
    ensures
        connected(t2, a, b),
{
    let p = choose|p: Seq<(int, int)>| #[trigger] floor_path(t1, p) && p[0] == a && p.last() == b;
    lemma_path_grows(t1, t2, p);
}

proof fn lemma_connected_chain(t: Seq<TileType>, a: (int, int), b: (int, int), c: (int, int))
    requires
        connected(t, a, b),
        connected(t, b, c),
    ensures
        connected(t, a, c),
{
    let p = choose|p: Seq<(int, int)>| #[trigger] floor_path(t, p) && p[0] == a && p.last() == b;
    let q = choose|q: Seq<(int, int)>| #[trigger] floor_path(t, q) && q[0] == b && q.last() == c;
    let r = p + q.subrange(1, q.len() as int);
    assert forall|k: int| 0 <= k < r.len() implies floor_at(t, (#[trigger] r[k]).0, r[k].1) by {
        if k < p.len() {
            assert(r[k] == p[k]);
        } else {
            assert(r[k] == q[k - p.len() + 1]);
        }
    }
    assert forall|k: int| 0 <= k < r.len() - 1 implies side_by_side(#[trigger] r[k], r[k + 1]) by {
        if k < p.len() - 1 {
            assert(r[k] == p[k] && r[k + 1] == p[k + 1]);
        } else if k == p.len() - 1 {
            assert(r[k] == p[k] && r[k + 1] == q[1]);
        } else {
            assert(r[k] == q[k - p.len() + 1] && r[k + 1] == q[k - p.len() + 2]);
        }
    }
    if q.len() == 1 {
        assert(r =~= p);
    } else {
        assert(r.last() == q.last());
    }
    assert(floor_path(t, r));
}

/// A straight horizontal run of floor from `x1` to `x2` on row `y`.
proof fn lemma_row_walk(t: Seq<TileType>, x1: int, x2: int, y: int)
    requires
        forall|x: int|
            (if x1 <= x2 { x1 <= x <= x2 } else { x2 <= x <= x1 }) ==> #[trigger] floor_at(t, x, y),
    ensures
        connected(t, (x1, y), (x2, y)),
{
    let n = if x1 <= x2 { x2 - x1 + 1 } else { x1 - x2 + 1 };
    let p = Seq::new(n as nat, |k: int| if x1 <= x2 { (x1 + k, y) } else { (x1 - k, y) });
    assert forall|k: int| 0 <= k < p.len() implies floor_at(t, (#[trigger] p[k]).0, p[k].1) by {
        assert(floor_at(t, p[k].0, y));
    }
    assert forall|k: int| 0 <= k < p.len() - 1 implies side_by_side(#[trigger] p[k], p[k + 1]) by {}
    assert(floor_path(t, p) && p[0] == (x1, y) && p.last() == (x2, y));
}

/// A straight vertical run of floor from `y1` to `y2` on column `x`.
proof fn lemma_column_walk(t: Seq<TileType>, y1: int, y2: int, x: int)
    requires
        forall|y: int|
            (if y1 <= y2 { y1 <= y <= y2 } else { y2 <= y <= y1 }) ==> #[trigger] floor_at(t, x, y),
    ensures
        connected(t, (x, y1), (x, y2)),
{
    let n = if y1 <= y2 { y2 - y1 + 1 } else { y1 - y2 + 1 };
    let p = Seq::new(n as nat, |k: int| if y1 <= y2 { (x, y1 + k) } else { (x, y1 - k) });
    assert forall|k: int| 0 <= k < p.len() implies floor_at(t, (#[trigger] p[k]).0, p[k].1) by {
        assert(floor_at(t, x, p[k].1));
    }
    assert forall|k: int| 0 <= k < p.len() - 1 implies side_by_side(#[trigger] p[k], p[k + 1]) by {}
    assert(floor_path(t, p) && p[0] == (x, y1) && p.last() == (x, y2));
}

/// After a room is added next to an earlier one, the corridor links their centres.
proof fn lemma_corridor_links(t: Seq<TileType>, prev: Rect, room: Rect, horizontal_first: bool)
    requires
        t.len() == MAP_COUNT,
        room_in_bounds(prev),
        room_in_bounds(room),
        forall|i: int|
            0 <= i < MAP_COUNT && on_corridor(prev, room, horizontal_first, i) ==> t[i]
                == TileType::Floor,
    ensures
        connected(t, center_of(prev), center_of(room)),
{
    lemma_center_inside(prev);
    lemma_center_inside(room);
    let (px, py, nx, ny) = (center_x(prev), center_y(prev), center_x(room), center_y(room));
    if horizontal_first {
        assert forall|x: int| (if px <= nx { px <= x <= nx } else { nx <= x <= px }) implies #[trigger] floor_at(
            t,
            x,
            py,
        ) by {
            lemma_idx_split(x, py);
            assert(on_hline(px, nx, py, idx_of(x, py)));
        }
        lemma_row_walk(t, px, nx, py);
        assert forall|y: int| (if py <= ny { py <= y <= ny } else { ny <= y <= py }) implies #[trigger] floor_at(
            t,
            nx,
            y,
        ) by {
            lemma_idx_split(nx, y);
            assert(on_vline(py, ny, nx, idx_of(nx, y)));
        }
        lemma_column_walk(t, py, ny, nx);
        lemma_connected_chain(t, (px, py), (nx, py), (nx, ny));
    } else {
        assert forall|y: int| (if py <= ny { py <= y <= ny } else { ny <= y <= py }) implies #[trigger] floor_at(
            t,
            px,
            y,
        ) by {
            lemma_idx_split(px, y);
            assert(on_vline(py, ny, px, idx_of(px, y)));
        }
        lemma_column_walk(t, py, ny, px);
        assert forall|x: int| (if px <= nx { px <= x <= nx } else { nx <= x <= px }) implies #[trigger] floor_at(
            t,
            x,
            ny,
        ) by {
            lemma_idx_split(x, ny);
            assert(on_hline(px, nx, ny, idx_of(x, ny)));
        }
        lemma_row_walk(t, px, nx, ny);
        lemma_connected_chain(t, (px, py), (px, ny), (nx, ny));
    }
}

/// The centre of a carved room is floor, so it reaches itself.
proof fn lemma_center_reaches_itself(t: Seq<TileType>, room: Rect)
    requires
        t.len() == MAP_COUNT,
        room_in_bounds(room),
        forall|i: int| 0 <= i < MAP_COUNT && in_room(room, i) ==> t[i] == TileType::Floor,
    ensures
        connected(t, center_of(room), center_of(room)),
{
    lemma_center_inside(room);
    let c = center_of(room);
    lemma_idx_split(c.0, c.1);
    assert(in_room(room, idx_of(c.0, c.1)));
    let p = seq![c];
    assert(floor_path(t, p));
}

/// A room whose sides measure six to nine tiles.
pub open spec fn room_sized(r: Rect) -> bool {
    MIN_SIZE <= r.x2 - r.x1 < MAX_SIZE && MIN_SIZE <= r.y2 - r.y1 < MAX_SIZE
}

/// Whether tile `i` was carved by the rooms: it lies inside one of them, or
/// on a corridor (either way round) between two consecutive ones.
pub open spec fn carved(rooms: Seq<Rect>, i: int) -> bool {
    exists|k: int|
        0 <= k < rooms.len() && (in_room(#[trigger] rooms[k], i) || (k >= 1 && (on_corridor(
            rooms[k - 1],
            rooms[k],
            true,
            i,
        ) || on_corridor(rooms[k - 1], rooms[k], false, i))))
}

/// Whether `(x, y)` lies on the outer ring of the grid.
pub open spec fn on_border(x: int, y: int) -> bool {
    x == 0 || y == 0 || x == MAP_WIDTH - 1 || y == MAP_HEIGHT - 1
}

/// What a freshly generated level looks like.
pub open spec fn fresh_map(m: GameMap, depth: i32) -> bool {
    &&& m.wf()
    &&& m.depth == depth
    &&& 1 <= m.rooms@.len() <= MAX_ROOMS
    &&& rooms_disjoint(m.rooms@)
    &&& rooms_in_bounds(m.rooms@)
    &&& forall|k: int| 0 <= k < m.rooms@.len() ==> room_sized(#[trigger] m.rooms@[k])
    &&& rooms_connected(m.tiles@, m.rooms@)
    &&& forall|k: int, i: int|
        0 <= k < m.rooms@.len() && 0 <= i < MAP_COUNT && in_room(#[trigger] m.rooms@[k], i)
            ==> #[trigger] m.tiles@[i] == TileType::Floor
    &&& forall|i: int| 0 <= i < MAP_COUNT && #[trigger] m.tiles@[i] == TileType::Floor ==> carved(m.rooms@, i)
    &&& forall|x: int, y: int|
        on_grid(x, y) && on_border(x, y) ==> #[trigger] m.tiles@[idx_of(x, y)] == TileType::Wall
    &&& forall|i: int|
        0 <= i < MAP_COUNT ==> !(#[trigger] m.revealed_tiles@[i]) && !m.visible_tiles@[i]
            && !m.blocked@[i] && !m.bloodstains@[i] && m.tile_content@[i].len() == 0
}

proof fn lemma_carved_inside(rooms: Seq<Rect>, i: int)
    requires
        rooms_in_bounds(rooms),
        carved(rooms, i),
        0 <= i < MAP_COUNT,
    ensures
        1 <= col_of(i) <= MAP_WIDTH - 2,
        1 <= row_of(i) <= MAP_HEIGHT - 2,
{
    let k = choose|k: int|
        0 <= k < rooms.len() && (in_room(#[trigger] rooms[k], i) || (k >= 1 && (on_corridor(
            rooms[k - 1],
            rooms[k],
            true,
            i,
        ) || on_corridor(rooms[k - 1], rooms[k], false, i))));
    assert(room_in_bounds(rooms[k]));
    lemma_center_inside(rooms[k]);
    if k >= 1 {
        assert(room_in_bounds(rooms[k - 1]));
        lemma_center_inside(rooms[k - 1]);
    }
}

impl GameMap {
    /// Every per-tile surface covers the whole fixed-size grid.
    pub open spec fn wf(&self) -> bool {
        &&& self.width == MAP_WIDTH
        &&& self.height == MAP_HEIGHT
        &&& self.tiles.len() == MAP_COUNT
        &&& self.revealed_tiles.len() == MAP_COUNT
        &&& self.visible_tiles.len() == MAP_COUNT
        &&& self.blocked.len() == MAP_COUNT
        &&& self.bloodstains.len() == MAP_COUNT
        &&& self.tile_content.len() == MAP_COUNT
    }

    /// A map of solid wall with no rooms.
    pub fn new(depth: i32) -> (map: GameMap)
        ensures
            map.wf(),
            map.depth == depth,
            map.rooms@.len() == 0,
            forall|i: int| 0 <= i < MAP_COUNT ==> map.tiles@[i] == TileType::Wall,
            forall|i: int| 0 <= i < MAP_COUNT ==> !map.revealed_tiles@[i] && !map.visible_tiles@[i]
                && !map.blocked@[i] && !map.bloodstains@[i] && map.tile_content@[i].len() == 0,
    {
        let mut tiles: Vec<TileType> = Vec::new();
        let mut revealed: Vec<bool> = Vec::new();
        let mut visible: Vec<bool> = Vec::new();
        let mut blocked: Vec<bool> = Vec::new();
        let mut blood: Vec<bool> = Vec::new();
        let mut content: Vec<Vec<Entity>> = Vec::new();
        let mut i: usize = 0;
        while i < MAP_COUNT
            invariant
                i <= MAP_COUNT,
                tiles.len() == i && revealed.len() == i && visible.len() == i,
                blocked.len() == i && blood.len() == i && content.len() == i,
                forall|j: int| 0 <= j < i ==> tiles@[j] == TileType::Wall,
                forall|j: int| 0 <= j < i ==> !revealed@[j] && !visible@[j] && !blocked@[j]
                    && !blood@[j] && content@[j].len() == 0,
            decreases MAP_COUNT - i,
        {
            tiles.push(TileType::Wall);
            revealed.push(false);
            visible.push(false);
            blocked.push(false);
            blood.push(false);
            content.push(Vec::new());
            i = i + 1;
        }
        GameMap {
            tiles,
            rooms: Vec::new(),
            width: MAP_WIDTH as i32,
            height: MAP_HEIGHT as i32,
            revealed_tiles: revealed,
            visible_tiles: visible,
            blocked,
            bloodstains: blood,
            depth,
            tile_content: content,
        }
    }

    pub fn xy_idx(&self, x: i32, y: i32) -> (r: usize)
        requires
            self.wf(),
            on_grid(x as int, y as int),
        ensures
            r == idx_of(x as int, y as int),
            r < MAP_COUNT,
    {
        proof {
            lemma_idx_split(x as int, y as int);
        }
        (y as usize * self.width as usize) + x as usize
    }

    fn apply_room_to_map(&mut self, room: &Rect)
        requires
            old(self).wf(),
            room_in_bounds(*room),
        ensures
            final(self).wf(),
            same_surfaces(*final(self), *old(self)),
            final(self).rooms@ == old(self).rooms@,
            forall|i: int|
                0 <= i < MAP_COUNT ==> final(self).tiles@[i] == if in_room(*room, i) {
                    TileType::Floor
                } else {
                    old(self).tiles@[i]
                },
    {
        let mut y: i32 = room.y1 + 1;
        while y <= room.y2
            invariant
                self.wf(),
                old(self).wf(),
                same_surfaces(*self, *old(self)),
                self.rooms@ == old(self).rooms@,
                room_in_bounds(*room),
                room.y1 + 1 <= y <= room.y2 + 1,
                forall|i: int|
                    0 <= i < MAP_COUNT ==> self.tiles@[i] == if in_room(*room, i) && row_of(i) < y {
                        TileType::Floor
                    } else {
                        old(self).tiles@[i]
                    },
            decreases room.y2 + 1 - y,
        {
            let mut x: i32 = room.x1 + 1;
            while x <= room.x2
                invariant
                    self.wf(),
                    old(self).wf(),
                    same_surfaces(*self, *old(self)),
                    self.rooms@ == old(self).rooms@,
                    room_in_bounds(*room),
                    room.y1 + 1 <= y <= room.y2,
                    room.x1 + 1 <= x <= room.x2 + 1,
                    forall|i: int|
                        0 <= i < MAP_COUNT ==> self.tiles@[i] == if in_room(*room, i) && (row_of(i)
                            < y || (row_of(i) == y && col_of(i) < x)) {
                            TileType::Floor
                        } else {
                            old(self).tiles@[i]
                        },
                decreases room.x2 + 1 - x,
            {
                let idx = self.xy_idx(x, y);
                self.tiles.set(idx, TileType::Floor);
                x = x + 1;
            }
            y = y + 1;
        }
    }

    fn apply_horizontal_tunnel(&mut self, x1: i32, x2: i32, y: i32)
        requires
            old(self).wf(),
            on_grid(x1 as int, y as int),
            on_grid(x2 as int, y as int),
        ensures
            final(self).wf(),
            same_surfaces(*final(self), *old(self)),
            final(self).rooms@ == old(self).rooms@,
            forall|i: int|
                0 <= i < MAP_COUNT ==> final(self).tiles@[i] == if on_hline(
                    x1 as int,
                    x2 as int,
                    y as int,
                    i,
                ) {
                    TileType::Floor
                } else {
                    old(self).tiles@[i]
                },
    {
        let lo = if x1 <= x2 { x1 } else { x2 };
        let hi = if x1 <= x2 { x2 } else { x1 };
        let mut x: i32 = lo;
        while x <= hi
            invariant
                self.wf(),
                old(self).wf(),
                same_surfaces(*self, *old(self)),
                self.rooms@ == old(self).rooms@,
                on_grid(lo as int, y as int),
                on_grid(hi as int, y as int),
                lo == (if x1 <= x2 { x1 } else { x2 }),
                hi == (if x1 <= x2 { x2 } else { x1 }),
                lo <= x <= hi + 1,
                forall|i: int|
                    0 <= i < MAP_COUNT ==> self.tiles@[i] == if row_of(i) == y && lo <= col_of(i)
                        < x {
                        TileType::Floor
                    } else {
                        old(self).tiles@[i]
                    },
            decreases hi + 1 - x,
        {
            let idx = self.xy_idx(x, y);
            proof {
                lemma_idx_split(x as int, y as int);
            }
            self.tiles.set(idx, TileType::Floor);
            x = x + 1;
        }
        assert forall|i: int| 0 <= i < MAP_COUNT implies self.tiles@[i] == if on_hline(
            x1 as int,
            x2 as int,
            y as int,
            i,
        ) {
            TileType::Floor
        } else {
            old(self).tiles@[i]
        } by {
            assert((row_of(i) == y && lo <= col_of(i) < x) == on_hline(
                x1 as int,
                x2 as int,
                y as int,
                i,
            ));
        }
    }

    fn apply_vertical_tunnel(&mut self, y1: i32, y2: i32, x: i32)
        requires
            old(self).wf(),
            on_grid(x as int, y1 as int),
            on_grid(x as int, y2 as int),
        ensures
            final(self).wf(),
            same_surfaces(*final(self), *old(self)),
            final(self).rooms@ == old(self).rooms@,
            forall|i: int|
                0 <= i < MAP_COUNT ==> final(self).tiles@[i] == if on_vline(
                    y1 as int,
                    y2 as int,
                    x as int,
                    i,
                ) {
                    TileType::Floor
                } else {
                    old(self).tiles@[i]
                },
    {
        let lo = if y1 <= y2 { y1 } else { y2 };
        let hi = if y1 <= y2 { y2 } else { y1 };
        let mut y: i32 = lo;
        while y <= hi
            invariant
                self.wf(),
                old(self).wf(),
                same_surfaces(*self, *old(self)),
                self.rooms@ == old(self).rooms@,
                on_grid(x as int, lo as int),
                on_grid(x as int, hi as int),
                lo == (if y1 <= y2 { y1 } else { y2 }),
                hi == (if y1 <= y2 { y2 } else { y1 }),
                lo <= y <= hi + 1,
                forall|i: int|
                    0 <= i < MAP_COUNT ==> self.tiles@[i] == if col_of(i) == x && lo <= row_of(i)
                        < y {
                        TileType::Floor
                    } else {
                        old(self).tiles@[i]
                    },
            decreases hi + 1 - y,
        {
            let idx = self.xy_idx(x, y);
            proof {
                lemma_idx_split(x as int, y as int);
            }
            self.tiles.set(idx, TileType::Floor);
            y = y + 1;
        }
        assert forall|i: int| 0 <= i < MAP_COUNT implies self.tiles@[i] == if on_vline(
            y1 as int,
            y2 as int,
            x as int,
            i,
        ) {
            TileType::Floor
        } else {
            old(self).tiles@[i]
        } by {
            assert((col_of(i) == x && lo <= row_of(i) < y) == on_vline(
                y1 as int,
                y2 as int,
                x as int,
                i,
            ));
        }
    }

    /// One step of the rooms-and-corridors generator, given what was drawn:
    /// the room is accepted when it overlaps no earlier room; then it is
    /// carved, joined to the room accepted before it by a corridor, and
    /// appended. A rejected room leaves the map as it was.
    pub fn add_room(&mut self, room: Rect, horizontal_first: bool) -> (added: bool)
        requires
            old(self).wf(),
            room_in_bounds(room),
            rooms_in_bounds(old(self).rooms@),
            old(self).rooms@.len() < usize::MAX,
        ensures
            added == forall|j: int|
                0 <= j < old(self).rooms@.len() ==> !rects_overlap(room, #[trigger] old(self).rooms@[j]),
            !added ==> *final(self) == *old(self),
            added ==> {
                &&& final(self).wf()
                &&& same_surfaces(*final(self), *old(self))
                &&& final(self).rooms@ == old(self).rooms@.push(room)
                &&& forall|i: int|
                    0 <= i < MAP_COUNT ==> #[trigger] final(self).tiles@[i] == if in_room(room, i) || (
                    old(self).rooms@.len() > 0 && on_corridor(
                        old(self).rooms@.last(),
                        room,
                        horizontal_first,
                        i,
                    )) {
                        TileType::Floor
                    } else {
                        old(self).tiles@[i]
                    }
            },
    {
        let mut ok = true;
        let mut j: usize = 0;
        while j < self.rooms.len()
            invariant
                j <= self.rooms@.len(),
                ok == forall|k: int| 0 <= k < j ==> !rects_overlap(room, #[trigger] self.rooms@[k]),
            decreases self.rooms@.len() - j,
        {
            if room.intersect(&self.rooms[j]) {
                ok = false;
            }
            j = j + 1;
        }
        if !ok {
            return false;
        }
        self.apply_room_to_map(&room);
        let ghost carved = self.tiles@;
        if self.rooms.len() > 0 {
            let (new_x, new_y) = room.center();
            let prev = self.rooms[self.rooms.len() - 1];
            let (prev_x, prev_y) = prev.center();
            proof {
                lemma_center_inside(room);
                lemma_center_inside(prev);
            }
            if horizontal_first {
                self.apply_horizontal_tunnel(prev_x, new_x, prev_y);
                self.apply_vertical_tunnel(prev_y, new_y, new_x);
            } else {
                self.apply_vertical_tunnel(prev_y, new_y, prev_x);
                self.apply_horizontal_tunnel(prev_x, new_x, new_y);
            }
        }
        self.rooms.push(room);
        true
    }

    /// Builds a level by the rooms-and-corridors method: thirty attempts,
    /// each drawing a room six to nine tiles on a side at a random place
    /// inside the border, kept only where it overlaps no room kept before.
    pub fn new_map_rooms_and_corridors(new_depth: i32) -> (map: GameMap)
        ensures
            fresh_map(map, new_depth),
    {
        let mut map = GameMap::new(new_depth);
        let mut rng = rltk::RandomNumberGenerator::new();
        let mut attempt: i32 = 0;
        while attempt < MAX_ROOMS
            invariant
                map.wf(),
                map.depth == new_depth,
                0 <= attempt <= MAX_ROOMS,
                map.rooms@.len() <= attempt,
                attempt > 0 ==> map.rooms@.len() >= 1,
                rooms_disjoint(map.rooms@),
                rooms_in_bounds(map.rooms@),
                rooms_connected(map.tiles@, map.rooms@),
                forall|k: int| 0 <= k < map.rooms@.len() ==> room_sized(#[trigger] map.rooms@[k]),
                forall|k: int, i: int|
                    0 <= k < map.rooms@.len() && 0 <= i < MAP_COUNT && in_room(#[trigger] map.rooms@[k], i)
                        ==> #[trigger] map.tiles@[i] == TileType::Floor,
                forall|i: int|
                    0 <= i < MAP_COUNT && #[trigger] map.tiles@[i] == TileType::Floor ==> carved(
                        map.rooms@,
                        i,
                    ),
                forall|i: int|
                    0 <= i < MAP_COUNT ==> !(#[trigger] map.revealed_tiles@[i]) && !map.visible_tiles@[i]
                        && !map.blocked@[i] && !map.bloodstains@[i] && map.tile_content@[i].len() == 0,
            decreases MAX_ROOMS - attempt,
        {
            let w = rng_range(&mut rng, MIN_SIZE, MAX_SIZE);
            let h = rng_range(&mut rng, MIN_SIZE, MAX_SIZE);
            let x = rng_range(&mut rng, 1, map.width - w) - 1;
            let y = rng_range(&mut rng, 1, map.height - h) - 1;
            let horizontal_first = rng_range(&mut rng, 0, 2) == 1;
            let new_room = Rect::new(x, y, w, h);
            let ghost before = map.rooms@;
            let ghost tiles_before = map.tiles@;
            let added = map.add_room(new_room, horizontal_first);
            proof {
                if added {
                    let t = map.tiles@;
                    assert forall|i: int|
                        0 <= i < MAP_COUNT && tiles_before[i] == TileType::Floor implies t[i]
                        == TileType::Floor by {}
                    let last = before.len() as int;
                    if last == 0 {
                        lemma_center_reaches_itself(t, new_room);
                    } else {
                        lemma_corridor_links(t, before.last(), new_room, horizontal_first);
                        lemma_connected_grows(
                            tiles_before,
                            t,
                            center_of(before[0]),
                            center_of(before[last - 1]),
                        );
                        lemma_connected_chain(
                            t,
                            center_of(before[0]),
                            center_of(before[last - 1]),
                            center_of(new_room),
                        );
                    }
                    assert forall|i: int| 0 <= i < map.rooms@.len() implies connected(
                        t,
                        center_of(map.rooms@[0]),
                        center_of(#[trigger] map.rooms@[i]),
                    ) by {
                        assert(map.rooms@[0] == if last == 0 { new_room } else { before[0] });
                        if i < last {
                            assert(map.rooms@[i] == before[i]);
                            lemma_connected_grows(
                                tiles_before,
                                t,
                                center_of(before[0]),
                                center_of(before[i]),
                            );
                        }
                    }
                    assert forall|k: int, i: int|
                        0 <= k < map.rooms@.len() && 0 <= i < MAP_COUNT && in_room(
                            #[trigger] map.rooms@[k],
                            i,
                        ) implies #[trigger] t[i] == TileType::Floor by {
                        if k < last {
                            assert(map.rooms@[k] == before[k]);
                        }
                    }
                    assert forall|i: int|
                        0 <= i < MAP_COUNT && #[trigger] t[i] == TileType::Floor implies carved(
                        map.rooms@,
                        i,
                    ) by {
                        if tiles_before[i] == TileType::Floor {
                            let k = choose|k: int|
                                0 <= k < before.len() && (in_room(#[trigger] before[k], i) || (k >= 1
                                    && (on_corridor(before[k - 1], before[k], true, i) || on_corridor(
                                    before[k - 1],
                                    before[k],
                                    false,
                                    i,
                                ))));
                            assert(map.rooms@[k] == before[k]);
                            if k >= 1 {
                                assert(map.rooms@[k - 1] == before[k - 1]);
                            }
                        } else {
                            assert(map.rooms@[last] == new_room);
                            if last >= 1 {
                                assert(map.rooms@[last - 1] == before[last - 1]);
                            }
                        }
                    }
                    assert forall|i: int, j: int|
                        0 <= i < j < map.rooms@.len() implies !rects_overlap(
                        #[trigger] map.rooms@[i],
                        #[trigger] map.rooms@[j],
                    ) by {
                        if j == before.len() {
                            assert(!rects_overlap(new_room, before[i]));
                        } else {
                            assert(before[i] == map.rooms@[i] && before[j] == map.rooms@[j]);
                        }
                    }
                }
            }
            attempt = attempt + 1;
        }
        proof {
            assert forall|x: int, y: int| on_grid(x, y) && on_border(x, y) implies #[trigger] map.tiles@[idx_of(
                x,
                y,
            )] == TileType::Wall by {
                lemma_idx_split(x, y);
                if map.tiles@[idx_of(x, y)] == TileType::Floor {
                    lemma_carved_inside(map.rooms@, idx_of(x, y));
                }
            }
        }
        map
    }

    /// A tile may be stepped onto when it lies strictly inside the border and
    /// is not blocked.
    pub open spec fn exit_valid(&self, x: int, y: int) -> bool {
        1 <= x < MAP_WIDTH - 1 && 1 <= y < MAP_HEIGHT - 1 && !self.blocked@[idx_of(x, y)]
    }

    pub fn is_exit_valid(&self, x: i32, y: i32) -> (r: bool)
        requires
            self.wf(),
        ensures
            r == self.exit_valid(x as int, y as int),
    {
        if x < 1 || x >= self.width - 1 || y < 1 || y >= self.height - 1 {
            return false;
        }
        let idx = self.xy_idx(x, y);
        !self.blocked[idx]
    }

    /// Marks as blocked exactly the wall tiles.
    pub fn populate_blocked(&mut self)
        requires
            old(self).wf(),
        ensures
            final(self).wf(),
            final(self).tiles@ == old(self).tiles@,
            final(self).rooms@ == old(self).rooms@,
            final(self).revealed_tiles@ == old(self).revealed_tiles@,
            final(self).visible_tiles@ == old(self).visible_tiles@,
            final(self).bloodstains@ == old(self).bloodstains@,
            final(self).tile_content@ == old(self).tile_content@,
            final(self).depth == old(self).depth,
            forall|i: int|
                0 <= i < MAP_COUNT ==> final(self).blocked@[i] == (final(self).tiles@[i]
                    == TileType::Wall),
    {
        let mut i: usize = 0;
        while i < self.tiles.len()
            invariant
                self.wf(),
                old(self).wf(),
                i <= MAP_COUNT,
                self.tiles@ == old(self).tiles@,
                self.rooms@ == old(self).rooms@,
                self.revealed_tiles@ == old(self).revealed_tiles@,
                self.visible_tiles@ == old(self).visible_tiles@,
                self.bloodstains@ == old(self).bloodstains@,
                self.tile_content@ == old(self).tile_content@,
                self.depth == old(self).depth,
                forall|j: int| 0 <= j < i ==> self.blocked@[j] == (self.tiles@[j] == TileType::Wall),
            decreases MAP_COUNT - i,
        {
            let wall = self.tiles[i] == TileType::Wall;
            self.blocked.set(i, wall);
            i = i + 1;
        }
    }

    /// Empties the occupancy list of every tile.
    pub fn clear_content_index(&mut self)
        requires
            old(self).wf(),
        ensures
            final(self).wf(),
            final(self).tiles@ == old(self).tiles@,
            final(self).rooms@ == old(self).rooms@,
            final(self).revealed_tiles@ == old(self).revealed_tiles@,
            final(self).visible_tiles@ == old(self).visible_tiles@,
            final(self).blocked@ == old(self).blocked@,
            final(self).bloodstains@ == old(self).bloodstains@,
            final(self).depth == old(self).depth,
            forall|i: int| 0 <= i < MAP_COUNT ==> final(self).tile_content@[i].len() == 0,
    {
        let mut i: usize = 0;
        while i < self.tile_content.len()
            invariant
                self.wf(),
                old(self).wf(),
                i <= MAP_COUNT,
                self.tiles@ == old(self).tiles@,
                self.rooms@ == old(self).rooms@,
                self.revealed_tiles@ == old(self).revealed_tiles@,
                self.visible_tiles@ == old(self).visible_tiles@,
                self.blocked@ == old(self).blocked@,
                self.bloodstains@ == old(self).bloodstains@,
                self.depth == old(self).depth,
                forall|j: int| 0 <= j < i ==> self.tile_content@[j].len() == 0,
            decreases MAP_COUNT - i,
        {
            self.tile_content.set(i, Vec::new());
            i = i + 1;
        }
    }

    /// A tile blocks sight exactly when it is a wall.
    pub fn is_opaque(&self, idx: i32) -> (r: bool)
        requires
            self.wf(),
            0 <= idx < MAP_COUNT,
        ensures
            r == (self.tiles@[idx as int] == TileType::Wall),
    {
        self.tiles[idx as usize] == TileType::Wall
    }

    /// The neighbours of a tile that may be stepped onto, with their cost in
    /// hundredths of a step: the four sides first (100), then the four
    /// corners (145).
    pub open spec fn exits(&self, idx: int) -> Seq<(i32, i32)> {
        let (x, y, w) = (col_of(idx), row_of(idx), MAP_WIDTH as int);
        let s0 = Seq::<(i32, i32)>::empty();
        let s1 = if self.exit_valid(x - 1, y) { s0.push(((idx - 1) as i32, 100i32)) } else { s0 };
        let s2 = if self.exit_valid(x + 1, y) { s1.push(((idx + 1) as i32, 100i32)) } else { s1 };
        let s3 = if self.exit_valid(x, y - 1) { s2.push(((idx - w) as i32, 100i32)) } else { s2 };
        let s4 = if self.exit_valid(x, y + 1) { s3.push(((idx + w) as i32, 100i32)) } else { s3 };
        let s5 = if self.exit_valid(x - 1, y - 1) { s4.push(((idx - w - 1) as i32, 145i32)) } else { s4 };
        let s6 = if self.exit_valid(x + 1, y - 1) { s5.push(((idx - w + 1) as i32, 145i32)) } else { s5 };
        let s7 = if self.exit_valid(x - 1, y + 1) { s6.push(((idx + w - 1) as i32, 145i32)) } else { s6 };
        if self.exit_valid(x + 1, y + 1) { s7.push(((idx + w + 1) as i32, 145i32)) } else { s7 }
    }

    pub fn get_available_exits(&self, idx: i32) -> (exits: Vec<(i32, i32)>)
        requires
            self.wf(),
            0 <= idx < MAP_COUNT,
        ensures
            exits@ == self.exits(idx as int),
    {
        let mut exits: Vec<(i32, i32)> = Vec::new();
        let x = idx % self.width;
        let y = idx / self.width;
        let w = self.width;
        if self.is_exit_valid(x - 1, y) {
            exits.push((idx - 1, 100));
        }
        if self.is_exit_valid(x + 1, y) {
            exits.push((idx + 1, 100));
        }
        if self.is_exit_valid(x, y - 1) {
            exits.push((idx - w, 100));
        }
        if self.is_exit_valid(x, y + 1) {
            exits.push((idx + w, 100));
        }
        if self.is_exit_valid(x - 1, y - 1) {
            exits.push(((idx - w) - 1, 145));
        }
        if self.is_exit_valid(x + 1, y - 1) {
            exits.push(((idx - w) + 1, 145));
        }
        if self.is_exit_valid(x - 1, y + 1) {
            exits.push(((idx + w) - 1, 145));
        }
        if self.is_exit_valid(x + 1, y + 1) {
            exits.push(((idx + w) + 1, 145));
        }
        exits
    }

    /// Whether a point lies strictly inside the border.
    pub fn in_bounds(&self, pos: Point) -> (r: bool)
        requires
            self.wf(),
        ensures
            r == (0 < pos.x < MAP_WIDTH - 1 && 0 < pos.y < MAP_HEIGHT - 1),
    {
        pos.x > 0 && pos.x < self.width - 1 && pos.y > 0 && pos.y < self.height - 1
    }

    pub fn point2d_to_index(&self, pt: Point) -> (r: i32)
        requires
            self.wf(),
            on_grid(pt.x as int, pt.y as int),
        ensures
            r == idx_of(pt.x as int, pt.y as int),
    {
        proof {
            lemma_idx_split(pt.x as int, pt.y as int);
        }
        (pt.y * self.width) + pt.x
    }

    pub fn index_to_point2d(&self, idx: i32) -> (r: Point)
        requires
            self.wf(),
            0 <= idx < MAP_COUNT,
        ensures
            r.x == col_of(idx as int),
            r.y == row_of(idx as int),
            on_grid(r.x as int, r.y as int),
            idx_of(r.x as int, r.y as int) == idx,
    {
        proof {
            lemma_idx_join(idx as int);
        }
        Point { x: idx % self.width, y: idx / self.width }
    }

    /// Tests whether the map is well formed.
    pub fn wf_check(&self) -> (r: bool)
        ensures
            r == self.wf(),
    {
        self.width == MAP_WIDTH as i32 && self.height == MAP_HEIGHT as i32 && self.tiles.len()
            == MAP_COUNT && self.revealed_tiles.len() == MAP_COUNT && self.visible_tiles.len()
            == MAP_COUNT && self.blocked.len() == MAP_COUNT && self.bloodstains.len() == MAP_COUNT
            && self.tile_content.len() == MAP_COUNT
    }
}

} // verus!
