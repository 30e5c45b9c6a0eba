//! The fixed graph of the board: 19 hexagonal tiles, the 54 vertices at their
//! corners and the 72 edges along their sides.
//!
//! Tiles 0 to 11 form the outer ring, 12 to 17 the inner ring, 18 is the
//! centre. Vertices 0 to 29 run round the coast, 30 to 47 between the two
//! rings, 48 to 53 round the centre tile. The tiles and their corners are a
//! table; the edges are the sides of the tiles, numbered in the order in which
//! a walk over the tiles, side by side, first meets them.

use vstd::prelude::*;
use crate::types::{EdgeId, PowerUp, TileId, VertexId};

verus! {

/// The number of vertices.
pub const VERTEX_COUNT: usize = 54;

/// The number of edges.
pub const EDGE_COUNT: usize = 72;

/// The number of tiles.
pub const TILE_COUNT: usize = 19;

/// The `k`-th of six values.
pub open spec fn one_of_six(
    k: int,
    a: usize,
    b: usize,
    c: usize,
    d: usize,
    e: usize,
    f: usize,
) -> usize {
    if k == 0 {
        a
    } else if k == 1 {
        b
    } else if k == 2 {
        c
    } else if k == 3 {
        d
    } else if k == 4 {
        e
    } else {
        f
    }
}

/// The `i`-th of three values.
pub open spec fn one_of_three(i: int, a: usize, b: usize, c: usize) -> usize {
    if i == 0 {
        a
    } else if i == 1 {
        b
    } else {
        c
    }
}

/// Corner `k` of tile `t`, counting round the hexagon.
pub open spec fn tile_corner(t: TileId, k: int) -> usize {
    match t {
        0 => one_of_six(k, 0, 1, 31, 30, 47, 29),
        1 => one_of_six(k, 1, 2, 3, 4, 32, 31),
        2 => one_of_six(k, 4, 5, 6, 34, 33, 32),
        3 => one_of_six(k, 6, 7, 8, 9, 35, 34),
        4 => one_of_six(k, 35, 9, 10, 11, 37, 36),
        5 => one_of_six(k, 37, 11, 12, 13, 14, 38),
        6 => one_of_six(k, 39, 38, 14, 15, 16, 40),
        7 => one_of_six(k, 41, 40, 16, 17, 18, 19),
        8 => one_of_six(k, 43, 42, 41, 19, 20, 21),
        9 => one_of_six(k, 24, 44, 43, 21, 22, 23),
        10 => one_of_six(k, 26, 46, 45, 44, 24, 25),
        11 => one_of_six(k, 28, 29, 47, 46, 26, 27),
        12 => one_of_six(k, 47, 30, 48, 53, 45, 46),
        13 => one_of_six(k, 31, 32, 33, 49, 48, 30),
        14 => one_of_six(k, 33, 34, 35, 36, 50, 49),
        15 => one_of_six(k, 50, 36, 37, 38, 39, 51),
        16 => one_of_six(k, 52, 51, 39, 40, 41, 42),
        17 => one_of_six(k, 45, 53, 52, 42, 43, 44),
        18 => one_of_six(k, 48, 49, 50, 51, 52, 53),
        _ => 0,
    }
}

/// The six corners of tile `t`, in order round the hexagon.
pub open spec fn tile_corners(t: TileId) -> Seq<usize> {
    Seq::new(6, |k: int| tile_corner(t, k))
}

/// The two ends of edge `e`, the smaller first.
pub open spec fn edge_ends(e: EdgeId) -> (usize, usize) {
    match e {
        0 => (0, 1),
        1 => (1, 31),
        2 => (30, 31),
        3 => (30, 47),
        4 => (29, 47),
        5 => (0, 29),
        6 => (1, 2),
        7 => (2, 3),
        8 => (3, 4),
        9 => (4, 32),
        10 => (31, 32),
        11 => (4, 5),
        12 => (5, 6),
        13 => (6, 34),
        14 => (33, 34),
        15 => (32, 33),
        16 => (6, 7),
        17 => (7, 8),
        18 => (8, 9),
        19 => (9, 35),
        20 => (34, 35),
        21 => (9, 10),
        22 => (10, 11),
        23 => (11, 37),
        24 => (36, 37),
        25 => (35, 36),
        26 => (11, 12),
        27 => (12, 13),
        28 => (13, 14),
        29 => (14, 38),
        30 => (37, 38),
        31 => (38, 39),
        32 => (14, 15),
        33 => (15, 16),
        34 => (16, 40),
        35 => (39, 40),
        36 => (40, 41),
        37 => (16, 17),
        38 => (17, 18),
        39 => (18, 19),
        40 => (19, 41),
        41 => (42, 43),
        42 => (41, 42),
        43 => (19, 20),
        44 => (20, 21),
        45 => (21, 43),
        46 => (24, 44),
        47 => (43, 44),
        48 => (21, 22),
        49 => (22, 23),
        50 => (23, 24),
        51 => (26, 46),
        52 => (45, 46),
        53 => (44, 45),
        54 => (24, 25),
        55 => (25, 26),
        56 => (28, 29),
        57 => (46, 47),
        58 => (26, 27),
        59 => (27, 28),
        60 => (30, 48),
        61 => (48, 53),
        62 => (45, 53),
        63 => (33, 49),
        64 => (48, 49),
        65 => (36, 50),
        66 => (49, 50),
        67 => (39, 51),
        68 => (50, 51),
        69 => (51, 52),
        70 => (42, 52),
        71 => (52, 53),
        _ => (0, 0),
    }
}

/// The port at vertex `v`, if it has one.
pub open spec fn port_at(v: VertexId) -> Option<PowerUp> {
    match v {
        0 => Some(PowerUp::Wheat2),
        1 => Some(PowerUp::Wheat2),
        4 => Some(PowerUp::Stone2),
        5 => Some(PowerUp::Stone2),
        7 => Some(PowerUp::Any3),
        8 => Some(PowerUp::Any3),
        10 => Some(PowerUp::Sheep2),
        11 => Some(PowerUp::Sheep2),
        14 => Some(PowerUp::Any3),
        15 => Some(PowerUp::Any3),
        17 => Some(PowerUp::Any3),
        18 => Some(PowerUp::Any3),
        20 => Some(PowerUp::Brick2),
        21 => Some(PowerUp::Brick2),
        24 => Some(PowerUp::Wood2),
        25 => Some(PowerUp::Wood2),
        27 => Some(PowerUp::Any3),
        28 => Some(PowerUp::Any3),
        _ => None,
    }
}

/// Whether edge `e` ends at vertex `v`.
pub open spec fn touches(e: EdgeId, v: VertexId) -> bool {
    edge_ends(e).0 == v || edge_ends(e).1 == v
}

/// The end of edge `e` that is not `v`, for an edge that touches `v`.
pub open spec fn far_end(e: EdgeId, v: VertexId) -> usize {
    if edge_ends(e).0 == v {
        edge_ends(e).1
    } else {
        edge_ends(e).0
    }
}

/// Whether `v` is a corner of tile `t`.
pub open spec fn on_tile(t: TileId, v: VertexId) -> bool {
    exists|k: int| 0 <= k < 6 && #[trigger] tile_corner(t, k) == v
}

/// The two vertices `a` and `b`, the smaller first.
pub open spec fn in_order(a: VertexId, b: VertexId) -> (VertexId, VertexId) {
    if a < b {
        (a, b)
    } else {
        (b, a)
    }
}

/// The edges among the first `n` that touch vertex `v`, in rising order.
pub open spec fn edges_below(v: VertexId, n: int) -> Seq<usize>
    decreases n,
{
    if n <= 0 {
        Seq::empty()
    } else if touches((n - 1) as usize, v) {
        edges_below(v, n - 1).push((n - 1) as usize)
    } else {
        edges_below(v, n - 1)
    }
}

/// The edges that touch vertex `v`, in rising order.
pub open spec fn edges_at(v: VertexId) -> Seq<usize> {
    edges_below(v, EDGE_COUNT as int)
}

/// The tiles around vertex `v`, as a walk over the first `t` tiles and, of
/// tile `t`, its first `k` corners lists them: each tile once for each corner
/// of it that is `v`.
pub open spec fn tiles_below(v: VertexId, t: int, k: int) -> Seq<usize>
    decreases t, k,
{
    if k > 0 {
        if tile_corner(t as usize, k - 1) == v {
            tiles_below(v, t, k - 1).push(t as usize)
        } else {
            tiles_below(v, t, k - 1)
        }
    } else if t > 0 {
        tiles_below(v, t - 1, 6)
    } else {
        Seq::empty()
    }
}

/// The tiles of which vertex `v` is a corner, in rising order.
pub open spec fn tiles_at(v: VertexId) -> Seq<usize> {
    tiles_below(v, TILE_COUNT as int, 0)
}

/// The six corners of tile `t`.
pub fn corners_of(t: TileId) -> (c: [VertexId; 6])
    requires
        t < TILE_COUNT,
    ensures
        c@ == tile_corners(t),
{
    let c: [VertexId; 6] = match t {
        0 => [0, 1, 31, 30, 47, 29],
        1 => [1, 2, 3, 4, 32, 31],
        2 => [4, 5, 6, 34, 33, 32],
        3 => [6, 7, 8, 9, 35, 34],
        4 => [35, 9, 10, 11, 37, 36],
        5 => [37, 11, 12, 13, 14, 38],
        6 => [39, 38, 14, 15, 16, 40],
        7 => [41, 40, 16, 17, 18, 19],
        8 => [43, 42, 41, 19, 20, 21],
        9 => [24, 44, 43, 21, 22, 23],
        10 => [26, 46, 45, 44, 24, 25],
        11 => [28, 29, 47, 46, 26, 27],
        12 => [47, 30, 48, 53, 45, 46],
        13 => [31, 32, 33, 49, 48, 30],
        14 => [33, 34, 35, 36, 50, 49],
        15 => [50, 36, 37, 38, 39, 51],
        16 => [52, 51, 39, 40, 41, 42],
        17 => [45, 53, 52, 42, 43, 44],
        _ => [48, 49, 50, 51, 52, 53],
    };
    assert(c@ =~= tile_corners(t));
    c
}

/// The port at vertex `v`, if it has one.
pub fn port_of(v: VertexId) -> (port: Option<PowerUp>)
    ensures
        port == port_at(v),
{
    match v {
        0 | 1 => Some(PowerUp::Wheat2),
        4 | 5 => Some(PowerUp::Stone2),
        7 | 8 => Some(PowerUp::Any3),
        10 | 11 => Some(PowerUp::Sheep2),
        14 | 15 => Some(PowerUp::Any3),
        17 | 18 => Some(PowerUp::Any3),
        20 | 21 => Some(PowerUp::Brick2),
        24 | 25 => Some(PowerUp::Wood2),
        27 | 28 => Some(PowerUp::Any3),
        _ => None,
    }
}

/// The ends of an edge are two vertices of the board, the smaller first.
pub proof fn lemma_edge_ends(e: EdgeId)
    requires
        e < EDGE_COUNT,
    ensures
        edge_ends(e).0 < edge_ends(e).1 < VERTEX_COUNT,
{
}

/// The corners of a tile are vertices of the board.
pub proof fn lemma_tile_corner(t: TileId, k: int)
    requires
        t < TILE_COUNT,
        0 <= k < 6,
    ensures
        tile_corner(t, k) < VERTEX_COUNT,
{
}

/// No two edges join the same two vertices.
pub proof fn edges_are_distinct(e1: EdgeId, e2: EdgeId)
    requires
        e1 < EDGE_COUNT,
        e2 < EDGE_COUNT,
        edge_ends(e1) == edge_ends(e2),
    ensures
        e1 == e2,
{
}

/// The corners of a tile are six different vertices.
pub proof fn corners_are_distinct(t: TileId, j: int, k: int)
    requires
        t < TILE_COUNT,
        0 <= j < k < 6,
    ensures
        tile_corner(t, j) != tile_corner(t, k),
{
}

/// `edges_below(v, n)` lists, in rising order, exactly the edges under `n`
/// that touch `v`.
pub proof fn lemma_edges_below(v: VertexId, n: int)
    requires
        0 <= n <= EDGE_COUNT,
    ensures
        edges_below(v, n).len() <= n,
        forall|j: int|
            0 <= j < edges_below(v, n).len() ==> (#[trigger] edges_below(v, n)[j]) < n && touches(
                edges_below(v, n)[j],
                v,
            ),
        forall|i: int, j: int|
            0 <= i < j < edges_below(v, n).len() ==> edges_below(v, n)[i] < edges_below(v, n)[j],
        forall|e: EdgeId| e < n && touches(e, v) ==> edges_below(v, n).contains(e),
    decreases n,
{
    if n > 0 {
        lemma_edges_below(v, n - 1);
        let before = edges_below(v, n - 1);
        let now = edges_below(v, n);
        assert forall|e: EdgeId| e < n && touches(e, v) implies now.contains(e) by {
            if e < n - 1 {
                let j = choose|j: int| 0 <= j < before.len() && before[j] == e;
                assert(now[j] == e);
            } else {
                assert(now[now.len() - 1] == e);
            }
        }
    }
}

/// The edges listed at a vertex are edges of the board that touch it, each
/// listed once, and every edge that touches the vertex is listed.
pub proof fn lemma_edges_at(v: VertexId)
    ensures
        forall|j: int|
            0 <= j < edges_at(v).len() ==> (#[trigger] edges_at(v)[j]) < EDGE_COUNT && touches(
                edges_at(v)[j],
                v,
            ),
        edges_at(v).no_duplicates(),
        forall|e: EdgeId| e < EDGE_COUNT && touches(e, v) ==> edges_at(v).contains(e),
{
    lemma_edges_below(v, EDGE_COUNT as int);
}

/// `tiles_below(v, t, k)` lists tiles under `t`, and `t` itself where `k` is
/// not 0, of which `v` is a corner.
pub proof fn lemma_tiles_below(v: VertexId, t: int, k: int)
    requires
        0 <= t <= TILE_COUNT,
        0 <= k <= 6,
        t == TILE_COUNT ==> k == 0,
    ensures
        forall|j: int|
            0 <= j < tiles_below(v, t, k).len() ==> (#[trigger] tiles_below(v, t, k)[j]) <= t
                && (tiles_below(v, t, k)[j] == t ==> k > 0) && on_tile(tiles_below(v, t, k)[j], v),
    decreases t, k,
{
    let now = tiles_below(v, t, k);
    if k > 0 {
        lemma_tiles_below(v, t, k - 1);
        let before = tiles_below(v, t, k - 1);
        if tile_corner(t as usize, k - 1) == v {
            assert(on_tile(t as usize, v));
            assert(now == before.push(t as usize));
        } else {
            assert(now == before);
        }
        assert forall|j: int| 0 <= j < now.len() implies (#[trigger] now[j]) <= t && (now[j] == t
            ==> k > 0) && on_tile(now[j], v) by {
            if j < before.len() {
                assert(now[j] == before[j]);
            }
        }
    } else if t > 0 {
        lemma_tiles_below(v, t - 1, 6);
        assert(now == tiles_below(v, t - 1, 6));
    }
}

/// `tiles_below(v, t, k)` lists every tile under `t` of which `v` is a corner,
/// and `t` itself where `v` is among its first `k` corners.
pub proof fn lemma_tiles_below_complete(v: VertexId, t: int, k: int, u: TileId, c: int)
    requires
        0 <= t <= TILE_COUNT,
        0 <= k <= 6,
        0 <= c < 6,
        tile_corner(u, c) == v,
        u < t || (u == t && c < k),
    ensures
        tiles_below(v, t, k).contains(u),
    decreases t, k,
{
    let now = tiles_below(v, t, k);
    if k > 0 {
        let before = tiles_below(v, t, k - 1);
        if u == t && c == k - 1 {
            assert(now == before.push(t as usize));
            assert(now[now.len() - 1] == u);
        } else {
            lemma_tiles_below_complete(v, t, k - 1, u, c);
            let i = choose|i: int| 0 <= i < before.len() && before[i] == u;
            assert(now[i] == u);
        }
    } else {
        lemma_tiles_below_complete(v, t - 1, 6, u, c);
    }
}

/// `tiles_below(v, t, k)` lists its tiles in rising order.
pub proof fn lemma_tiles_rise(v: VertexId, t: int, k: int)
    requires
        0 <= t <= TILE_COUNT,
        0 <= k <= 6,
        t == TILE_COUNT ==> k == 0,
    ensures
        forall|i: int, j: int|
            0 <= i < j < tiles_below(v, t, k).len() ==> tiles_below(v, t, k)[i] < tiles_below(
                v,
                t,
                k,
            )[j],
        forall|j: int|
            0 <= j < tiles_below(v, t, k).len() && tiles_below(v, t, k)[j] == t ==> exists|c: int|
                0 <= c < k && #[trigger] tile_corner(t as usize, c) == v,
    decreases t, k,
{
    let now = tiles_below(v, t, k);
    lemma_tiles_below(v, t, k);
    if k > 0 {
        lemma_tiles_rise(v, t, k - 1);
        lemma_tiles_below(v, t, k - 1);
        let before = tiles_below(v, t, k - 1);
        if tile_corner(t as usize, k - 1) == v {
            assert(now == before.push(t as usize));
            assert forall|j: int| 0 <= j < before.len() implies before[j] < t by {
                if before[j] == t {
                    let c = choose|c: int|
                        0 <= c < k - 1 && #[trigger] tile_corner(t as usize, c) == v;
                    corners_are_distinct(t as usize, c, k - 1);
                }
            }
            assert forall|j: int| 0 <= j < now.len() && now[j] == t implies exists|c: int|
                0 <= c < k && #[trigger] tile_corner(t as usize, c) == v by {
                assert(tile_corner(t as usize, k - 1) == v);
            }
        } else {
            assert(now == before);
            assert forall|j: int| 0 <= j < now.len() && now[j] == t implies exists|c: int|
                0 <= c < k && #[trigger] tile_corner(t as usize, c) == v by {
                let c = choose|c: int| 0 <= c < k - 1 && #[trigger] tile_corner(t as usize, c) == v;
                assert(tile_corner(t as usize, c) == v);
            }
        }
    } else if t > 0 {
        lemma_tiles_rise(v, t - 1, 6);
        lemma_tiles_below(v, t - 1, 6);
        assert(now == tiles_below(v, t - 1, 6));
    }
}

/// The tiles listed at a vertex are the tiles of the board of which it is a
/// corner.
pub proof fn lemma_tiles_at(v: VertexId)
    ensures
        forall|j: int|
            0 <= j < tiles_at(v).len() ==> (#[trigger] tiles_at(v)[j]) < TILE_COUNT && on_tile(
                tiles_at(v)[j],
                v,
            ),
        forall|t: TileId| t < TILE_COUNT && on_tile(t, v) ==> tiles_at(v).contains(t),
{
    lemma_tiles_below(v, TILE_COUNT as int, 0);
    assert forall|t: TileId| t < TILE_COUNT && on_tile(t, v) implies tiles_at(v).contains(t) by {
        let c = choose|c: int| 0 <= c < 6 && #[trigger] tile_corner(t, c) == v;
        lemma_tiles_below_complete(v, TILE_COUNT as int, 0, t, c);
    }
}

/// The edge along the side of tile `t` that runs from corner `k` to the next
/// corner round the tile.
pub open spec fn side_edge(t: TileId, k: int) -> EdgeId {
    match t {
        0 => one_of_six(k, 0, 1, 2, 3, 4, 5),
        1 => one_of_six(k, 6, 7, 8, 9, 10, 1),
        2 => one_of_six(k, 11, 12, 13, 14, 15, 9),
        3 => one_of_six(k, 16, 17, 18, 19, 20, 13),
        4 => one_of_six(k, 19, 21, 22, 23, 24, 25),
        5 => one_of_six(k, 23, 26, 27, 28, 29, 30),
        6 => one_of_six(k, 31, 29, 32, 33, 34, 35),
        7 => one_of_six(k, 36, 34, 37, 38, 39, 40),
        8 => one_of_six(k, 41, 42, 40, 43, 44, 45),
        9 => one_of_six(k, 46, 47, 45, 48, 49, 50),
        10 => one_of_six(k, 51, 52, 53, 46, 54, 55),
        11 => one_of_six(k, 56, 4, 57, 51, 58, 59),
        12 => one_of_six(k, 3, 60, 61, 62, 52, 57),
        13 => one_of_six(k, 10, 15, 63, 64, 60, 2),
        14 => one_of_six(k, 14, 20, 25, 65, 66, 63),
        15 => one_of_six(k, 65, 24, 30, 31, 67, 68),
        16 => one_of_six(k, 69, 67, 35, 36, 42, 70),
        17 => one_of_six(k, 62, 71, 70, 41, 47, 53),
        18 => one_of_six(k, 64, 66, 68, 69, 71, 61),
        _ => 0,
    }
}

/// A tile, and a corner of it, at which edge `e` starts as a side.
pub open spec fn edge_side(e: EdgeId) -> (TileId, int) {
    match e {
        0 => (0, 0),
        1 => (0, 1),
        2 => (0, 2),
        3 => (0, 3),
        4 => (0, 4),
        5 => (0, 5),
        6 => (1, 0),
        7 => (1, 1),
        8 => (1, 2),
        9 => (1, 3),
        10 => (1, 4),
        11 => (2, 0),
        12 => (2, 1),
        13 => (2, 2),
        14 => (2, 3),
        15 => (2, 4),
        16 => (3, 0),
        17 => (3, 1),
        18 => (3, 2),
        19 => (3, 3),
        20 => (3, 4),
        21 => (4, 1),
        22 => (4, 2),
        23 => (4, 3),
        24 => (4, 4),
        25 => (4, 5),
        26 => (5, 1),
        27 => (5, 2),
        28 => (5, 3),
        29 => (5, 4),
        30 => (5, 5),
        31 => (6, 0),
        32 => (6, 2),
        33 => (6, 3),
        34 => (6, 4),
        35 => (6, 5),
        36 => (7, 0),
        37 => (7, 2),
        38 => (7, 3),
        39 => (7, 4),
        40 => (7, 5),
        41 => (8, 0),
        42 => (8, 1),
        43 => (8, 3),
        44 => (8, 4),
        45 => (8, 5),
        46 => (9, 0),
        47 => (9, 1),
        48 => (9, 3),
        49 => (9, 4),
        50 => (9, 5),
        51 => (10, 0),
        52 => (10, 1),
        53 => (10, 2),
        54 => (10, 4),
        55 => (10, 5),
        56 => (11, 0),
        57 => (11, 2),
        58 => (11, 4),
        59 => (11, 5),
        60 => (12, 1),
        61 => (12, 2),
        62 => (12, 3),
        63 => (13, 2),
        64 => (13, 3),
        65 => (14, 3),
        66 => (14, 4),
        67 => (15, 4),
        68 => (15, 5),
        69 => (16, 0),
        70 => (16, 5),
        71 => (17, 1),
        _ => (0, 0),
    }
}

/// The place of side `k` of tile `t` in a walk over the tiles, side by side.
pub open spec fn side_rank(t: TileId, k: int) -> int {
    6 * t + k
}

/// Every side of a tile is an edge: the side of tile `t` from corner `k` to
/// the next corner round the tile is the edge `side_edge(t, k)`.
pub proof fn every_side_is_an_edge(t: TileId, k: int)
    requires
        t < TILE_COUNT,
        0 <= k < 6,
    ensures
        side_edge(t, k) < EDGE_COUNT,
        edge_ends(side_edge(t, k)) == in_order(tile_corner(t, k), tile_corner(t, (k + 1) % 6)),
{
}

/// Every edge is a side of a tile: edge `e` is the side of the tile and
/// corner that `edge_side(e)` names.
pub proof fn every_edge_is_a_side(e: EdgeId)
    requires
        e < EDGE_COUNT,
    ensures
        edge_side(e).0 < TILE_COUNT,
        0 <= edge_side(e).1 < 6,
        side_edge(edge_side(e).0, edge_side(e).1) == e,
{
}

/// The walk over the tiles meets every edge first at the side that
/// `edge_side` names.
pub proof fn lemma_first_side(t: TileId, k: int)
    requires
        t < TILE_COUNT,
        0 <= k < 6,
    ensures
        side_rank(edge_side(side_edge(t, k)).0, edge_side(side_edge(t, k)).1) <= side_rank(t, k),
{
}

/// The edges are numbered in the order in which the walk over the tiles
/// first meets them.
pub proof fn lemma_edges_in_order_of_first_sides(e1: EdgeId, e2: EdgeId)
    requires
        e1 < e2 < EDGE_COUNT,
    ensures
        side_rank(edge_side(e1).0, edge_side(e1).1) < side_rank(edge_side(e2).0, edge_side(e2).1),
{
}

/// The edges that end at vertex `v`, in rising order: two or three of them.
/// Where there are two, the last stands twice.
pub open spec fn edge_at(v: VertexId, i: int) -> EdgeId {
    match v {
        0 => one_of_three(i, 0, 5, 5),
        1 => one_of_three(i, 0, 1, 6),
        2 => one_of_three(i, 6, 7, 7),
        3 => one_of_three(i, 7, 8, 8),
        4 => one_of_three(i, 8, 9, 11),
        5 => one_of_three(i, 11, 12, 12),
        6 => one_of_three(i, 12, 13, 16),
        7 => one_of_three(i, 16, 17, 17),
        8 => one_of_three(i, 17, 18, 18),
        9 => one_of_three(i, 18, 19, 21),
        10 => one_of_three(i, 21, 22, 22),
        11 => one_of_three(i, 22, 23, 26),
        12 => one_of_three(i, 26, 27, 27),
        13 => one_of_three(i, 27, 28, 28),
        14 => one_of_three(i, 28, 29, 32),
        15 => one_of_three(i, 32, 33, 33),
        16 => one_of_three(i, 33, 34, 37),
        17 => one_of_three(i, 37, 38, 38),
        18 => one_of_three(i, 38, 39, 39),
        19 => one_of_three(i, 39, 40, 43),
        20 => one_of_three(i, 43, 44, 44),
        21 => one_of_three(i, 44, 45, 48),
        22 => one_of_three(i, 48, 49, 49),
        23 => one_of_three(i, 49, 50, 50),
        24 => one_of_three(i, 46, 50, 54),
        25 => one_of_three(i, 54, 55, 55),
        26 => one_of_three(i, 51, 55, 58),
        27 => one_of_three(i, 58, 59, 59),
        28 => one_of_three(i, 56, 59, 59),
        29 => one_of_three(i, 4, 5, 56),
        30 => one_of_three(i, 2, 3, 60),
        31 => one_of_three(i, 1, 2, 10),
        32 => one_of_three(i, 9, 10, 15),
        33 => one_of_three(i, 14, 15, 63),
        34 => one_of_three(i, 13, 14, 20),
        35 => one_of_three(i, 19, 20, 25),
        36 => one_of_three(i, 24, 25, 65),
        37 => one_of_three(i, 23, 24, 30),
        38 => one_of_three(i, 29, 30, 31),
        39 => one_of_three(i, 31, 35, 67),
        40 => one_of_three(i, 34, 35, 36),
        41 => one_of_three(i, 36, 40, 42),
        42 => one_of_three(i, 41, 42, 70),
        43 => one_of_three(i, 41, 45, 47),
        44 => one_of_three(i, 46, 47, 53),
        45 => one_of_three(i, 52, 53, 62),
        46 => one_of_three(i, 51, 52, 57),
        47 => one_of_three(i, 3, 4, 57),
        48 => one_of_three(i, 60, 61, 64),
        49 => one_of_three(i, 63, 64, 66),
        50 => one_of_three(i, 65, 66, 68),
        51 => one_of_three(i, 67, 68, 69),
        52 => one_of_three(i, 69, 70, 71),
        53 => one_of_three(i, 61, 62, 71),
        _ => 0,
    }
}

/// The edges that end at a vertex are those that `edge_at` names.
pub proof fn lemma_edge_at(v: VertexId, e: EdgeId)
    requires
        v < VERTEX_COUNT,
        e < EDGE_COUNT,
    ensures
        edge_at(v, 0) < edge_at(v, 1) <= edge_at(v, 2) < EDGE_COUNT,
        touches(e, v) <==> e == edge_at(v, 0) || e == edge_at(v, 1) || e == edge_at(v, 2),
{
}

/// Two or three edges end at every vertex.
pub proof fn every_vertex_has_two_or_three_edges(v: VertexId)
    requires
        v < VERTEX_COUNT,
    ensures
        2 <= edges_at(v).len() <= 3,
{
    let s = edges_at(v);
    lemma_edges_below(v, EDGE_COUNT as int);
    lemma_edge_at(v, 0);
    assert forall|j: int| 0 <= j < s.len() implies s[j] == edge_at(v, 0) || s[j] == edge_at(v, 1)
        || s[j] == edge_at(v, 2) by {
        lemma_edge_at(v, s[j]);
    }
    lemma_edge_at(v, edge_at(v, 0));
    lemma_edge_at(v, edge_at(v, 1));
    let a = choose|i: int| 0 <= i < s.len() && s[i] == edge_at(v, 0);
    let b = choose|i: int| 0 <= i < s.len() && s[i] == edge_at(v, 1);
    assert(s.contains(edge_at(v, 0)));
    assert(s.contains(edge_at(v, 1)));
    assert(a != b);
    if s.len() >= 4 {
        assert(s[0] < s[1] < s[2] < s[3]);
    }
}

/// The tiles round vertex `v`, in rising order: one, two or three of them.
/// Where there are fewer than three, the last stands again.
pub open spec fn tile_at(v: VertexId, i: int) -> TileId {
    match v {
        0 => one_of_three(i, 0, 0, 0),
        1 => one_of_three(i, 0, 1, 1),
        2 => one_of_three(i, 1, 1, 1),
        3 => one_of_three(i, 1, 1, 1),
        4 => one_of_three(i, 1, 2, 2),
        5 => one_of_three(i, 2, 2, 2),
        6 => one_of_three(i, 2, 3, 3),
        7 => one_of_three(i, 3, 3, 3),
        8 => one_of_three(i, 3, 3, 3),
        9 => one_of_three(i, 3, 4, 4),
        10 => one_of_three(i, 4, 4, 4),
        11 => one_of_three(i, 4, 5, 5),
        12 => one_of_three(i, 5, 5, 5),
        13 => one_of_three(i, 5, 5, 5),
        14 => one_of_three(i, 5, 6, 6),
        15 => one_of_three(i, 6, 6, 6),
        16 => one_of_three(i, 6, 7, 7),
        17 => one_of_three(i, 7, 7, 7),
        18 => one_of_three(i, 7, 7, 7),
        19 => one_of_three(i, 7, 8, 8),
        20 => one_of_three(i, 8, 8, 8),
        21 => one_of_three(i, 8, 9, 9),
        22 => one_of_three(i, 9, 9, 9),
        23 => one_of_three(i, 9, 9, 9),
        24 => one_of_three(i, 9, 10, 10),
        25 => one_of_three(i, 10, 10, 10),
        26 => one_of_three(i, 10, 11, 11),
        27 => one_of_three(i, 11, 11, 11),
        28 => one_of_three(i, 11, 11, 11),
        29 => one_of_three(i, 0, 11, 11),
        30 => one_of_three(i, 0, 12, 13),
        31 => one_of_three(i, 0, 1, 13),
        32 => one_of_three(i, 1, 2, 13),
        33 => one_of_three(i, 2, 13, 14),
        34 => one_of_three(i, 2, 3, 14),
        35 => one_of_three(i, 3, 4, 14),
        36 => one_of_three(i, 4, 14, 15),
        37 => one_of_three(i, 4, 5, 15),
        38 => one_of_three(i, 5, 6, 15),
        39 => one_of_three(i, 6, 15, 16),
        40 => one_of_three(i, 6, 7, 16),
        41 => one_of_three(i, 7, 8, 16),
        42 => one_of_three(i, 8, 16, 17),
        43 => one_of_three(i, 8, 9, 17),
        44 => one_of_three(i, 9, 10, 17),
        45 => one_of_three(i, 10, 12, 17),
        46 => one_of_three(i, 10, 11, 12),
        47 => one_of_three(i, 0, 11, 12),
        48 => one_of_three(i, 12, 13, 18),
        49 => one_of_three(i, 13, 14, 18),
        50 => one_of_three(i, 14, 15, 18),
        51 => one_of_three(i, 15, 16, 18),
        52 => one_of_three(i, 16, 17, 18),
        53 => one_of_three(i, 12, 17, 18),
        _ => 0,
    }
}

/// The corner of its first tile at which vertex `v` lies.
pub open spec fn first_corner_at(v: VertexId) -> int {
    match v {
        0 => 0,
        1 => 1,
        2 => 1,
        3 => 2,
        4 => 3,
        5 => 1,
        6 => 2,
        7 => 1,
        8 => 2,
        9 => 3,
        10 => 2,
        11 => 3,
        12 => 2,
        13 => 3,
        14 => 4,
        15 => 3,
        16 => 4,
        17 => 3,
        18 => 4,
        19 => 5,
        20 => 4,
        21 => 5,
        22 => 4,
        23 => 5,
        24 => 0,
        25 => 5,
        26 => 0,
        27 => 5,
        28 => 0,
        29 => 5,
        30 => 3,
        31 => 2,
        32 => 4,
        33 => 4,
        34 => 3,
        35 => 4,
        36 => 5,
        37 => 4,
        38 => 5,
        39 => 0,
        40 => 5,
        41 => 0,
        42 => 1,
        43 => 0,
        44 => 1,
        45 => 2,
        46 => 1,
        47 => 4,
        48 => 2,
        49 => 3,
        50 => 4,
        51 => 5,
        52 => 0,
        53 => 3,
        _ => 0,
    }
}

/// The tiles round a vertex are those that `tile_at` names.
pub proof fn lemma_tile_at(v: VertexId, t: TileId, k: int)
    requires
        v < VERTEX_COUNT,
        t < TILE_COUNT,
        0 <= k < 6,
    ensures
        tile_at(v, 0) <= tile_at(v, 1) <= tile_at(v, 2) < TILE_COUNT,
        tile_corner(t, k) == v ==> t == tile_at(v, 0) || t == tile_at(v, 1) || t == tile_at(v, 2),
        exists|c: int| 0 <= c < 6 && #[trigger] tile_corner(tile_at(v, 0), c) == v,
{
    let c = first_corner_at(v);
    assert(0 <= c < 6 && tile_corner(tile_at(v, 0), c) == v);
}

/// Every vertex is a corner of one, two or three tiles.
pub proof fn every_vertex_has_one_to_three_tiles(v: VertexId)
    requires
        v < VERTEX_COUNT,
    ensures
        1 <= tiles_at(v).len() <= 3,
{
    let s = tiles_at(v);
    lemma_tiles_at(v);
    lemma_tiles_rise(v, TILE_COUNT as int, 0);
    lemma_tile_at(v, 0, 0);
    assert(on_tile(tile_at(v, 0), v));
    assert(s.contains(tile_at(v, 0)));
    assert forall|j: int| 0 <= j < s.len() implies s[j] == tile_at(v, 0) || s[j] == tile_at(v, 1)
        || s[j] == tile_at(v, 2) by {
        let c = choose|c: int| 0 <= c < 6 && #[trigger] tile_corner(s[j], c) == v;
        lemma_tile_at(v, s[j], c);
    }
    if s.len() >= 4 {
        assert(s[0] < s[1] < s[2] < s[3]);
    }
}

} // verus!
