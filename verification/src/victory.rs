//! Who has won, and who holds the two bonuses.

use vstd::prelude::*;
use crate::building::owned_by;
use crate::counting::{
    count, is_item, lemma_count_bounds, lemma_count_positive, lemma_count_update,
};
use crate::state::{lemma_points_bound, WINNING_POINTS};
use crate::topology::{
    edges_at, far_end, lemma_edge_ends, lemma_edges_at, touches, EDGE_COUNT, VERTEX_COUNT,
};
use crate::types::{EdgeId, PlayerType, PlayerView, VertexId};
use crate::{Board, BoardView};

verus! {

/// The first player from seat `i` on who has 10 victory points or more.
pub open spec fn winner_from(players: Seq<PlayerView>, i: int) -> Option<PlayerType>
    decreases players.len() - i,
{
    if i < 0 || i >= players.len() {
        None
    } else if players[i].victory_points >= WINNING_POINTS {
        Some(players[i].id)
    } else {
        winner_from(players, i + 1)
    }
}

impl BoardView {
    /// The winner: the first player, in the order of the seats, who has 10
    /// victory points or more.
    pub open spec fn winner(self) -> Option<PlayerType> {
        winner_from(self.players, 0)
    }
}

/// The winner, if there is one: the first player, in the order of the seats,
/// who has 10 victory points or more.
pub fn check_for_winner(board: &Board) -> (winner: Option<PlayerType>)
    ensures
        winner == board@.winner(),
{
    let mut i: usize = 0;
    while i < board.players.len()
        invariant
            i <= board.players@.len(),
            board@.winner() == winner_from(board@.players, i as int),
        decreases board.players@.len() - i,
    {
        if board.players[i].victory_points >= WINNING_POINTS {
            return Some(board.players[i].id);
        }
        i += 1;
    }
    None
}

/// No edge is used: 72 flags, none set.
pub open spec fn no_edge_used() -> Seq<bool> {
    Seq::new(EDGE_COUNT as nat, |e: int| false)
}

impl BoardView {
    /// Whether a road of `p` ends at vertex `v`: another player has built
    /// there.
    pub open spec fn blocks(self, p: PlayerType, v: VertexId) -> bool {
        self.vertices[v as int].owner is Some && self.vertices[v as int].owner != Some(p)
    }

    /// Whether `path` is a road of `p` that starts at vertex `v`: a sequence
    /// of edges, each a road of `p` that goes on from where the one before it
    /// ended, none of them flagged in `used` and none taken twice. The road
    /// may pass a vertex more than once, but it ends where it reaches a
    /// vertex on which another player has built.
    pub open spec fn is_trail(
        self,
        p: PlayerType,
        v: VertexId,
        used: Seq<bool>,
        path: Seq<EdgeId>,
    ) -> bool
        decreases path.len(),
    {
        path.len() == 0 || {
            let e = path[0];
            &&& e < EDGE_COUNT
            &&& touches(e, v)
            &&& self.edges[e as int].owner == Some(p)
            &&& !used[e as int]
            &&& if self.blocks(p, far_end(e, v)) {
                path.len() == 1
            } else {
                self.is_trail(p, far_end(e, v), used.update(e as int, true), path.drop_first())
            }
        }
    }

    /// Whether `n` is the length of the longest road of `p` that starts at
    /// vertex `v` and takes no edge flagged in `used`.
    pub open spec fn is_longest_from(
        self,
        p: PlayerType,
        v: VertexId,
        used: Seq<bool>,
        n: nat,
    ) -> bool {
        &&& exists|path: Seq<EdgeId>| #[trigger] self.is_trail(p, v, used, path) && path.len() == n
        &&& forall|path: Seq<EdgeId>| #[trigger] self.is_trail(p, v, used, path) ==> path.len() <= n
    }

    /// Whether `p` has a road of `n` edges: one that starts at a vertex on
    /// which nobody but `p` has built. Everybody has a road of no edges.
    pub open spec fn has_road_of_length(self, p: PlayerType, n: nat) -> bool {
        n == 0 || exists|v: VertexId, path: Seq<EdgeId>|
            v < VERTEX_COUNT && !self.blocks(p, v) && #[trigger] self.is_trail(
                p,
                v,
                no_edge_used(),
                path,
            ) && path.len() == n
    }

    /// Whether `n` is the length of the longest road of `p`.
    pub open spec fn is_longest_road(self, p: PlayerType, n: nat) -> bool {
        &&& self.has_road_of_length(p, n)
        &&& forall|m: nat| #[trigger] self.has_road_of_length(p, m) ==> m <= n
    }

    /// The length of the longest road of `p`.
    pub open spec fn longest_road_of(self, p: PlayerType) -> nat {
        choose|n: nat| self.is_longest_road(p, n)
    }
}

/// A road takes each edge once, so it has no more edges than are not flagged
/// as used.
pub proof fn lemma_trail_length(
    b: BoardView,
    p: PlayerType,
    v: VertexId,
    used: Seq<bool>,
    path: Seq<EdgeId>,
)
    requires
        used.len() == EDGE_COUNT,
        b.is_trail(p, v, used, path),
    ensures
        path.len() <= count(used, is_item(false)),
    decreases path.len(),
{
    lemma_count_bounds(used, is_item(false), used.len() as int);
    if path.len() > 0 {
        let e = path[0];
        lemma_count_update(used, is_item(false), e as int, true);
        lemma_count_positive(used, is_item(false), e as int);
        if !b.blocks(p, far_end(e, v)) {
            lemma_trail_length(b, p, far_end(e, v), used.update(e as int, true), path.drop_first());
        }
    }
}

/// Whether a sequence of edges is a road depends on the vertices and edges of
/// a board alone.
pub proof fn lemma_trail_same_graph(
    a: BoardView,
    b: BoardView,
    p: PlayerType,
    v: VertexId,
    used: Seq<bool>,
    path: Seq<EdgeId>,
)
    requires
        a.vertices == b.vertices,
        a.edges == b.edges,
    ensures
        a.is_trail(p, v, used, path) == b.is_trail(p, v, used, path),
    decreases path.len(),
{
    if path.len() > 0 {
        let e = path[0];
        let next = far_end(e, v);
        lemma_trail_same_graph(a, b, p, next, used.update(e as int, true), path.drop_first());
    }
}

/// Among the lengths up to `k`, one is the greatest that a road of `p` has.
proof fn lemma_longest_up_to(b: BoardView, p: PlayerType, k: nat) -> (n: nat)
    ensures
        n <= k,
        b.has_road_of_length(p, n),
        forall|m: nat| m <= k && #[trigger] b.has_road_of_length(p, m) ==> m <= n,
    decreases k,
{
    if k == 0 {
        0
    } else if b.has_road_of_length(p, k) {
        k
    } else {
        lemma_longest_up_to(b, p, (k - 1) as nat)
    }
}

/// Every player has a longest road, and it has no more edges than the board.
pub proof fn lemma_longest_road_exists(b: BoardView, p: PlayerType)
    ensures
        b.is_longest_road(p, b.longest_road_of(p)),
        b.longest_road_of(p) <= EDGE_COUNT,
{
    let n = lemma_longest_up_to(b, p, EDGE_COUNT as nat);
    assert forall|m: nat| #[trigger] b.has_road_of_length(p, m) implies m <= n by {
        if m > 0 {
            let (v, path) = choose|v: VertexId, path: Seq<EdgeId>|
                v < VERTEX_COUNT && !b.blocks(p, v) && #[trigger] b.is_trail(
                    p,
                    v,
                    no_edge_used(),
                    path,
                ) && path.len() == m;
            lemma_trail_length(b, p, v, no_edge_used(), path);
            lemma_count_bounds(no_edge_used(), is_item(false), EDGE_COUNT as int);
        }
    }
    assert(b.is_longest_road(p, n));
    let chosen = b.longest_road_of(p);
    assert(b.is_longest_road(p, chosen));
}

/// The longest road of a player depends on the vertices and edges of a board
/// alone.
pub proof fn lemma_longest_road_same_graph(a: BoardView, b: BoardView, p: PlayerType)
    requires
        a.vertices == b.vertices,
        a.edges == b.edges,
    ensures
        a.longest_road_of(p) == b.longest_road_of(p),
{
    lemma_longest_road_exists(a, p);
    lemma_longest_road_exists(b, p);
    let x = a.longest_road_of(p);
    let y = b.longest_road_of(p);
    assert forall|n: nat| a.has_road_of_length(p, n) == b.has_road_of_length(p, n) by {
        if n > 0 {
            if a.has_road_of_length(p, n) {
                let (v, path) = choose|v: VertexId, path: Seq<EdgeId>|
                    v < VERTEX_COUNT && !a.blocks(p, v) && #[trigger] a.is_trail(
                        p,
                        v,
                        no_edge_used(),
                        path,
                    ) && path.len() == n;
                lemma_trail_same_graph(a, b, p, v, no_edge_used(), path);
            }
            if b.has_road_of_length(p, n) {
                let (v, path) = choose|v: VertexId, path: Seq<EdgeId>|
                    v < VERTEX_COUNT && !b.blocks(p, v) && #[trigger] b.is_trail(
                        p,
                        v,
                        no_edge_used(),
                        path,
                    ) && path.len() == n;
                lemma_trail_same_graph(a, b, p, v, no_edge_used(), path);
            }
        }
    }
    assert(b.has_road_of_length(p, x));
    assert(a.has_road_of_length(p, y));
}

/// The length of the longest road of `player_id` that starts at
/// `current_vertex` and takes no edge flagged in `visited_edges`. The flags
/// are used while searching and are handed back as they came.
fn find_path_length(
    board: &Board,
    player_id: PlayerType,
    current_vertex: VertexId,
    visited_edges: &mut Vec<bool>,
) -> (length: u8)
    requires
        board@.topology_ok(),
        current_vertex < VERTEX_COUNT,
        old(visited_edges)@.len() == EDGE_COUNT,
    ensures
        final(visited_edges)@ == old(visited_edges)@,
        board@.is_longest_from(player_id, current_vertex, old(visited_edges)@, length as nat),
        length <= count(old(visited_edges)@, is_item(false)),
    decreases count(old(visited_edges)@, is_item(false)),
{
    let ghost used = visited_edges@;
    let ghost b = board@;
    let mut max_len: u8 = 0;
    let mut best: Ghost<Seq<EdgeId>> = Ghost(Seq::empty());
    proof {
        lemma_edges_at(current_vertex);
        lemma_count_bounds(used, is_item(false), used.len() as int);
    }
    let mut j: usize = 0;
    while j < board.vertices[current_vertex].adjacent_edges.len()
        invariant
            b == board@,
            b.topology_ok(),
            current_vertex < VERTEX_COUNT,
            used.len() == EDGE_COUNT,
            used == old(visited_edges)@,
            visited_edges@ == used,
            j <= edges_at(current_vertex).len(),
            max_len <= count(used, is_item(false)) <= EDGE_COUNT,
            b.is_trail(player_id, current_vertex, used, best@),
            best@.len() == max_len,
            forall|path: Seq<EdgeId>|
                #[trigger] b.is_trail(player_id, current_vertex, used, path) && path.len() > 0 && (
                exists|i: int| 0 <= i < j && edges_at(current_vertex)[i] == path[0])
                    ==> path.len() <= max_len,
        decreases edges_at(current_vertex).len() - j,
    {
        let edge_id: EdgeId = board.vertices[current_vertex].adjacent_edges[j];
        proof {
            lemma_edges_at(current_vertex);
            assert(edge_id == edges_at(current_vertex)[j as int]);
            lemma_edge_ends(edge_id);
        }
        let ghost before = max_len;
        if owned_by(board.edges[edge_id].owner, player_id) && !visited_edges[edge_id] {
            visited_edges[edge_id] = true;
            let ends: (VertexId, VertexId) = board.edges[edge_id].vertices;
            let next_vertex: VertexId = if ends.0 == current_vertex {
                ends.1
            } else {
                ends.0
            };
            assert(next_vertex == far_end(edge_id, current_vertex));
            let is_blocked: bool = match board.vertices[next_vertex].owner {
                Some(owner) => owner != player_id,
                None => false,
            };
            let ghost marked = used.update(edge_id as int, true);
            proof {
                lemma_count_update(used, is_item(false), edge_id as int, true);
                lemma_count_bounds(marked, is_item(false), marked.len() as int);
            }
            let ghost rest: Seq<EdgeId> = Seq::empty();
            let current_len: u8 = if is_blocked {
                1
            } else {
                let onward: u8 = find_path_length(board, player_id, next_vertex, visited_edges);
                proof {
                    rest = choose|path: Seq<EdgeId>| #[trigger]
                        b.is_trail(player_id, next_vertex, marked, path) && path.len() == onward;
                }
                1 + onward
            };
            proof {
                let found = seq![edge_id] + rest;
                assert(found.drop_first() =~= rest);
                assert(b.is_trail(player_id, current_vertex, used, found));
                assert(found.len() == current_len);
                if current_len > max_len {
                    best@ = found;
                }
                assert forall|path: Seq<EdgeId>|
                    #[trigger] b.is_trail(player_id, current_vertex, used, path) && path.len() > 0
                        && path[0] == edge_id implies path.len() <= current_len by {
                    if !is_blocked {
                        assert(b.is_trail(player_id, next_vertex, marked, path.drop_first()));
                    }
                }
            }
            if current_len > max_len {
                max_len = current_len;
            }
            visited_edges[edge_id] = false;
            assert(visited_edges@ =~= used);
        }
        proof {
            assert forall|path: Seq<EdgeId>|
                #[trigger] b.is_trail(player_id, current_vertex, used, path) && path.len() > 0 && (
                exists|i: int| 0 <= i < j + 1 && edges_at(current_vertex)[i] == path[0])
                implies path.len() <= max_len by {
                let i = choose|i: int| 0 <= i < j + 1 && edges_at(current_vertex)[i] == path[0];
                if i == j {
                    assert(path[0] == edge_id);
                } else {
                    assert(path.len() <= before);
                }
            }
        }
        j += 1;
    }
    proof {
        lemma_edges_at(current_vertex);
        assert forall|path: Seq<EdgeId>| #[trigger]
            b.is_trail(player_id, current_vertex, used, path) implies path.len() <= max_len by {
            if path.len() > 0 {
                let adjacent = edges_at(current_vertex);
                assert(adjacent.contains(path[0]));
                let i = choose|i: int| 0 <= i < adjacent.len() && adjacent[i] == path[0];
                assert(adjacent[i] == path[0]);
            }
        }
    }
    max_len
}

/// 72 flags, none set.
fn fresh_flags() -> (flags: Vec<bool>)
    ensures
        flags@ == no_edge_used(),
{
    let mut flags: Vec<bool> = Vec::new();
    let mut e: usize = 0;
    while e < EDGE_COUNT
        invariant
            e <= EDGE_COUNT,
            flags@.len() == e,
            forall|i: int| 0 <= i < e ==> !flags@[i],
        decreases EDGE_COUNT - e,
    {
        flags.push(false);
        e += 1;
    }
    assert(flags@ =~= no_edge_used());
    flags
}

/// The length of the longest road of `player_id`.
pub fn calculate_player_longest_road(board: &Board, player_id: PlayerType) -> (length: u8)
    requires
        board@.topology_ok(),
    ensures
        board@.is_longest_road(player_id, length as nat),
        length == board@.longest_road_of(player_id),
        length <= EDGE_COUNT,
{
    let ghost b = board@;
    let mut max_road: u8 = 0;
    let mut visited_edges: Vec<bool> = fresh_flags();
    let mut v_id: usize = 0;
    while v_id < board.vertices.len()
        invariant
            b == board@,
            b.topology_ok(),
            v_id <= VERTEX_COUNT,
            visited_edges@ == no_edge_used(),
            max_road <= EDGE_COUNT,
            b.has_road_of_length(player_id, max_road as nat),
            forall|v: VertexId, path: Seq<EdgeId>|
                v < v_id && !b.blocks(player_id, v) && #[trigger] b.is_trail(
                    player_id,
                    v,
                    no_edge_used(),
                    path,
                ) ==> path.len() <= max_road,
        decreases VERTEX_COUNT - v_id,
    {
        let may_start: bool = match board.vertices[v_id].owner {
            Some(owner) => owner == player_id,
            None => true,
        };
        if may_start {
            let len: u8 = find_path_length(board, player_id, v_id, &mut visited_edges);
            proof {
                lemma_count_bounds(no_edge_used(), is_item(false), EDGE_COUNT as int);
            }
            if len > max_road {
                max_road = len;
            }
        }
        v_id += 1;
    }
    proof {
        let n = max_road as nat;
        assert forall|m: nat| #[trigger] b.has_road_of_length(player_id, m) implies m <= n by {}
        assert(b.is_longest_road(player_id, n));
        let chosen = b.longest_road_of(player_id);
        assert(b.is_longest_road(player_id, chosen));
    }
    max_road
}

/// The players after the bonus of two victory points has gone from `from`, if
/// anybody held it, to `to`.
pub open spec fn bonus_moved(
    players: Seq<PlayerView>,
    from: Option<PlayerType>,
    to: PlayerType,
) -> Seq<PlayerView> {
    let left = match from {
        Some(h) => players.update(
            h.seat(),
            PlayerView {
                victory_points: (players[h.seat()].victory_points - 2) as u8,
                ..players[h.seat()]
            },
        ),
        None => players,
    };
    left.update(
        to.seat(),
        PlayerView {
            victory_points: (left[to.seat()].victory_points + 2) as u8,
            ..left[to.seat()]
        },
    )
}

impl BoardView {
    /// Whether the longest road of `p` takes the bonus from whoever holds it:
    /// it has at least 5 edges and more than the bonus asks for, and `p` does
    /// not hold the bonus already.
    pub open spec fn takes_longest_road(self, p: PlayerType) -> bool {
        &&& self.longest_road_of(p) >= 5
        &&& self.longest_road_of(p) > self.longest_road_size
        &&& self.longest_road != Some(p)
    }

    /// The board after the longest road of `p` has been measured against the
    /// bonus: where it has at least 5 edges and more than the bonus asks for,
    /// the bonus asks for that length from now on and is `p`'s, with two
    /// victory points that its holder so far loses; otherwise nothing changes.
    pub open spec fn after_road_check(self, p: PlayerType) -> BoardView {
        let n = self.longest_road_of(p);
        if n >= 5 && n > self.longest_road_size {
            if self.longest_road == Some(p) {
                BoardView { longest_road_size: n as u8, ..self }
            } else {
                BoardView {
                    players: bonus_moved(self.players, self.longest_road, p),
                    longest_road: Some(p),
                    longest_road_size: n as u8,
                    ..self
                }
            }
        } else {
            self
        }
    }

    /// Whether the knights of `p` take the bonus from whoever holds it: `p`
    /// has played at least 3 and more than the bonus asks for, and does not
    /// hold the bonus already.
    pub open spec fn takes_largest_army(self, p: PlayerType) -> bool {
        &&& self.seated(p)
        &&& self.player(p).knights_played >= 3
        &&& self.player(p).knights_played > self.largest_army_size
        &&& self.largest_army != Some(p)
    }

    /// The board after the knights of `p` have been measured against the
    /// bonus: where `p` has played at least 3 and more than the bonus asks
    /// for, the bonus asks for that number from now on and is `p`'s, with two
    /// victory points that its holder so far loses; otherwise nothing changes.
    pub open spec fn after_army_check(self, p: PlayerType) -> BoardView {
        if self.seated(p) && self.player(p).knights_played >= 3 && self.player(p).knights_played
            > self.largest_army_size {
            if self.largest_army == Some(p) {
                BoardView { largest_army_size: self.player(p).knights_played, ..self }
            } else {
                BoardView {
                    players: bonus_moved(self.players, self.largest_army, p),
                    largest_army: Some(p),
                    largest_army_size: self.player(p).knights_played,
                    ..self
                }
            }
        } else {
            self
        }
    }
}

/// A player who has a road of at least one edge is seated.
pub proof fn lemma_road_owner_seated(b: BoardView, p: PlayerType, n: nat)
    requires
        b.wf(),
        b.has_road_of_length(p, n),
        n > 0,
    ensures
        b.seated(p),
{
    let (v, path) = choose|v: VertexId, path: Seq<EdgeId>|
        v < VERTEX_COUNT && !b.blocks(p, v) && #[trigger] b.is_trail(p, v, no_edge_used(), path)
            && path.len() == n;
    assert(b.edges[path[0] as int].owner == Some(p));
}

/// Moves the bonus of two victory points from `from`, if anybody holds it, to
/// `to`.
fn move_bonus(board: &mut Board, from: Option<PlayerType>, to: PlayerType)
    requires
        old(board)@.seated(to),
        from != Some(to),
        from matches Some(h) ==> old(board)@.seated(h) && old(board)@.player(h).victory_points
            >= 2,
        old(board)@.player(to).victory_points <= 253,
    ensures
        final(board)@ == (BoardView {
            players: bonus_moved(old(board)@.players, from, to),
            ..old(board)@
        }),
{
    if let Some(old_holder_id) = from {
        let old_seat: usize = old_holder_id.index();
        board.players[old_seat].victory_points -= 2;
    }
    let seat: usize = to.index();
    board.players[seat].victory_points += 2;
    assert(board@.players =~= bonus_moved(old(board)@.players, from, to));
}

/// Moving a bonus to a player who has earned it keeps what holds of the
/// players, apart from the bonus itself. With `road` the bonus is the longest
/// road, without it the largest army.
proof fn lemma_bonus_moved(b: BoardView, now: BoardView, p: PlayerType, road: bool)
    requires
        b.wf(),
        b.seated(p),
        now.vertices == b.vertices,
        now.edges == b.edges,
        now.tiles == b.tiles,
        now.development_cards == b.development_cards,
        road ==> b.longest_road != Some(p) && now.longest_road == Some(p) && now.largest_army
            == b.largest_army && now.players == bonus_moved(b.players, b.longest_road, p),
        !road ==> b.largest_army != Some(p) && now.largest_army == Some(p) && now.longest_road
            == b.longest_road && now.players == bonus_moved(b.players, b.largest_army, p),
    ensures
        now.players.len() == b.players.len(),
        forall|i: int| 0 <= i < now.players.len() ==> #[trigger] now.player_ok(i),
        forall|q: PlayerType|
            b.seated(q) ==> (#[trigger] now.player(q)).knights_played == b.player(
                q,
            ).knights_played,
{
    let from = if road {
        b.longest_road
    } else {
        b.largest_army
    };
    lemma_points_bound(b, p);
    if let Some(h) = from {
        lemma_points_bound(b, h);
    }
    assert forall|i: int| 0 <= i < now.players.len() implies #[trigger] now.player_ok(i) by {
        let q = crate::types::player_at(i);
        assert(b.player_ok(i));
        assert(q.seat() == i);
        assert(now.settlements_of(q) == b.settlements_of(q));
        assert(now.cities_of(q) == b.cities_of(q));
        assert(now.roads_of(q) == b.roads_of(q));
        if i == p.seat() {
            assert(q == p);
            assert(now.players[i].victory_points == b.players[i].victory_points + 2);
        } else if from == Some(q) {
            assert(now.players[i].victory_points == b.players[i].victory_points - 2);
        } else {
            assert(now.players[i] == b.players[i]);
        }
    }
    assert forall|q: PlayerType| b.seated(q) implies (#[trigger] now.player(q)).knights_played
        == b.player(q).knights_played by {}
}

/// Measures the longest road of `player_id` against the bonus. Where it has
/// at least 5 edges and more than the bonus asks for, the bonus asks for that
/// length from now on; and where `player_id` does not hold the bonus already,
/// it goes to `player_id` with two victory points, which its holder so far
/// loses. Returns the winner, if the bonus changed hands and that made one.
pub fn update_longest_road(board: &mut Board, player_id: PlayerType) -> (winner: Option<PlayerType>)
    requires
        old(board)@.wf(),
    ensures
        final(board)@.wf(),
        final(board)@ == old(board)@.after_road_check(player_id),
        winner == if old(board)@.takes_longest_road(player_id) {
            final(board)@.winner()
        } else {
            None
        },
{
    let current_longest: u8 = calculate_player_longest_road(board, player_id);
    if current_longest >= 5 && current_longest > board.longest_road_size {
        proof {
            lemma_road_owner_seated(board@, player_id, current_longest as nat);
        }
        if owned_by(board.longest_road, player_id) {
            board.longest_road_size = current_longest;
            proof {
                lemma_frame_wf(old(board)@, board@);
            }
            return None;
        }
        let holder: Option<PlayerType> = board.longest_road;
        proof {
            lemma_points_bound(board@, player_id);
            if let Some(h) = holder {
                lemma_points_bound(board@, h);
            }
        }
        move_bonus(board, holder, player_id);
        board.longest_road = Some(player_id);
        board.longest_road_size = current_longest;
        proof {
            lemma_bonus_moved(old(board)@, board@, player_id, true);
            lemma_frame_wf(old(board)@, board@);
        }
        return check_for_winner(board);
    }
    None
}

/// Measures the knights that `player_id` has played against the bonus. Where
/// they are at least 3 and more than the bonus asks for, the bonus asks for
/// that number from now on; and where `player_id` does not hold the bonus
/// already, it goes to `player_id` with two victory points, which its holder
/// so far loses. Returns the winner, if the bonus changed hands and that made
/// one. Nothing changes for a player who is not seated.
pub fn update_largest_army(board: &mut Board, player_id: PlayerType) -> (winner: Option<PlayerType>)
    requires
        old(board)@.wf(),
    ensures
        final(board)@.wf(),
        final(board)@ == old(board)@.after_army_check(player_id),
        winner == if old(board)@.takes_largest_army(player_id) {
            final(board)@.winner()
        } else {
            None
        },
{
    let player_index: usize = match board.seat_of(player_id) {
        Some(index) => index,
        None => {
            return None;
        },
    };
    let knights_played: u8 = board.players[player_index].knights_played;
    if knights_played >= 3 && knights_played > board.largest_army_size {
        if owned_by(board.largest_army, player_id) {
            board.largest_army_size = knights_played;
            proof {
                lemma_frame_wf(old(board)@, board@);
            }
            return None;
        }
        let holder: Option<PlayerType> = board.largest_army;
        proof {
            lemma_points_bound(board@, player_id);
            if let Some(h) = holder {
                lemma_points_bound(board@, h);
            }
        }
        move_bonus(board, holder, player_id);
        board.largest_army = Some(player_id);
        board.largest_army_size = knights_played;
        proof {
            lemma_bonus_moved(old(board)@, board@, player_id, false);
            lemma_frame_wf(old(board)@, board@);
        }
        return check_for_winner(board);
    }
    None
}

/// A board that differs from a well-formed one only in its players and
/// bonuses is well-formed if the players and the bonuses are in order.
proof fn lemma_frame_wf(b: BoardView, now: BoardView)
    requires
        b.wf(),
        now.vertices == b.vertices,
        now.edges == b.edges,
        now.tiles == b.tiles,
        now.development_cards == b.development_cards,
        now.players.len() == b.players.len(),
        now.players == b.players || forall|i: int|
            0 <= i < now.players.len() ==> #[trigger] now.player_ok(i),
        now.players == b.players ==> now.longest_road == b.longest_road && now.largest_army
            == b.largest_army,
        now.bonuses_ok(),
    ensures
        now.wf(),
{
    if now.players == b.players {
        assert forall|i: int| 0 <= i < now.players.len() implies #[trigger] now.player_ok(i) by {
            assert(b.player_ok(i));
        }
    }
}

} // verus!
