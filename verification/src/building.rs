//! Settlements, cities and roads: where they may stand, and what placing one
//! does.

use vstd::prelude::*;
use crate::counting::{lemma_count_positive, lemma_count_update};
use crate::economy::{
    city_cost, city_price, has_resources, holds_port, road_cost, road_price, settlement_cost,
    settlement_price, spend_resources,
};
use crate::state::{is_building_of, is_road_of, lemma_points_bound};
use crate::topology::{
    edge_ends, edges_at, far_end, lemma_edge_ends, lemma_edges_at, touches, EDGE_COUNT,
    VERTEX_COUNT,
};
use crate::types::{
    BuildingType, Edge, EdgeId, GameError, Player, PlayerType, PlayerView, PowerUp, TurnPhase,
    Vertex, VertexId,
};
use crate::victory::{check_for_winner, update_longest_road};
use crate::{Board, BoardView};

verus! {

/// The ports `ports` and, if it is one and not among them yet, `port`.
pub open spec fn with_port(ports: Seq<PowerUp>, port: Option<PowerUp>) -> Seq<PowerUp> {
    match port {
        Some(x) => if ports.contains(x) {
            ports
        } else {
            ports.push(x)
        },
        None => ports,
    }
}

impl BoardView {
    /// No vertex that an edge joins to `v` has an owner.
    pub open spec fn neighbours_free(self, v: VertexId) -> bool {
        forall|e: EdgeId|
            e < EDGE_COUNT && touches(e, v) ==> (#[trigger] self.vertices[far_end(
                e,
                v,
            ) as int]).owner is None
    }

    /// `p` has a road on an edge that ends at `v`.
    pub open spec fn road_leads_to(self, p: PlayerType, v: VertexId) -> bool {
        exists|e: EdgeId|
            e < EDGE_COUNT && touches(e, v) && (#[trigger] self.edges[e as int]).owner == Some(p)
    }

    /// Why `p` may not place a settlement at `v`, or nothing if `p` may. The
    /// checks come in this order: the vertex exists, is free, has no built
    /// neighbour; the player is seated; outside the founding turns a road of
    /// the player leads there and the player can pay; a settlement is left in
    /// the supply.
    pub open spec fn settle_error(
        self,
        p: PlayerType,
        v: VertexId,
        founding: bool,
    ) -> Option<GameError> {
        if v >= VERTEX_COUNT {
            Some(GameError::InvalidPosition)
        } else if self.vertices[v as int].owner is Some {
            Some(GameError::OccupiedPosition)
        } else if !self.neighbours_free(v) {
            Some(GameError::DistanceRuleViolation)
        } else if !self.seated(p) {
            Some(GameError::PlayerNotFound)
        } else if !founding && !self.road_leads_to(p, v) {
            Some(GameError::NotConnected)
        } else if !founding && !self.player(p).resources.covers(settlement_cost()) {
            Some(GameError::InsufficientResources)
        } else if self.player(p).settlement_quantity == 0 {
            Some(GameError::InsufficientPieces)
        } else {
            None
        }
    }

    /// The board after `p` has placed a settlement at `v`: the vertex is
    /// `p`'s, a settlement has left the supply, `p` has a victory point more
    /// and the port of the vertex, and, outside the founding turns, has paid.
    pub open spec fn settled(self, p: PlayerType, v: VertexId, founding: bool) -> BoardView {
        let pl = self.player(p);
        BoardView {
            vertices: self.vertices.update(
                v as int,
                Vertex {
                    owner: Some(p),
                    building: Some(BuildingType::Settlement),
                    ..self.vertices[v as int]
                },
            ),
            players: self.players.update(
                p.seat(),
                PlayerView {
                    settlement_quantity: (pl.settlement_quantity - 1) as u8,
                    victory_points: (pl.victory_points + 1) as u8,
                    power_ups: with_port(pl.power_ups, self.vertices[v as int].power_up),
                    resources: if founding {
                        pl.resources
                    } else {
                        pl.resources.less(settlement_cost())
                    },
                    ..pl
                },
            ),
            ..self
        }
    }
}

impl BoardView {
    /// Why `p` may not turn the settlement at `v` into a city, or nothing if
    /// `p` may. The checks come in this order: the vertex exists and holds a
    /// settlement of `p`; `p` is seated, has a city left in the supply, and
    /// can pay.
    pub open spec fn upgrade_error(self, p: PlayerType, v: VertexId) -> Option<GameError> {
        if v >= VERTEX_COUNT {
            Some(GameError::InvalidPosition)
        } else if !is_building_of(p, BuildingType::Settlement)(self.vertices[v as int]) {
            Some(GameError::NoSettlement)
        } else if !self.seated(p) {
            Some(GameError::PlayerNotFound)
        } else if self.player(p).city_quantity == 0 {
            Some(GameError::InsufficientPieces)
        } else if !self.player(p).resources.covers(city_cost()) {
            Some(GameError::InsufficientResources)
        } else {
            None
        }
    }

    /// The board after `p` has turned the settlement at `v` into a city: a
    /// city has left the supply and the settlement has come back to it, `p`
    /// has a victory point more and has paid.
    pub open spec fn upgraded(self, p: PlayerType, v: VertexId) -> BoardView {
        let pl = self.player(p);
        BoardView {
            vertices: self.vertices.update(
                v as int,
                Vertex { building: Some(BuildingType::City), ..self.vertices[v as int] },
            ),
            players: self.players.update(
                p.seat(),
                PlayerView {
                    city_quantity: (pl.city_quantity - 1) as u8,
                    settlement_quantity: (pl.settlement_quantity + 1) as u8,
                    victory_points: (pl.victory_points + 1) as u8,
                    resources: pl.resources.less(city_cost()),
                    ..pl
                },
            ),
            ..self
        }
    }
}

impl BoardView {
    /// `p` has a road, other than on edge `except`, on an edge that ends at
    /// `v`.
    pub open spec fn other_road_leads_to(self, p: PlayerType, v: VertexId, except: EdgeId) -> bool {
        exists|o: EdgeId|
            o < EDGE_COUNT && o != except && touches(o, v) && (
            #[trigger] self.edges[o as int]).owner == Some(p)
    }

    /// A road on edge `e` would extend the network of `p`: `p` has built on
    /// one of its ends, or has a road on another edge that ends there.
    pub open spec fn road_connectable(self, p: PlayerType, e: EdgeId) -> bool {
        &&& e < EDGE_COUNT
        &&& {
            ||| self.vertices[edge_ends(e).0 as int].owner == Some(p)
            ||| self.vertices[edge_ends(e).1 as int].owner == Some(p)
            ||| self.other_road_leads_to(p, edge_ends(e).0, e)
            ||| self.other_road_leads_to(p, edge_ends(e).1, e)
        }
    }

    /// Whether a road on edge `e` is connected as `phase` asks: in a founding
    /// turn it ends at the anchor vertex, otherwise it extends the network of
    /// `p`.
    pub open spec fn road_connected(self, p: PlayerType, e: EdgeId, phase: TurnPhase) -> bool {
        match phase {
            TurnPhase::Setup { anchor_vertex } => touches(e, anchor_vertex),
            _ => self.road_connectable(p, e),
        }
    }

    /// Why `p` may not place a road on edge `e`, or nothing if `p` may. The
    /// checks come in this order: the edge exists; the player is seated and
    /// has a road left in the supply; the edge is free; in an ordinary turn
    /// the player can pay; the road is connected as `phase` asks.
    pub open spec fn road_error(
        self,
        p: PlayerType,
        e: EdgeId,
        phase: TurnPhase,
    ) -> Option<GameError> {
        if e >= EDGE_COUNT {
            Some(GameError::InvalidPosition)
        } else if !self.seated(p) {
            Some(GameError::PlayerNotFound)
        } else if self.player(p).road_quantity == 0 {
            Some(GameError::InsufficientPieces)
        } else if self.edges[e as int].owner is Some {
            Some(GameError::OccupiedPosition)
        } else if phase == TurnPhase::Normal && !self.player(p).resources.covers(road_cost()) {
            Some(GameError::InsufficientResources)
        } else if !self.road_connected(p, e, phase) {
            Some(GameError::NotConnected)
        } else {
            None
        }
    }

    /// The board after `p` has placed a road on edge `e`, before the longest
    /// road is looked at: the edge is `p`'s, a road has left the supply and,
    /// in an ordinary turn, `p` has paid.
    pub open spec fn road_laid(self, p: PlayerType, e: EdgeId, phase: TurnPhase) -> BoardView {
        let pl = self.player(p);
        BoardView {
            edges: self.edges.update(e as int, Edge { owner: Some(p), ..self.edges[e as int] }),
            players: self.players.update(
                p.seat(),
                PlayerView {
                    road_quantity: (pl.road_quantity - 1) as u8,
                    resources: if phase == TurnPhase::Normal {
                        pl.resources.less(road_cost())
                    } else {
                        pl.resources
                    },
                    ..pl
                },
            ),
            ..self
        }
    }
}

/// Whether vertex `position` has no owner.
fn check_self_is_empty(board: &Board, position: VertexId) -> (empty: bool)
    requires
        position < board@.vertices.len(),
    ensures
        empty == (board@.vertices[position as int].owner is None),
{
    board.vertices[position].owner.is_none()
}

/// Whether a settlement may stand at `position`: the vertex exists, is free
/// and has no built neighbour.
fn can_place_house(board: &Board, position: VertexId) -> (r: Result<(), GameError>)
    requires
        board@.wf(),
    ensures
        match r {
            Ok(_) => position < VERTEX_COUNT && board@.vertices[position as int].owner is None
                && board@.neighbours_free(position),
            Err(e) => if position >= VERTEX_COUNT {
                e == GameError::InvalidPosition
            } else if board@.vertices[position as int].owner is Some {
                e == GameError::OccupiedPosition
            } else {
                e == GameError::DistanceRuleViolation && !board@.neighbours_free(position)
            },
        },
{
    if position >= board.vertices.len() {
        return Err(GameError::InvalidPosition);
    }
    if !check_self_is_empty(board, position) {
        return Err(GameError::OccupiedPosition);
    }
    proof {
        lemma_edges_at(position);
    }
    let adjacent: &Vec<EdgeId> = &board.vertices[position].adjacent_edges;
    let mut j: usize = 0;
    while j < adjacent.len()
        invariant
            j <= adjacent@.len(),
            board@.wf(),
            position < VERTEX_COUNT,
            board@.vertices[position as int].owner is None,
            adjacent@ == edges_at(position),
            forall|i: int|
                0 <= i < j ==> board@.vertices[far_end(
                    #[trigger] adjacent@[i],
                    position,
                ) as int].owner is None,
        decreases adjacent@.len() - j,
    {
        let edge_id: EdgeId = adjacent[j];
        proof {
            lemma_edges_at(position);
            lemma_edge_ends(edge_id);
        }
        let ends: (VertexId, VertexId) = board.edges[edge_id].vertices;
        let neighbour: VertexId = if ends.0 == position {
            ends.1
        } else {
            ends.0
        };
        assert(touches(edge_id, position));
        assert(neighbour == far_end(edge_id, position));
        if !check_self_is_empty(board, neighbour) {
            assert(board@.vertices[far_end(edge_id, position) as int].owner is Some);
            assert(!board@.neighbours_free(position));
            return Err(GameError::DistanceRuleViolation);
        }
        j += 1;
    }
    proof {
        lemma_edges_at(position);
        assert forall|e: EdgeId| e < EDGE_COUNT && touches(e, position) implies (
        #[trigger] board@.vertices[far_end(e, position) as int]).owner is None by {
            let i = choose|i: int| 0 <= i < adjacent@.len() && adjacent@[i] == e;
            assert(adjacent@[i] == e);
        }
    }
    Ok(())
}

/// Whether `player_id` has a road on an edge that ends at `position`.
fn has_road_connected(board: &Board, player_id: PlayerType, position: VertexId) -> (connected: bool)
    requires
        board@.wf(),
        position < VERTEX_COUNT,
    ensures
        connected == board@.road_leads_to(player_id, position),
{
    proof {
        lemma_edges_at(position);
    }
    let adjacent: &Vec<EdgeId> = &board.vertices[position].adjacent_edges;
    let mut j: usize = 0;
    while j < adjacent.len()
        invariant
            j <= adjacent@.len(),
            board@.wf(),
            position < VERTEX_COUNT,
            adjacent@ == edges_at(position),
            forall|i: int|
                0 <= i < j ==> board@.edges[(#[trigger] adjacent@[i]) as int].owner != Some(
                    player_id,
                ),
        decreases adjacent@.len() - j,
    {
        let edge_id: EdgeId = adjacent[j];
        proof {
            lemma_edges_at(position);
        }
        if owned_by(board.edges[edge_id].owner, player_id) {
            assert(touches(edge_id, position) && board@.edges[edge_id as int].owner == Some(
                player_id,
            ));
            return true;
        }
        j += 1;
    }
    proof {
        lemma_edges_at(position);
        if board@.road_leads_to(player_id, position) {
            let e = choose|e: EdgeId|
                e < EDGE_COUNT && touches(e, position) && (#[trigger] board@.edges[e as int]).owner
                    == Some(player_id);
            let i = choose|i: int| 0 <= i < adjacent@.len() && adjacent@[i] == e;
            assert(adjacent@[i] == e);
        }
    }
    false
}

/// Whether vertex `position` holds a settlement of `player_id`.
fn is_settlement_owned_by(board: &Board, player_id: PlayerType, position: VertexId) -> (owned: bool)
    requires
        position < board@.vertices.len(),
    ensures
        owned == is_building_of(player_id, BuildingType::Settlement)(
            board@.vertices[position as int],
        ),
{
    let vertex: &Vertex = &board.vertices[position];
    match (vertex.owner, vertex.building) {
        (Some(owner), Some(BuildingType::Settlement)) => owner == player_id,
        _ => false,
    }
}

/// Whether `owner` is `player`.
pub fn owned_by(owner: Option<PlayerType>, player: PlayerType) -> (yes: bool)
    ensures
        yes == (owner == Some(player)),
{
    match owner {
        Some(p) => p == player,
        None => false,
    }
}

/// Puts a settlement of `player` at vertex `position`, where that is allowed.
fn settle(board: &mut Board, player: PlayerType, position: VertexId, founding: bool)
    requires
        old(board)@.seated(player),
        position < old(board)@.vertices.len(),
        old(board)@.player(player).settlement_quantity >= 1,
        old(board)@.player(player).victory_points < 255,
        founding || old(board)@.player(player).resources.covers(settlement_cost()),
    ensures
        final(board)@ == old(board)@.settled(player, position, founding),
{
    let seat: usize = player.index();
    let ghost was = board@;
    board.vertices[position].owner = Some(player);
    board.vertices[position].building = Some(BuildingType::Settlement);
    let acquired_power_up: Option<PowerUp> = board.vertices[position].power_up;
    let piece_holder: &mut Player = &mut board.players[seat];
    piece_holder.settlement_quantity -= 1;
    piece_holder.victory_points += 1;
    if let Some(power_up) = acquired_power_up {
        if !holds_port(&piece_holder.power_ups, power_up) {
            piece_holder.power_ups.push(power_up);
        }
    }
    if !founding {
        spend_resources(piece_holder, &settlement_price());
    }
    proof {
        let goal = was.settled(player, position, founding);
        assert(board@.players =~= goal.players);
        assert(board@.vertices =~= goal.vertices);
    }
}

/// Places a settlement of `player_id_type` at vertex `position`, in a founding
/// turn (`is_first_turn`) or in an ordinary one, and returns the winner, if
/// that made one. Where the placement is not allowed, the board stays as it is
/// and the error says why.
pub fn place_house(
    board: &mut Board,
    player_id_type: PlayerType,
    position: VertexId,
    is_first_turn: bool,
) -> (placed: Result<Option<PlayerType>, GameError>)
    requires
        old(board)@.wf(),
    ensures
        final(board)@.wf(),
        match placed {
            Ok(winner) => {
                &&& old(board)@.settle_error(player_id_type, position, is_first_turn) is None
                &&& final(board)@ == old(board)@.settled(player_id_type, position, is_first_turn)
                &&& winner == final(board)@.winner()
            },
            Err(e) => {
                &&& old(board)@.settle_error(player_id_type, position, is_first_turn) == Some(e)
                &&& *final(board) == *old(board)
            },
        },
{
    match can_place_house(board, position) {
        Err(e) => {
            return Err(e);
        },
        Ok(_) => {},
    }
    let player_index: usize = match board.seat_of(player_id_type) {
        Some(index) => index,
        None => {
            return Err(GameError::PlayerNotFound);
        },
    };
    if !is_first_turn {
        if !has_road_connected(board, player_id_type, position) {
            return Err(GameError::NotConnected);
        }
        if !has_resources(&board.players[player_index], &settlement_price()) {
            return Err(GameError::InsufficientResources);
        }
    }
    if board.players[player_index].settlement_quantity == 0 {
        return Err(GameError::InsufficientPieces);
    }
    proof {
        lemma_points_bound(old(board)@, player_id_type);
        lemma_settled_wf(old(board)@, player_id_type, position, is_first_turn);
    }
    settle(board, player_id_type, position, is_first_turn);
    Ok(check_for_winner(board))
}

/// Placing a settlement that is allowed keeps the board well-formed.
pub proof fn lemma_settled_wf(b: BoardView, p: PlayerType, v: VertexId, founding: bool)
    requires
        b.wf(),
        b.settle_error(p, v, founding) is None,
    ensures
        b.settled(p, v, founding).wf(),
{
    let now = b.settled(p, v, founding);
    let new_vertex = now.vertices[v as int];
    lemma_points_bound(b, p);
    assert forall|i: int| 0 <= i < now.players.len() implies #[trigger] now.player_ok(i) by {
        assert(b.player_ok(i));
        let q = crate::types::player_at(i);
        let settlements = is_building_of(q, BuildingType::Settlement);
        let cities = is_building_of(q, BuildingType::City);
        lemma_count_update(b.vertices, settlements, v as int, new_vertex);
        lemma_count_update(b.vertices, cities, v as int, new_vertex);
        if i == p.seat() {
            let ports = b.player(p).power_ups;
            match b.vertices[v as int].power_up {
                Some(x) => {
                    if !ports.contains(x) {
                        assert forall|a: int, c: int|
                            0 <= a < ports.push(x).len() && 0 <= c < ports.push(x).len() && a
                                != c implies ports.push(x)[a] != ports.push(x)[c] by {
                            if a < ports.len() {
                                assert(ports.contains(ports[a]));
                            }
                            if c < ports.len() {
                                assert(ports.contains(ports[c]));
                            }
                        }
                    }
                },
                None => {},
            }
        }
    }
    assert(now.one_robber());
}

/// Turns the settlement of `player` at vertex `position` into a city, where
/// that is allowed.
fn upgrade(board: &mut Board, player: PlayerType, position: VertexId)
    requires
        old(board)@.seated(player),
        position < old(board)@.vertices.len(),
        old(board)@.player(player).city_quantity >= 1,
        old(board)@.player(player).settlement_quantity < 255,
        old(board)@.player(player).victory_points < 255,
        old(board)@.player(player).resources.covers(city_cost()),
    ensures
        final(board)@ == old(board)@.upgraded(player, position),
{
    let seat: usize = player.index();
    let ghost was = board@;
    board.vertices[position].building = Some(BuildingType::City);
    let piece_holder: &mut Player = &mut board.players[seat];
    piece_holder.city_quantity -= 1;
    piece_holder.settlement_quantity += 1;
    piece_holder.victory_points += 1;
    spend_resources(piece_holder, &city_price());
    proof {
        let goal = was.upgraded(player, position);
        assert(board@.players =~= goal.players);
        assert(board@.vertices =~= goal.vertices);
    }
}

/// Turns the settlement of `player_id_type` at vertex `position` into a city
/// and returns the winner, if that made one. Where that is not allowed, the
/// board stays as it is and the error says why.
pub fn place_city(
    board: &mut Board,
    player_id_type: PlayerType,
    position: VertexId,
) -> (placed: Result<Option<PlayerType>, GameError>)
    requires
        old(board)@.wf(),
    ensures
        final(board)@.wf(),
        match placed {
            Ok(winner) => {
                &&& old(board)@.upgrade_error(player_id_type, position) is None
                &&& final(board)@ == old(board)@.upgraded(player_id_type, position)
                &&& winner == final(board)@.winner()
            },
            Err(e) => {
                &&& old(board)@.upgrade_error(player_id_type, position) == Some(e)
                &&& *final(board) == *old(board)
            },
        },
{
    if position >= board.vertices.len() {
        return Err(GameError::InvalidPosition);
    }
    if !is_settlement_owned_by(board, player_id_type, position) {
        return Err(GameError::NoSettlement);
    }
    let player_index: usize = match board.seat_of(player_id_type) {
        Some(index) => index,
        None => {
            return Err(GameError::PlayerNotFound);
        },
    };
    if board.players[player_index].city_quantity == 0 {
        return Err(GameError::InsufficientPieces);
    }
    if !has_resources(&board.players[player_index], &city_price()) {
        return Err(GameError::InsufficientResources);
    }
    proof {
        lemma_points_bound(old(board)@, player_id_type);
        lemma_upgraded_wf(old(board)@, player_id_type, position);
    }
    upgrade(board, player_id_type, position);
    Ok(check_for_winner(board))
}

/// Turning a settlement into a city, where that is allowed, keeps the board
/// well-formed.
pub proof fn lemma_upgraded_wf(b: BoardView, p: PlayerType, v: VertexId)
    requires
        b.wf(),
        b.upgrade_error(p, v) is None,
    ensures
        b.upgraded(p, v).wf(),
{
    let now = b.upgraded(p, v);
    let new_vertex = now.vertices[v as int];
    lemma_points_bound(b, p);
    lemma_count_positive(b.vertices, is_building_of(p, BuildingType::Settlement), v as int);
    assert forall|i: int| 0 <= i < now.players.len() implies #[trigger] now.player_ok(i) by {
        assert(b.player_ok(i));
        let q = crate::types::player_at(i);
        let settlements = is_building_of(q, BuildingType::Settlement);
        let cities = is_building_of(q, BuildingType::City);
        lemma_count_update(b.vertices, settlements, v as int, new_vertex);
        lemma_count_update(b.vertices, cities, v as int, new_vertex);
    }
}

/// Whether edge `edge_id` ends at vertex `vertex_id`.
pub fn is_road_adjacent_to_vertex(
    board: &Board,
    edge_id: EdgeId,
    vertex_id: VertexId,
) -> (adjacent: bool)
    requires
        board@.topology_ok(),
        edge_id < EDGE_COUNT,
    ensures
        adjacent == touches(edge_id, vertex_id),
{
    let ends: (VertexId, VertexId) = board.edges[edge_id].vertices;
    ends.0 == vertex_id || ends.1 == vertex_id
}

/// Whether `player_id` has a road, other than on edge `except`, on an edge
/// that ends at `position`.
fn has_other_road(
    board: &Board,
    player_id: PlayerType,
    position: VertexId,
    except: EdgeId,
) -> (found: bool)
    requires
        board@.topology_ok(),
        position < VERTEX_COUNT,
    ensures
        found == board@.other_road_leads_to(player_id, position, except),
{
    proof {
        lemma_edges_at(position);
    }
    let adjacent: &Vec<EdgeId> = &board.vertices[position].adjacent_edges;
    let mut j: usize = 0;
    while j < adjacent.len()
        invariant
            j <= adjacent@.len(),
            board@.topology_ok(),
            position < VERTEX_COUNT,
            adjacent@ == edges_at(position),
            forall|i: int|
                0 <= i < j ==> (#[trigger] adjacent@[i]) == except
                    || board@.edges[adjacent@[i] as int].owner != Some(player_id),
        decreases adjacent@.len() - j,
    {
        let other_edge_id: EdgeId = adjacent[j];
        proof {
            lemma_edges_at(position);
        }
        if other_edge_id != except && owned_by(board.edges[other_edge_id].owner, player_id) {
            assert(touches(other_edge_id, position) && board@.edges[other_edge_id as int].owner
                == Some(player_id));
            return true;
        }
        j += 1;
    }
    proof {
        lemma_edges_at(position);
        if board@.other_road_leads_to(player_id, position, except) {
            let o = choose|o: EdgeId|
                o < EDGE_COUNT && o != except && touches(o, position) && (
                #[trigger] board@.edges[o as int]).owner == Some(player_id);
            let i = choose|i: int| 0 <= i < adjacent@.len() && adjacent@[i] == o;
            assert(adjacent@[i] == o);
        }
    }
    false
}

/// Whether a road on edge `edge_id` would extend the network of `player_id`:
/// the player has built on one of its ends, or has a road on another edge
/// that ends there. No edge that does not exist is connectable.
pub fn is_road_connectable(
    board: &Board,
    player_id: PlayerType,
    edge_id: EdgeId,
) -> (connectable: bool)
    requires
        board@.topology_ok(),
    ensures
        connectable == board@.road_connectable(player_id, edge_id),
{
    if edge_id >= board.edges.len() {
        return false;
    }
    proof {
        lemma_edge_ends(edge_id);
    }
    let ends: (VertexId, VertexId) = board.edges[edge_id].vertices;
    if owned_by(board.vertices[ends.0].owner, player_id) || owned_by(
        board.vertices[ends.1].owner,
        player_id,
    ) {
        return true;
    }
    if has_other_road(board, player_id, ends.0, edge_id) {
        return true;
    }
    has_other_road(board, player_id, ends.1, edge_id)
}

/// Puts a road of `player` on edge `edge`, where that is allowed.
fn lay_road(board: &mut Board, player: PlayerType, edge: EdgeId, phase: TurnPhase)
    requires
        old(board)@.seated(player),
        edge < old(board)@.edges.len(),
        old(board)@.player(player).road_quantity >= 1,
        phase == TurnPhase::Normal ==> old(board)@.player(player).resources.covers(road_cost()),
    ensures
        final(board)@ == old(board)@.road_laid(player, edge, phase),
{
    let seat: usize = player.index();
    let ghost was = board@;
    board.edges[edge].owner = Some(player);
    let piece_holder: &mut Player = &mut board.players[seat];
    piece_holder.road_quantity -= 1;
    if let TurnPhase::Normal = phase {
        spend_resources(piece_holder, &road_price());
    }
    proof {
        let goal = was.road_laid(player, edge, phase);
        assert(board@.players =~= goal.players);
        assert(board@.edges =~= goal.edges);
    }
}

/// Places a road of `player_id_type` on edge `edge_position` under the rules
/// of `turn_phase`, looks at the longest road, and returns the winner, if the
/// bonus changed hands and that made one. Where the placement is not allowed,
/// the board stays as it is and the error says why.
pub fn place_road(
    board: &mut Board,
    player_id_type: PlayerType,
    edge_position: EdgeId,
    turn_phase: TurnPhase,
) -> (placed: Result<Option<PlayerType>, GameError>)
    requires
        old(board)@.wf(),
    ensures
        final(board)@.wf(),
        match placed {
            Ok(winner) => {
                let laid = old(board)@.road_laid(player_id_type, edge_position, turn_phase);
                &&& old(board)@.road_error(player_id_type, edge_position, turn_phase) is None
                &&& final(board)@ == laid.after_road_check(player_id_type)
                &&& winner == if laid.takes_longest_road(player_id_type) {
                    final(board)@.winner()
                } else {
                    None
                }
            },
            Err(e) => {
                &&& old(board)@.road_error(player_id_type, edge_position, turn_phase) == Some(e)
                &&& *final(board) == *old(board)
            },
        },
{
    if edge_position >= board.edges.len() {
        return Err(GameError::InvalidPosition);
    }
    let player_index: usize = match board.seat_of(player_id_type) {
        Some(index) => index,
        None => {
            return Err(GameError::PlayerNotFound);
        },
    };
    if board.players[player_index].road_quantity == 0 {
        return Err(GameError::InsufficientPieces);
    }
    if board.edges[edge_position].owner.is_some() {
        return Err(GameError::OccupiedPosition);
    }
    if let TurnPhase::Normal = turn_phase {
        if !has_resources(&board.players[player_index], &road_price()) {
            return Err(GameError::InsufficientResources);
        }
    }
    let is_connected: bool = match turn_phase {
        TurnPhase::Normal | TurnPhase::FreeRoad => is_road_connectable(
            board,
            player_id_type,
            edge_position,
        ),
        TurnPhase::Setup { anchor_vertex } => is_road_adjacent_to_vertex(
            board,
            edge_position,
            anchor_vertex,
        ),
    };
    if !is_connected {
        return Err(GameError::NotConnected);
    }
    proof {
        lemma_road_laid_wf(old(board)@, player_id_type, edge_position, turn_phase);
    }
    lay_road(board, player_id_type, edge_position, turn_phase);
    Ok(update_longest_road(board, player_id_type))
}

/// Placing a road that is allowed keeps the board well-formed.
pub proof fn lemma_road_laid_wf(b: BoardView, p: PlayerType, e: EdgeId, phase: TurnPhase)
    requires
        b.wf(),
        b.road_error(p, e, phase) is None,
    ensures
        b.road_laid(p, e, phase).wf(),
{
    let now = b.road_laid(p, e, phase);
    let new_edge = now.edges[e as int];
    lemma_points_bound(b, p);
    assert forall|i: int| 0 <= i < now.players.len() implies #[trigger] now.player_ok(i) by {
        assert(b.player_ok(i));
        let q = crate::types::player_at(i);
        lemma_count_update(b.edges, is_road_of(q), e as int, new_edge);
    }
}

} // verus!
