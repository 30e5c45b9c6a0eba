//! Rules engine for a settlement-building game for two to four players on a
//! fixed board of hexagons.
//!
//! A [`Board`] holds the whole state of one game. Every action is one call:
//! it either applies in full or is rejected and leaves the board as it was.
//! The contract of an action says, over the view of the board, exactly when
//! it is rejected and with which error, and what the board is afterwards.
//!
//! Every function that takes a board asks that it is well-formed
//! ([`BoardView::wf`]) and leaves it so. Boards come from
//! [`setup::setup_board`] and [`setup::build_board`], and their fields change
//! through the functions of this crate alone, so a caller never holds a board
//! that is not well-formed.
//!
//! Chance enters in three places: the shuffling of tiles and cards, the card
//! that the robber takes, and the dice. Each has a counterpart without
//! chance, which takes the outcome as an argument: [`setup::build_board`],
//! [`economy::move_robber_and_take`] and
//! [`development_cards::play_knight_card_taking`]; the total of the dice is an
//! argument of [`economy::give_materials_on_roll`] as it is.
//!
//! The modules:
//! - [`types`]: players, materials, cards, errors, and the nodes of the graph;
//! - [`topology`]: the fixed graph and what holds of it;
//! - [`state`]: what holds of every board between two actions;
//! - [`setup`] and [`control`]: a fresh board, seats, the founding turns;
//! - [`building`]: settlements, cities, roads;
//! - [`economy`]: prices, production, the bank, the draw pile, the robber;
//! - [`development_cards`]: playing the cards;
//! - [`victory`]: the winner, the longest road, the largest army;
//! - [`survey`] and [`console`]: what a front end reads and what it is told;
//! - [`theorems`]: what the rules add up to;
//! - [`counting`]: counting the items of a sequence.

pub mod types;
pub mod counting;
pub mod topology;
pub mod state;
pub mod setup;
pub mod victory;
pub mod economy;
pub mod building;
pub mod development_cards;
pub mod control;
pub mod survey;
pub mod console;
pub mod theorems;

use vstd::prelude::*;
use crate::types::{
    players_view, DevelopmentCard, Edge, Player, PlayerType, PlayerView, Tile, Vertex,
};

verus! {

/// The state of one game: the graph with what is built on it, the players in
/// the order of their seats, the draw pile and the holders of the two bonuses.
///
/// The fields change only through the functions of this crate, which keep
/// [`BoardView::wf`].
#[derive(Debug, Clone)]
pub struct Board {
    vertices: Vec<Vertex>,
    tiles: Vec<Tile>,
    edges: Vec<Edge>,
    players: Vec<Player>,
    development_cards: Vec<DevelopmentCard>,
    largest_army: Option<PlayerType>,
    largest_army_size: u8,
    longest_road: Option<PlayerType>,
    longest_road_size: u8,
}

/// A board as contracts see it.
pub struct BoardView {
    pub vertices: Seq<Vertex>,
    pub tiles: Seq<Tile>,
    pub edges: Seq<Edge>,
    pub players: Seq<PlayerView>,
    /// The draw pile; the next card to be drawn is the last.
    pub development_cards: Seq<DevelopmentCard>,
    pub largest_army: Option<PlayerType>,
    /// The number of knights that a player must exceed to take the bonus.
    pub largest_army_size: u8,
    pub longest_road: Option<PlayerType>,
    /// The road length that a player must exceed to take the bonus.
    pub longest_road_size: u8,
}

impl View for Board {
    type V = BoardView;

    closed spec fn view(&self) -> BoardView {
        BoardView {
            vertices: self.vertices@,
            tiles: self.tiles@,
            edges: self.edges@,
            players: players_view(self.players@),
            development_cards: self.development_cards@,
            largest_army: self.largest_army,
            largest_army_size: self.largest_army_size,
            longest_road: self.longest_road,
            longest_road_size: self.longest_road_size,
        }
    }
}

impl Board {
    /// The vertices, by id.
    pub fn vertices(&self) -> (vertices: &Vec<Vertex>)
        ensures
            vertices@ == self@.vertices,
    {
        &self.vertices
    }

    /// The tiles, by id.
    pub fn tiles(&self) -> (tiles: &Vec<Tile>)
        ensures
            tiles@ == self@.tiles,
    {
        &self.tiles
    }

    /// The edges, by id.
    pub fn edges(&self) -> (edges: &Vec<Edge>)
        ensures
            edges@ == self@.edges,
    {
        &self.edges
    }

    /// The players, in the order of their seats.
    pub fn players(&self) -> (players: &Vec<Player>)
        ensures
            players_view(players@) == self@.players,
    {
        &self.players
    }

    /// The draw pile; the next card to be drawn is the last.
    pub fn development_cards(&self) -> (cards: &Vec<DevelopmentCard>)
        ensures
            cards@ == self@.development_cards,
    {
        &self.development_cards
    }

    /// The holder of the largest army, if there is one.
    pub fn largest_army(&self) -> (holder: Option<PlayerType>)
        ensures
            holder == self@.largest_army,
    {
        self.largest_army
    }

    /// The number of knights that a player must exceed to take the largest
    /// army.
    pub fn largest_army_size(&self) -> (size: u8)
        ensures
            size == self@.largest_army_size,
    {
        self.largest_army_size
    }

    /// The holder of the longest road, if there is one.
    pub fn longest_road(&self) -> (holder: Option<PlayerType>)
        ensures
            holder == self@.longest_road,
    {
        self.longest_road
    }

    /// The road length that a player must exceed to take the longest road.
    pub fn longest_road_size(&self) -> (size: u8)
        ensures
            size == self@.longest_road_size,
    {
        self.longest_road_size
    }

    /// The seat of `player`, if `player` has sat down.
    pub fn seat_of(&self, player: PlayerType) -> (seat: Option<usize>)
        requires
            self@.wf(),
        ensures
            match seat {
                Some(i) => self@.seated(player) && i == player.seat(),
                None => !self@.seated(player),
            },
    {
        let mut i: usize = 0;
        while i < self.players.len()
            invariant
                i <= self.players@.len(),
                self@.wf(),
                forall|j: int| 0 <= j < i ==> self.players@[j].id != player,
            decreases self.players@.len() - i,
        {
            assert(self@.player_ok(i as int));
            if self.players[i].id == player {
                return Some(i);
            }
            i += 1;
        }
        proof {
            if self@.seated(player) {
                assert(self@.player_ok(player.seat()));
            }
        }
        None
    }
}

} // verus!
