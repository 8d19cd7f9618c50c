//! Match orchestration: two boards, two named players, an explicit turn
//! state, and the bookkeeping that ends the game the instant the last ship
//! sinks.

use crate::board::{shoot_post, Board, WATER};
use vstd::prelude::*;
use vstd::string::StrSliceExecFns;

verus! {

pub const BOARD_SIZE_MIN: usize = 5;

pub const BOARD_SIZE_MAX: usize = 20;

pub const BOARD_SIZE_DEFAULT: usize = 10;

/// Length of every ship in a standard match; never exceeds the board side.
pub const SHIP_SIZE: usize = 2;

/// Ships each player places in a standard match.
pub const SHIPS_COUNT: usize = 2;

pub const PLAYER_NAME_MAX_LENGTH: usize = 20;

#[derive(Clone, Copy, PartialEq, Eq, Structural, Debug)]
pub enum PlayerId {
    One,
    Two,
}

#[derive(Clone, Copy, PartialEq, Eq, Structural, Debug)]
pub enum TurnState {
    Player1Turn,
    Player2Turn,
    GameOver(PlayerId),
}

/// Whether a character counts as alphanumeric, as the standard library
/// classifies characters; a fixed function of the character alone.
pub uninterp spec fn is_alphanumeric_char(c: char) -> bool;

/// Relies on char::is_alphanumeric: classifies the character alone, by the
/// Unicode categories the standard library documents.
pub assume_specification[ char::is_alphanumeric ](c: char) -> (r: bool)
    ensures
        r == is_alphanumeric_char(c),
;

/// A usable player name: between one and the permitted number of characters,
/// all of them alphanumeric.
pub open spec fn valid_player_name(s: Seq<char>) -> bool {
    &&& 1 <= s.len() <= PLAYER_NAME_MAX_LENGTH
    &&& forall|i: int| 0 <= i < s.len() ==> is_alphanumeric_char(#[trigger] s[i])
}

pub fn validate_player_name(player_name: &String) -> (r: bool)
    ensures
        r == valid_player_name(player_name@),
{
    let n = player_name.as_str().unicode_len();
    if n == 0 || n > PLAYER_NAME_MAX_LENGTH {
        return false;
    }
    let mut i: usize = 0;
    while i < n
        invariant
            n == player_name@.len(),
            1 <= n <= PLAYER_NAME_MAX_LENGTH,
            i <= n,
            forall|j: int| 0 <= j < i ==> is_alphanumeric_char(#[trigger] player_name@[j]),
        decreases n - i,
    {
        let c = player_name.as_str().get_char(i);
        if !c.is_alphanumeric() {
            return false;
        }
        i += 1;
    }
    true
}

/// The configured board side must lie in the supported range.
pub fn validate_board_size(size: usize) -> (r: bool)
    ensures
        r == (BOARD_SIZE_MIN <= size <= BOARD_SIZE_MAX),
{
    size >= BOARD_SIZE_MIN && size <= BOARD_SIZE_MAX
}

pub struct Game {
    pub player_1_name: String,
    pub player_2_name: String,
    pub player_1_ships_remaining: usize,
    pub player_2_ships_remaining: usize,
    pub player_1_board: Board,
    pub player_2_board: Board,
    pub ships_per_player: usize,
    pub turn: TurnState,
}

impl Game {
    /// Both boards are sound and share one symmetric configuration.
    pub open spec fn wf(self) -> bool {
        &&& self.player_1_board.wf()
        &&& self.player_2_board.wf()
        &&& self.player_2_board.grid_size == self.player_1_board.grid_size
        &&& self.player_2_board.ship_size == self.player_1_board.ship_size
        &&& 1 <= self.ships_per_player
    }

    /// In the combat phase each remaining-ship counter agrees with the live
    /// index of the matching board.
    pub open spec fn counters_in_sync(self) -> bool {
        &&& self.player_1_ships_remaining == self.player_1_board.ships@.len()
        &&& self.player_2_ships_remaining == self.player_2_board.ships@.len()
    }

    /// A fresh match: two all-water boards, both remaining-ship counters at
    /// the configured ship count, and player one to move first.
    pub fn new(
        player_1_name: String,
        player_2_name: String,
        board_size: usize,
        ship_size: usize,
        ships_per_player: usize,
    ) -> (game: Game)
        requires
            1 <= ship_size <= board_size,
            1 <= ships_per_player,
        ensures
            game.wf(),
            game.player_1_name == player_1_name,
            game.player_2_name == player_2_name,
            game.player_1_ships_remaining == ships_per_player,
            game.player_2_ships_remaining == ships_per_player,
            game.ships_per_player == ships_per_player,
            game.turn == TurnState::Player1Turn,
            game.player_1_board.grid_size == board_size,
            game.player_1_board.ship_size == ship_size,
            game.player_2_board.grid_size == board_size,
            game.player_2_board.ship_size == ship_size,
            game.player_1_board.ships@.len() == 0,
            game.player_2_board.ships@.len() == 0,
            forall|x: int, y: int|
                game.player_1_board.in_bounds(x, y) ==> #[trigger] game.player_1_board.cell(x, y)
                    == WATER,
            forall|x: int, y: int|
                game.player_2_board.in_bounds(x, y) ==> #[trigger] game.player_2_board.cell(x, y)
                    == WATER,
    {
        Game {
            player_1_name,
            player_2_name,
            player_1_ships_remaining: ships_per_player,
            player_2_ships_remaining: ships_per_player,
            player_1_board: Board::new(board_size, ship_size),
            player_2_board: Board::new(board_size, ship_size),
            ships_per_player,
            turn: TurnState::Player1Turn,
        }
    }

    /// Resolve the acting player's shot at `(x, y)` on the opponent's board.
    /// A hit sinks one whole ship and lowers the opponent's remaining-ship
    /// counter by exactly one; the moment that counter reaches zero the game
    /// is over and the acting player has won, without the opponent moving
    /// again. Otherwise the turn passes to the other player.
    pub fn apply_shot(&mut self, x: usize, y: usize) -> (r: Option<char>)
        requires
            old(self).wf(),
            old(self).counters_in_sync(),
            !(old(self).turn is GameOver),
            x < old(self).player_1_board.grid_size,
            y < old(self).player_1_board.grid_size,
        ensures
            final(self).wf(),
            final(self).counters_in_sync(),
            final(self).player_1_name == old(self).player_1_name,
            final(self).player_2_name == old(self).player_2_name,
            final(self).ships_per_player == old(self).ships_per_player,
            old(self).turn is Player1Turn ==> ({
                &&& final(self).player_1_board == old(self).player_1_board
                &&& final(self).player_1_ships_remaining == old(self).player_1_ships_remaining
                &&& shoot_post(
                    old(self).player_2_board,
                    final(self).player_2_board,
                    r,
                    x as int,
                    y as int,
                )
                &&& final(self).player_2_ships_remaining == (if r is Some {
                    old(self).player_2_ships_remaining - 1
                } else {
                    old(self).player_2_ships_remaining as int
                })
                &&& final(self).turn == (if final(self).player_2_ships_remaining == 0 {
                    TurnState::GameOver(PlayerId::One)
                } else {
                    TurnState::Player2Turn
                })
            }),
            old(self).turn is Player2Turn ==> ({
                &&& final(self).player_2_board == old(self).player_2_board
                &&& final(self).player_2_ships_remaining == old(self).player_2_ships_remaining
                &&& shoot_post(
                    old(self).player_1_board,
                    final(self).player_1_board,
                    r,
                    x as int,
                    y as int,
                )
                &&& final(self).player_1_ships_remaining == (if r is Some {
                    old(self).player_1_ships_remaining - 1
                } else {
                    old(self).player_1_ships_remaining as int
                })
                &&& final(self).turn == (if final(self).player_1_ships_remaining == 0 {
                    TurnState::GameOver(PlayerId::Two)
                } else {
                    TurnState::Player1Turn
                })
            }),
    {
        match self.turn {
            TurnState::Player1Turn => {
                let r = self.player_2_board.shoot(x, y);
                if r.is_some() {
                    self.player_2_ships_remaining = self.player_2_ships_remaining - 1;
                }
                if self.player_2_ships_remaining == 0 {
                    self.turn = TurnState::GameOver(PlayerId::One);
                } else {
                    self.turn = TurnState::Player2Turn;
                }
                r
            },
            TurnState::Player2Turn => {
                let r = self.player_1_board.shoot(x, y);
                if r.is_some() {
                    self.player_1_ships_remaining = self.player_1_ships_remaining - 1;
                }
                if self.player_1_ships_remaining == 0 {
                    self.turn = TurnState::GameOver(PlayerId::Two);
                } else {
                    self.turn = TurnState::Player1Turn;
                }
                r
            },
            TurnState::GameOver(_) => vstd::pervasive::unreached(),
        }
    }
}

} // verus!
