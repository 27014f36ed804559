use vstd::prelude::*;

use crate::pieces::piece::{rival_of, Color};
use crate::player::errors::ErrorResponse;

verus! {

/// The turn state: which side moves next, how many moves the game has
/// completed, and the check and checkmate flags kept for status reporting.
#[derive(Clone)]
pub struct Turn {
    /// The side currently to move; never `EMPTY`.
    pub current_player: Color,
    /// How many moves this game has completed.  At 255 the game is over.
    pub value: u8,
    pub black_check: bool,
    pub white_check: bool,
    pub checkmate: bool,
}

impl Turn {
    /// A definite side is always to move.
    pub open spec fn wf(&self) -> bool {
        self.current_player != Color::EMPTY
    }

    pub fn new(current_player: bool, value: u8) -> (r: Self)
        ensures
            r == (Turn {
                current_player: if current_player {
                    Color::BLACK
                } else {
                    Color::WHITE
                },
                value,
                black_check: false,
                white_check: false,
                checkmate: false,
            }),
            r.wf(),
    {
        let current_player = match current_player {
            false => Color::WHITE,
            true => Color::BLACK,
        };

        Turn { current_player, value, black_check: false, white_check: false, checkmate: false }
    }

    pub fn get_current_player_color(&self) -> (r: Color)
        ensures
            r == self.current_player,
    {
        self.current_player
    }

    /// The side to move as the boolean the persistence layer stores: false
    /// for white, true for black.
    pub fn get_current_player_boolean(&self) -> (r: bool)
        requires
            self.wf(),
        ensures
            r == (self.current_player is BLACK),
    {
        match self.current_player {
            Color::WHITE => false,
            Color::BLACK => true,
            _ => unreached(),
        }
    }

    pub fn get_value(&self) -> (r: u8)
        ensures
            r == self.value,
    {
        self.value
    }

    pub fn is_black_check(&self) -> (r: bool)
        ensures
            r == self.black_check,
    {
        self.black_check
    }

    pub fn is_white_check(&self) -> (r: bool)
        ensures
            r == self.white_check,
    {
        self.white_check
    }

    pub fn is_checkmate(&self) -> (r: bool)
        ensures
            r == self.checkmate,
    {
        self.checkmate
    }

    pub fn set_black_check(&mut self)
        ensures
            *final(self) == (Turn { black_check: true, ..*old(self) }),
    {
        self.black_check = true;
    }

    pub fn unset_black_check(&mut self)
        ensures
            *final(self) == (Turn { black_check: false, ..*old(self) }),
    {
        self.black_check = false;
    }

    pub fn set_white_check(&mut self)
        ensures
            *final(self) == (Turn { white_check: true, ..*old(self) }),
    {
        self.white_check = true;
    }

    pub fn unset_white_check(&mut self)
        ensures
            *final(self) == (Turn { white_check: false, ..*old(self) }),
    {
        self.white_check = false;
    }

    pub fn set_checkmate(&mut self)
        ensures
            *final(self) == (Turn { checkmate: true, ..*old(self) }),
    {
        self.checkmate = true;
    }

    /// Flip the side to move and count the move.  When the counter reaches
    /// its ceiling the game is over, even though the move itself stands.
    pub fn next_turn(&mut self) -> (r: Result<(), ErrorResponse>)
        requires
            old(self).wf(),
            old(self).value < 255,
        ensures
            final(self).wf(),
            *final(self) == (Turn {
                current_player: rival_of(old(self).current_player),
                value: (old(self).value + 1) as u8,
                ..*old(self)
            }),
            r == (if old(self).value + 1 == 255 {
                Result::<(), ErrorResponse>::Err(ErrorResponse::GameOver)
            } else {
                Result::<(), ErrorResponse>::Ok(())
            }),
    {
        let current_player: Color = self.current_player;

        self.current_player = match current_player {
            Color::EMPTY => unreached(),
            Color::BLACK => Color::WHITE,
            Color::WHITE => Color::BLACK,
        };

        self.value += 1;

        // 255 turns is way over the top: the game ends here.
        if self.value == 255 {
            return Result::Err(ErrorResponse::GameOver);
        }

        Result::Ok(())
    }
}

} // verus!
