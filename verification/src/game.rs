//! Moves, outcomes, and the round resolver.

use vstd::prelude::*;

verus! {

/// One throw of Rock-Paper-Scissors.
#[derive(Clone, Copy, Debug, PartialEq, Eq, Structural)]
pub enum Move {
    Rock,
    Paper,
    Scissors,
}

/// The outcome of one round, seen from the player's side.
#[derive(Clone, Copy, Debug, PartialEq, Eq, Structural)]
pub enum WinState {
    Won,
    Lost,
    Drew,
}

/// An ordered pair of moves: the opponent's, then the player's.
#[derive(Debug, PartialEq, Eq, Structural)]
pub struct Choices(pub Move, pub Move);

/// The opponent's move paired with the outcome the player wants.
#[derive(Debug, PartialEq, Eq, Structural)]
pub struct OponentChoiceWinState(pub Move, pub WinState);

/// One decoded and scored line of input.
#[derive(Debug, PartialEq, Eq, Structural)]
pub struct Round {
    pub choice: Choices,
    pub win_state: WinState,
    pub score: u32,
}

/// The move that beats `m` in the fixed rotation.
pub open spec fn winning_move(m: Move) -> Move {
    match m {
        Move::Rock => Move::Paper,
        Move::Paper => Move::Scissors,
        Move::Scissors => Move::Rock,
    }
}

/// The move that `m` beats in the fixed rotation.
pub open spec fn losing_move(m: Move) -> Move {
    match m {
        Move::Rock => Move::Scissors,
        Move::Paper => Move::Rock,
        Move::Scissors => Move::Paper,
    }
}

/// Points granted for the player's own move.
pub open spec fn move_points(m: Move) -> u32 {
    match m {
        Move::Rock => 1,
        Move::Paper => 2,
        Move::Scissors => 3,
    }
}

/// Points granted for the round's outcome.
pub open spec fn outcome_points(w: WinState) -> u32 {
    match w {
        WinState::Won => 6,
        WinState::Drew => 3,
        WinState::Lost => 0,
    }
}

/// The outcome a pair of moves determines, from the player's side:
/// a loss where the opponent's move beats the player's, a draw where
/// both moves are equal, and a win for every other pair.
pub open spec fn outcome_of(c: Choices) -> WinState {
    if c.1 == losing_move(c.0) {
        WinState::Lost
    } else if c.1 == c.0 {
        WinState::Drew
    } else {
        WinState::Won
    }
}

/// A round's score: points for the outcome plus points for the player's move.
pub open spec fn score_of(c: Choices) -> u32 {
    (outcome_points(outcome_of(c)) + move_points(c.1)) as u32
}

/// The move that reaches outcome `w` against opponent move `m`.
pub open spec fn derived_move(m: Move, w: WinState) -> Move {
    match w {
        WinState::Won => winning_move(m),
        WinState::Lost => losing_move(m),
        WinState::Drew => m,
    }
}

/// The round that a pair of moves determines.
pub open spec fn round_of(c: Choices) -> Round {
    Round { choice: c, win_state: outcome_of(c), score: score_of(c) }
}

impl WinState {
    /// Points granted for this outcome.
    pub fn points_from_state(&self) -> (points: u32)
        ensures
            points == outcome_points(*self),
    {
        match self {
            Self::Won => 6,
            Self::Drew => 3,
            Self::Lost => 0,
        }
    }

    /// An explicit copy, variant by variant.
    pub fn clone(&self) -> (r: Self)
        ensures
            r == *self,
    {
        match self {
            Self::Won => Self::Won,
            Self::Drew => Self::Drew,
            Self::Lost => Self::Lost,
        }
    }
}

impl Move {
    /// An explicit copy, variant by variant.
    pub fn clone(&self) -> (r: Move)
        ensures
            r == *self,
    {
        match self {
            Move::Rock => Move::Rock,
            Move::Paper => Move::Paper,
            Move::Scissors => Move::Scissors,
        }
    }

    /// The move that draws against this one: the move itself.
    pub fn move_to_draw_round(&self) -> (r: Move)
        ensures
            r == *self,
    {
        self.clone()
    }

    /// The move that wins against this one.
    pub fn move_to_win(&self) -> (r: Move)
        ensures
            r == winning_move(*self),
    {
        match self {
            Move::Rock => Move::Paper,
            Move::Paper => Move::Scissors,
            Move::Scissors => Move::Rock,
        }
    }

    /// The move that loses against this one.
    pub fn move_to_loose(&self) -> (r: Move)
        ensures
            r == losing_move(*self),
    {
        match self {
            Move::Rock => Move::Scissors,
            Move::Paper => Move::Rock,
            Move::Scissors => Move::Paper,
        }
    }
}

impl Choices {
    /// The player's move: the second of the pair.
    pub fn get_player_move(&self) -> (m: &Move)
        ensures
            *m == self.1,
    {
        &self.1
    }

    /// The opponent's move: the first of the pair.
    pub fn get_oponent_move(&self) -> (m: &Move)
        ensures
            *m == self.0,
    {
        &self.0
    }

    /// Points granted for the player's own move.
    pub fn get_score_from_move(&self) -> (points: u32)
        ensures
            points == move_points(self.1),
    {
        let player_move = self.get_player_move();
        match player_move {
            Move::Rock => 1,
            Move::Paper => 2,
            Move::Scissors => 3,
        }
    }

    /// An explicit copy of both moves.
    pub fn clone(&self) -> (r: Choices)
        ensures
            r == *self,
    {
        Choices(self.get_oponent_move().clone(), self.get_player_move().clone())
    }
}

impl OponentChoiceWinState {
    /// The opponent's move: the first component.
    pub fn get_oponent_move(&self) -> (m: Move)
        ensures
            m == self.0,
    {
        self.0.clone()
    }

    /// The desired outcome: the second component.
    pub fn get_win_state(&self) -> (w: WinState)
        ensures
            w == self.1,
    {
        self.1.clone()
    }

    /// Replace the desired outcome by the player's move that achieves it.
    pub fn to_choice(&self) -> (c: Choices)
        ensures
            c.0 == self.0,
            c.1 == derived_move(self.0, self.1),
    {
        let player_choice = match self.get_win_state() {
            WinState::Won => self.get_oponent_move().move_to_win(),
            WinState::Lost => self.get_oponent_move().move_to_loose(),
            WinState::Drew => self.get_oponent_move().move_to_draw_round(),
        };

        Choices(self.get_oponent_move(), player_choice)
    }

    /// An explicit copy of both components.
    pub fn clone(&self) -> (r: Self)
        ensures
            r == *self,
    {
        OponentChoiceWinState(self.get_oponent_move(), self.get_win_state())
    }
}

/// The outcome of a round, by the standard Rock-Paper-Scissors relation.
pub fn win_state(choice: &Choices) -> (w: WinState)
    ensures
        w == outcome_of(*choice),
{
    match choice {
        Choices(Move::Rock, Move::Scissors)
        | Choices(Move::Scissors, Move::Paper)
        | Choices(Move::Paper, Move::Rock) => WinState::Lost,
        Choices(Move::Paper, Move::Paper)
        | Choices(Move::Rock, Move::Rock)
        | Choices(Move::Scissors, Move::Scissors) => WinState::Drew,
        _ => WinState::Won,
    }
}

/// Decide a round from a pair of moves: the outcome by the standard
/// relation, the score as outcome points plus move points.
pub fn decide_round_part1(choice: Choices) -> (r: Round)
    ensures
        r == round_of(choice),
{
    let win_state = win_state(&choice);
    let points_from_state = win_state.points_from_state();
    let score_from_move = choice.get_score_from_move();
    let score = points_from_state + score_from_move;

    Round { choice: choice.clone(), win_state, score }
}

/// The resolver is a pure function of the move pair: equal pairs give
/// equal outcomes and equal scores.
pub proof fn lemma_resolver_deterministic(a: Choices, b: Choices)
    requires
        a == b,
    ensures
        outcome_of(a) == outcome_of(b),
        score_of(a) == score_of(b),
{
}

/// Round trip for the move deriver: the move derived to reach a desired
/// outcome does reach that outcome when the round is resolved.
pub proof fn lemma_derive_round_trip(m: Move, w: WinState)
    ensures
        outcome_of(Choices(m, derived_move(m, w))) == w,
{
}

/// Every round's score lies between 1 and 9.
pub proof fn lemma_score_bounds(c: Choices)
    ensures
        1 <= score_of(c) <= 9,
{
}

} // verus!
