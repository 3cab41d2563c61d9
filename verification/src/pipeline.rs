//! Token codecs, the line pipeline and the totalizer.

use vstd::prelude::*;

use crate::game::{
    decide_round_part1, derived_move, round_of, Choices, Move, OponentChoiceWinState, Round,
    WinState,
};
use crate::text::{
    lemma_line_len_is, line_len, split_lines, tokenize, tokens_of, trim, trim_spec, views_of,
};

verus! {

/// Why a piece of input was rejected.
#[derive(Clone, Copy, Debug, PartialEq, Eq, Structural)]
pub enum ParseError {
    /// A move column held a token other than `A`, `B`, `C`, `X`, `Y` or `Z`.
    InvalidMoveToken,
    /// An outcome column held a token other than `X`, `Y` or `Z`.
    InvalidOutcomeToken,
    /// A line did not hold exactly two tokens.
    MalformedLine,
}

/// The move a token encodes: `A` and `X` are Rock, `B` and `Y` are Paper,
/// `C` and `Z` are Scissors; any other token is a parse error.
pub open spec fn decode_move_spec(t: Seq<char>) -> Result<Move, ParseError> {
    if t.len() == 1 && (t[0] == 'A' || t[0] == 'X') {
        Ok(Move::Rock)
    } else if t.len() == 1 && (t[0] == 'B' || t[0] == 'Y') {
        Ok(Move::Paper)
    } else if t.len() == 1 && (t[0] == 'C' || t[0] == 'Z') {
        Ok(Move::Scissors)
    } else {
        Err(ParseError::InvalidMoveToken)
    }
}

/// The outcome a token encodes: `X` is a loss, `Y` a draw, `Z` a win;
/// any other token is a parse error.
pub open spec fn decode_win_state_spec(t: Seq<char>) -> Result<WinState, ParseError> {
    if t.len() == 1 && t[0] == 'X' {
        Ok(WinState::Lost)
    } else if t.len() == 1 && t[0] == 'Y' {
        Ok(WinState::Drew)
    } else if t.len() == 1 && t[0] == 'Z' {
        Ok(WinState::Won)
    } else {
        Err(ParseError::InvalidOutcomeToken)
    }
}

/// Mode 1 reading of one line: exactly two tokens, both moves.
pub open spec fn line_choices_part1(line: Seq<char>) -> Result<Choices, ParseError> {
    let toks = tokens_of(line);
    if toks.len() != 2 {
        Err(ParseError::MalformedLine)
    } else {
        match decode_move_spec(toks[0]) {
            Err(e) => Err(e),
            Ok(op) => match decode_move_spec(toks[1]) {
                Err(e) => Err(e),
                Ok(pl) => Ok(Choices(op, pl)),
            },
        }
    }
}

/// Mode 2 reading of one line: exactly two tokens, a move and a desired
/// outcome; the player's move is the one that reaches that outcome.
pub open spec fn line_choices_part2(line: Seq<char>) -> Result<Choices, ParseError> {
    let toks = tokens_of(line);
    if toks.len() != 2 {
        Err(ParseError::MalformedLine)
    } else {
        match decode_move_spec(toks[0]) {
            Err(e) => Err(e),
            Ok(op) => match decode_win_state_spec(toks[1]) {
                Err(e) => Err(e),
                Ok(w) => Ok(Choices(op, derived_move(op, w))),
            },
        }
    }
}

/// The reading of one line in the given mode.
pub open spec fn line_choices(line: Seq<char>, mode2: bool) -> Result<Choices, ParseError> {
    if mode2 {
        line_choices_part2(line)
    } else {
        line_choices_part1(line)
    }
}

/// The rounds of a sequence of lines, in order, or the error of the
/// first line that does not parse.
pub open spec fn rounds_from_lines(lines: Seq<Seq<char>>, mode2: bool) -> Result<
    Seq<Round>,
    ParseError,
>
    decreases lines.len(),
{
    if lines.len() == 0 {
        Ok(Seq::empty())
    } else {
        match line_choices(lines[0], mode2) {
            Err(e) => Err(e),
            Ok(c) => match rounds_from_lines(lines.drop_first(), mode2) {
                Err(e) => Err(e),
                Ok(rest) => Ok(seq![round_of(c)] + rest),
            },
        }
    }
}

/// The mode 1 rounds of the whole content: trim, split on newline,
/// read every line as a pair of moves.
pub open spec fn rounds_part1_spec(s: Seq<char>) -> Result<Seq<Round>, ParseError> {
    rounds_from_lines(split_lines(trim_spec(s)), false)
}

/// The mode 2 rounds of the whole content: trim, split on newline,
/// read every line as a move and a desired outcome.
pub open spec fn rounds_part2_spec(s: Seq<char>) -> Result<Seq<Round>, ParseError> {
    rounds_from_lines(split_lines(trim_spec(s)), true)
}

/// Decode a mode 1 token into a move.
pub fn decode_move(coded_move: &str) -> (r: Result<Move, ParseError>)
    ensures
        r == decode_move_spec(coded_move@),
{
    if coded_move.unicode_len() == 1 {
        let c = coded_move.get_char(0);
        if c == 'A' || c == 'X' {
            Ok(Move::Rock)
        } else if c == 'B' || c == 'Y' {
            Ok(Move::Paper)
        } else if c == 'C' || c == 'Z' {
            Ok(Move::Scissors)
        } else {
            Err(ParseError::InvalidMoveToken)
        }
    } else {
        Err(ParseError::InvalidMoveToken)
    }
}

/// Decode a mode 2 token into a desired outcome.
pub fn decode_win_state(coded_win_state: &str) -> (r: Result<WinState, ParseError>)
    ensures
        r == decode_win_state_spec(coded_win_state@),
{
    if coded_win_state.unicode_len() == 1 {
        let c = coded_win_state.get_char(0);
        if c == 'X' {
            Ok(WinState::Lost)
        } else if c == 'Y' {
            Ok(WinState::Drew)
        } else if c == 'Z' {
            Ok(WinState::Won)
        } else {
            Err(ParseError::InvalidOutcomeToken)
        }
    } else {
        Err(ParseError::InvalidOutcomeToken)
    }
}

/// Read one line in mode 1: two tokens, both moves.
pub fn parse_choice_part1(coded_moves: &str) -> (r: Result<Choices, ParseError>)
    ensures
        r == line_choices_part1(coded_moves@),
{
    let toks = tokenize(coded_moves);
    proof {
        assert(views_of(toks@).len() == toks@.len());
    }
    if toks.len() != 2 {
        return Err(ParseError::MalformedLine);
    }
    proof {
        assert(views_of(toks@)[0] == toks@[0]@);
        assert(views_of(toks@)[1] == toks@[1]@);
    }
    match decode_move(toks[0]) {
        Err(e) => Err(e),
        Ok(oponet_choice) => match decode_move(toks[1]) {
            Err(e) => Err(e),
            Ok(player_choice) => Ok(Choices(oponet_choice, player_choice)),
        },
    }
}

/// Read one line in mode 2: a move and a desired outcome, replaced by
/// the move pair that reaches it.
pub fn parse_choice_part2(coded_moves: &str) -> (r: Result<Choices, ParseError>)
    ensures
        r == line_choices_part2(coded_moves@),
{
    let toks = tokenize(coded_moves);
    proof {
        assert(views_of(toks@).len() == toks@.len());
    }
    if toks.len() != 2 {
        return Err(ParseError::MalformedLine);
    }
    proof {
        assert(views_of(toks@)[0] == toks@[0]@);
        assert(views_of(toks@)[1] == toks@[1]@);
    }
    match decode_move(toks[0]) {
        Err(e) => Err(e),
        Ok(op) => match decode_win_state(toks[1]) {
            Err(e) => Err(e),
            Ok(w) => {
                let oponent_move_win_state = OponentChoiceWinState(op, w);
                Ok(oponent_move_win_state.to_choice())
            },
        },
    }
}

/// Parse every line of `s` in the given mode and decide its round.
fn parse_lines(s: &str, mode2: bool) -> (r: Result<Vec<Round>, ParseError>)
    ensures
        (match r {
            Ok(v) => rounds_from_lines(split_lines(s@), mode2) == Ok::<Seq<Round>, ParseError>(v@),
            Err(e) => rounds_from_lines(split_lines(s@), mode2) == Err::<Seq<Round>, ParseError>(
                e,
            ),
        }),
{
    let n = s.unicode_len();
    let mut rounds: Vec<Round> = Vec::new();
    let mut pos: usize = 0;
    proof {
        assert(s@.skip(0) =~= s@);
        if let Ok(rest) = rounds_from_lines(split_lines(s@), mode2) {
            assert(rounds@ + rest =~= rest);
        }
    }
    loop
        invariant
            0 <= pos <= n,
            n == s@.len(),
            (match rounds_from_lines(split_lines(s@.skip(pos as int)), mode2) {
                Ok(rest) => rounds_from_lines(split_lines(s@), mode2) == Ok::<
                    Seq<Round>,
                    ParseError,
                >(rounds@ + rest),
                Err(e) => rounds_from_lines(split_lines(s@), mode2) == Err::<
                    Seq<Round>,
                    ParseError,
                >(e),
            }),
        decreases n - pos,
    {
        let ghost u = s@.skip(pos as int);
        let mut j: usize = pos;
        while j < n && s.get_char(j) != '\n'
            invariant
                pos <= j <= n,
                n == s@.len(),
                forall|k: int| pos <= k < j ==> s@[k] != '\n',
            decreases n - j,
        {
            j = j + 1;
        }
        let line = s.substring_char(pos, j);
        proof {
            assert(forall|k: int| 0 <= k < u.len() ==> u[k] == s@[pos + k]);
            lemma_line_len_is(u, j - pos);
        }
        let parsed = if mode2 {
            parse_choice_part2(line)
        } else {
            parse_choice_part1(line)
        };
        if j == n {
            proof {
                assert(u =~= line@);
                assert(split_lines(u) == seq![line@]);
                assert(seq![line@][0] == line@);
                assert(seq![line@].drop_first() =~= Seq::<Seq<char>>::empty());
                assert(rounds_from_lines(Seq::<Seq<char>>::empty(), mode2) == Ok::<
                    Seq<Round>,
                    ParseError,
                >(Seq::empty()));
            }
            match parsed {
                Err(e) => {
                    return Err(e);
                },
                Ok(choice) => {
                    let round = decide_round_part1(choice);
                    let ghost old_rounds = rounds@;
                    rounds.push(round);
                    proof {
                        assert(rounds_from_lines(split_lines(u), mode2) == Ok::<
                            Seq<Round>,
                            ParseError,
                        >(seq![round_of(choice)] + Seq::empty()));
                        assert(old_rounds + (seq![round_of(choice)] + Seq::<Round>::empty())
                            =~= rounds@);
                    }
                    return Ok(rounds);
                },
            }
        } else {
            proof {
                assert(line_len(u) == j - pos < u.len());
                assert(u.take(j - pos) =~= line@);
                assert(u.skip(j - pos + 1) =~= s@.skip(j + 1));
                assert(split_lines(u) == seq![line@] + split_lines(s@.skip(j + 1)));
                assert((seq![line@] + split_lines(s@.skip(j + 1)))[0] == line@);
                assert((seq![line@] + split_lines(s@.skip(j + 1))).drop_first() =~= split_lines(
                    s@.skip(j + 1),
                ));
            }
            match parsed {
                Err(e) => {
                    return Err(e);
                },
                Ok(choice) => {
                    let round = decide_round_part1(choice);
                    let ghost old_rounds = rounds@;
                    rounds.push(round);
                    proof {
                        if let Ok(rest) = rounds_from_lines(split_lines(s@.skip(j + 1)), mode2) {
                            assert(rounds_from_lines(split_lines(u), mode2) == Ok::<
                                Seq<Round>,
                                ParseError,
                            >(seq![round_of(choice)] + rest));
                            assert(old_rounds + (seq![round_of(choice)] + rest) =~= rounds@
                                + rest);
                        }
                    }
                    pos = j + 1;
                },
            }
        }
    }
}

/// Parse the whole content in mode 1: trim it, split it on newline, and
/// decide one round per line, in line order.
pub fn parse_file_content_part1(content: &str) -> (r: Result<Vec<Round>, ParseError>)
    ensures
        (match r {
            Ok(v) => rounds_part1_spec(content@) == Ok::<Seq<Round>, ParseError>(v@),
            Err(e) => rounds_part1_spec(content@) == Err::<Seq<Round>, ParseError>(e),
        }),
{
    let trimmed = trim(content);
    parse_lines(trimmed, false)
}

/// Parse the whole content in mode 2: trim it, split it on newline, and
/// decide one round per line, in line order.
pub fn parse_file_content_part2(content: &str) -> (r: Result<Vec<Round>, ParseError>)
    ensures
        (match r {
            Ok(v) => rounds_part2_spec(content@) == Ok::<Seq<Round>, ParseError>(v@),
            Err(e) => rounds_part2_spec(content@) == Err::<Seq<Round>, ParseError>(e),
        }),
{
    let trimmed = trim(content);
    parse_lines(trimmed, true)
}

/// The sum of the scores of a sequence of rounds.
pub open spec fn total_of(rounds: Seq<Round>) -> int
    decreases rounds.len(),
{
    if rounds.len() == 0 {
        0
    } else {
        rounds[0].score + total_of(rounds.drop_first())
    }
}

/// A total of scores is never negative.
proof fn lemma_total_nonneg(rounds: Seq<Round>)
    ensures
        total_of(rounds) >= 0,
    decreases rounds.len(),
{
    if rounds.len() > 0 {
        lemma_total_nonneg(rounds.drop_first());
    }
}

/// Appending one round adds its score to the total.
proof fn lemma_total_push(rounds: Seq<Round>, r: Round)
    ensures
        total_of(rounds.push(r)) == total_of(rounds) + r.score,
    decreases rounds.len(),
{
    if rounds.len() == 0 {
        assert(rounds.push(r)[0] == r);
        assert(rounds.push(r).drop_first() =~= Seq::<Round>::empty());
        assert(total_of(Seq::<Round>::empty()) == 0);
    } else {
        lemma_total_push(rounds.drop_first(), r);
        assert(rounds.push(r)[0] == rounds[0]);
        assert(rounds.push(r).drop_first() =~= rounds.drop_first().push(r));
    }
}

/// A total splits at any index into the totals of the two parts.
proof fn lemma_total_split(rounds: Seq<Round>, i: int)
    requires
        0 <= i <= rounds.len(),
    ensures
        total_of(rounds) == total_of(rounds.take(i)) + total_of(rounds.skip(i)),
    decreases i,
{
    if i == 0 {
        assert(rounds.take(0) =~= Seq::<Round>::empty());
        assert(rounds.skip(0) =~= rounds);
    } else {
        lemma_total_split(rounds.drop_first(), i - 1);
        assert(rounds.take(i)[0] == rounds[0]);
        assert(rounds.take(i).drop_first() =~= rounds.drop_first().take(i - 1));
        assert(rounds.skip(i) =~= rounds.drop_first().skip(i - 1));
    }
}

/// Sum the scores of all rounds; `None` exactly where the total would
/// not fit in 32 bits.
pub fn total_score(rounds: &Vec<Round>) -> (t: Option<u32>)
    ensures
        (match t {
            Some(v) => v as int == total_of(rounds@),
            None => total_of(rounds@) > u32::MAX,
        }),
{
    let mut total: u32 = 0;
    let mut i: usize = 0;
    proof {
        assert(rounds@.take(0) =~= Seq::<Round>::empty());
    }
    while i < rounds.len()
        invariant
            0 <= i <= rounds@.len(),
            total as int == total_of(rounds@.take(i as int)),
        decreases rounds@.len() - i,
    {
        let score = rounds[i].score;
        proof {
            assert(rounds@.take(i as int + 1) =~= rounds@.take(i as int).push(rounds@[i as int]));
            lemma_total_push(rounds@.take(i as int), rounds@[i as int]);
        }
        if total > u32::MAX - score {
            proof {
                lemma_total_split(rounds@, i as int);
                assert(rounds@.skip(i as int)[0] == rounds@[i as int]);
                assert(rounds@.skip(i as int).drop_first() =~= rounds@.skip(i as int + 1));
                lemma_total_nonneg(rounds@.skip(i as int + 1));
            }
            return None;
        }
        total = total + score;
        i = i + 1;
    }
    proof {
        assert(rounds@.take(rounds@.len() as int) =~= rounds@);
    }
    Some(total)
}

/// Two passes of the pipeline over the same content give the same rounds
/// and hence the same total: the pipeline is a pure function of the text.
pub proof fn lemma_pipeline_idempotent(
    content: Seq<char>,
    mode2: bool,
    r1: Result<Seq<Round>, ParseError>,
    r2: Result<Seq<Round>, ParseError>,
)
    requires
        r1 == (if mode2 { rounds_part2_spec(content) } else { rounds_part1_spec(content) }),
        r2 == (if mode2 { rounds_part2_spec(content) } else { rounds_part1_spec(content) }),
    ensures
        r1 == r2,
        r1 is Ok ==> total_of(r1->Ok_0) == total_of(r2->Ok_0),
{
}

} // verus!

