use rock_paper_scissors_tournament::game::{
    decide_round_part1, win_state, Choices, Move, OponentChoiceWinState, Round, WinState,
};
use rock_paper_scissors_tournament::pipeline::{
    decode_move, decode_win_state, parse_choice_part1, parse_choice_part2,
    parse_file_content_part1, parse_file_content_part2, total_score, ParseError,
};

fn all_moves() -> [Move; 3] {
    [Move::Rock, Move::Paper, Move::Scissors]
}

fn all_states() -> [WinState; 3] {
    [WinState::Won, WinState::Lost, WinState::Drew]
}

#[test]
fn able_to_parse_choice() {
    assert_eq!(parse_choice_part1("A Y"), Ok(Choices(Move::Rock, Move::Paper)));
}

#[test]
fn resolver_table_all_nine() {
    let expected = [
        (Move::Rock, Move::Rock, WinState::Drew, 4),
        (Move::Rock, Move::Paper, WinState::Won, 8),
        (Move::Rock, Move::Scissors, WinState::Lost, 3),
        (Move::Paper, Move::Rock, WinState::Lost, 1),
        (Move::Paper, Move::Paper, WinState::Drew, 5),
        (Move::Paper, Move::Scissors, WinState::Won, 9),
        (Move::Scissors, Move::Rock, WinState::Won, 7),
        (Move::Scissors, Move::Paper, WinState::Lost, 2),
        (Move::Scissors, Move::Scissors, WinState::Drew, 6),
    ];
    for (oponent, player, outcome, score) in expected {
        assert_eq!(win_state(&Choices(oponent, player)), outcome);
        let round = decide_round_part1(Choices(oponent, player));
        assert_eq!(round.choice, Choices(oponent, player));
        assert_eq!(round.win_state, outcome);
        assert_eq!(round.score, score);
    }
}

#[test]
fn derive_round_trip_all_nine() {
    for oponent in all_moves() {
        for desired in all_states() {
            let choice = OponentChoiceWinState(oponent, desired).to_choice();
            assert_eq!(*choice.get_oponent_move(), oponent);
            assert_eq!(win_state(&choice), desired);
        }
    }
}

#[test]
fn score_bounds_all_nine() {
    for oponent in all_moves() {
        for player in all_moves() {
            let round = decide_round_part1(Choices(oponent, player));
            assert!(1 <= round.score && round.score <= 9);
        }
    }
}

#[test]
fn pipeline_twice_same_totals() {
    let content = "A Y\nB X\nC Z";
    let first = total_score(&parse_file_content_part1(content).unwrap());
    let second = total_score(&parse_file_content_part1(content).unwrap());
    assert_eq!(first, second);
    let first = total_score(&parse_file_content_part2(content).unwrap());
    let second = total_score(&parse_file_content_part2(content).unwrap());
    assert_eq!(first, second);
}

#[test]
fn scenario_part1() {
    let rounds = parse_file_content_part1("A Y\nB X\nC Z").unwrap();
    assert_eq!(rounds.len(), 3);
    assert_eq!(rounds[0].win_state, WinState::Won);
    assert_eq!(rounds[0].score, 8);
    assert_eq!(rounds[1].win_state, WinState::Lost);
    assert_eq!(rounds[1].score, 1);
    assert_eq!(rounds[2].win_state, WinState::Drew);
    assert_eq!(rounds[2].score, 6);
    assert_eq!(total_score(&rounds), Some(15));
}

#[test]
fn scenario_part2() {
    let rounds = parse_file_content_part2("A Y\nB X\nC Z").unwrap();
    assert_eq!(rounds.len(), 3);
    assert_eq!(rounds[0].choice, Choices(Move::Rock, Move::Rock));
    assert_eq!(rounds[0].score, 4);
    assert_eq!(rounds[1].choice, Choices(Move::Paper, Move::Rock));
    assert_eq!(rounds[1].score, 1);
    assert_eq!(rounds[2].choice, Choices(Move::Scissors, Move::Rock));
    assert_eq!(rounds[2].score, 7);
    assert_eq!(total_score(&rounds), Some(12));
}

#[test]
fn bad_move_token_is_an_error() {
    assert_eq!(parse_file_content_part1("D Y\nB X"), Err(ParseError::InvalidMoveToken));
    assert_eq!(parse_file_content_part1("A Y\nB D"), Err(ParseError::InvalidMoveToken));
    assert_eq!(parse_file_content_part2("D Y"), Err(ParseError::InvalidMoveToken));
}

#[test]
fn bad_outcome_token_is_an_error() {
    assert_eq!(parse_file_content_part2("A D"), Err(ParseError::InvalidOutcomeToken));
    assert_eq!(parse_file_content_part2("A Y\nB W"), Err(ParseError::InvalidOutcomeToken));
}

#[test]
fn malformed_lines_are_errors() {
    assert_eq!(parse_file_content_part1(""), Err(ParseError::MalformedLine));
    assert_eq!(parse_file_content_part1("A"), Err(ParseError::MalformedLine));
    assert_eq!(parse_file_content_part1("A Y\n\nB X"), Err(ParseError::MalformedLine));
    assert_eq!(parse_file_content_part1("A X B"), Err(ParseError::MalformedLine));
    assert_eq!(parse_choice_part2("Z"), Err(ParseError::MalformedLine));
}

#[test]
fn decode_move_accepts_exactly_the_six_tokens() {
    assert_eq!(decode_move("A"), Ok(Move::Rock));
    assert_eq!(decode_move("X"), Ok(Move::Rock));
    assert_eq!(decode_move("B"), Ok(Move::Paper));
    assert_eq!(decode_move("Y"), Ok(Move::Paper));
    assert_eq!(decode_move("C"), Ok(Move::Scissors));
    assert_eq!(decode_move("Z"), Ok(Move::Scissors));
    assert_eq!(decode_move("D"), Err(ParseError::InvalidMoveToken));
    assert_eq!(decode_move("AB"), Err(ParseError::InvalidMoveToken));
    assert_eq!(decode_move(""), Err(ParseError::InvalidMoveToken));
}

#[test]
fn decode_win_state_accepts_exactly_the_three_tokens() {
    assert_eq!(decode_win_state("X"), Ok(WinState::Lost));
    assert_eq!(decode_win_state("Y"), Ok(WinState::Drew));
    assert_eq!(decode_win_state("Z"), Ok(WinState::Won));
    assert_eq!(decode_win_state("A"), Err(ParseError::InvalidOutcomeToken));
    assert_eq!(decode_win_state("XY"), Err(ParseError::InvalidOutcomeToken));
}

#[test]
fn surrounding_whitespace_is_trimmed() {
    let rounds = parse_file_content_part1("  \nA Y\nB X\nC Z \n\n").unwrap();
    assert_eq!(total_score(&rounds), Some(15));
    let rounds = parse_file_content_part1("A Y\r\nB X\r\nC Z\r\n").unwrap();
    assert_eq!(total_score(&rounds), Some(15));
    assert_eq!(parse_choice_part1("  A \t Y  "), Ok(Choices(Move::Rock, Move::Paper)));
}

#[test]
fn totals_overflow_is_reported() {
    assert_eq!(total_score(&Vec::new()), Some(0));
    let big = Round {
        choice: Choices(Move::Rock, Move::Paper),
        win_state: WinState::Won,
        score: u32::MAX,
    };
    let one = Round {
        choice: Choices(Move::Paper, Move::Rock),
        win_state: WinState::Lost,
        score: 1,
    };
    let rounds = vec![big, one];
    assert_eq!(total_score(&rounds), None);
    let alone = Round {
        choice: Choices(Move::Rock, Move::Paper),
        win_state: WinState::Won,
        score: u32::MAX,
    };
    let rounds = vec![alone];
    assert_eq!(total_score(&rounds), Some(u32::MAX));
}

#[test]
fn move_helpers_follow_the_rotation() {
    assert_eq!(Move::Rock.move_to_win(), Move::Paper);
    assert_eq!(Move::Paper.move_to_win(), Move::Scissors);
    assert_eq!(Move::Scissors.move_to_win(), Move::Rock);
    assert_eq!(Move::Rock.move_to_loose(), Move::Scissors);
    assert_eq!(Move::Paper.move_to_loose(), Move::Rock);
    assert_eq!(Move::Scissors.move_to_loose(), Move::Paper);
    for m in all_moves() {
        assert_eq!(m.move_to_draw_round(), m);
        assert_eq!(m.clone(), m);
    }
}

#[test]
fn points_tables() {
    assert_eq!(WinState::Won.points_from_state(), 6);
    assert_eq!(WinState::Drew.points_from_state(), 3);
    assert_eq!(WinState::Lost.points_from_state(), 0);
    assert_eq!(Choices(Move::Paper, Move::Rock).get_score_from_move(), 1);
    assert_eq!(Choices(Move::Rock, Move::Paper).get_score_from_move(), 2);
    assert_eq!(Choices(Move::Rock, Move::Scissors).get_score_from_move(), 3);
}

#[test]
fn accessors_and_copies() {
    let choice = Choices(Move::Rock, Move::Scissors);
    assert_eq!(*choice.get_oponent_move(), Move::Rock);
    assert_eq!(*choice.get_player_move(), Move::Scissors);
    assert_eq!(choice.clone(), choice);
    let pair = OponentChoiceWinState(Move::Paper, WinState::Won);
    assert_eq!(pair.get_oponent_move(), Move::Paper);
    assert_eq!(pair.get_win_state(), WinState::Won);
    assert_eq!(pair.clone(), pair);
    for w in all_states() {
        assert_eq!(w.clone(), w);
    }
}
