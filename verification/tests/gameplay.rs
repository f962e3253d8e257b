//! The state machine and the strategies on concrete positions.

use mallard_chess::engine::{choose_random, score_value, worst_pick, EngineChoice};
use mallard_chess::game::{eval_of_lines, Game, ProtoError, Reaction};
use mallard_chess::msg::{Message, Mv, Promotion, Score};
use mallard_chess::parse::parse_line;
use std::str::FromStr;

const START_FEN: &str = "rnbqkbnr/pppppppp/8/8/8/8/PPPPPPPP/RNBQKBNR w KQkq - 0 1";

fn mv(ff: u8, fr: u8, tf: u8, tr: u8) -> Mv {
    Mv { from_file: ff, from_rank: fr, to_file: tf, to_rank: tr, promo: Promotion::Nothing }
}

fn e2e4() -> Mv {
    mv(4, 1, 4, 3)
}

#[test]
fn new_game_is_start_position() {
    let g = Game::new();
    assert_eq!(g.board, START_FEN.as_bytes().to_vec());
}

#[test]
fn start_position_has_twenty_moves() {
    let g = Game::new();
    assert_eq!(g.moves().len(), 20);
}

#[test]
fn uci_request_gets_three_replies_in_order() {
    let mut g = Game::new();
    match g.handle(Message::Uci, EngineChoice::Random) {
        Reaction::Replies(lines) => {
            assert_eq!(lines.len(), 3);
            assert_eq!(lines[0], b"uciok".to_vec());
            assert_eq!(lines[1], b"id name mallard_chess (Random)".to_vec());
            assert_eq!(lines[2], b"id author the mallard_chess authors".to_vec());
        },
        _ => panic!("expected replies"),
    }
    match g.handle(Message::Uci, EngineChoice::Worstfish) {
        Reaction::Replies(lines) => {
            assert_eq!(lines[1], b"id name mallard_chess (Worstfish)".to_vec());
        },
        _ => panic!("expected replies"),
    }
}

#[test]
fn ready_probe_gets_ack() {
    let mut g = Game::new();
    match g.handle(Message::IsReady, EngineChoice::Random) {
        Reaction::Replies(lines) => assert_eq!(lines, vec![b"readyok".to_vec()]),
        _ => panic!("expected replies"),
    }
    match g.handle(parse_line(b"isready"), EngineChoice::Random) {
        Reaction::Replies(lines) => assert_eq!(lines, vec![b"readyok".to_vec()]),
        _ => panic!("expected replies"),
    }
    assert!(matches!(g.handle(Message::ReadyOk, EngineChoice::Random), Reaction::Silent));
    assert_eq!(g.board, START_FEN.as_bytes().to_vec());
}

#[test]
fn quit_stops_at_any_state() {
    let mut g = Game::new();
    assert!(matches!(g.handle(Message::Quit, EngineChoice::Random), Reaction::Stop));
    let msg = parse_line(b"position startpos moves e2e4");
    g.handle(msg, EngineChoice::Random);
    assert!(matches!(g.handle(Message::Quit, EngineChoice::Random), Reaction::Stop));
}

#[test]
fn go_asks_for_a_decision_and_unknown_is_ignored() {
    let mut g = Game::new();
    assert!(matches!(g.handle(Message::Go, EngineChoice::Random), Reaction::Decide));
    assert!(matches!(g.handle(Message::Unknown, EngineChoice::Random), Reaction::Silent));
    assert_eq!(g.board, START_FEN.as_bytes().to_vec());
}

#[test]
fn startpos_with_moves_reaches_the_expected_position() {
    let mut g = Game::new();
    let msg = parse_line(b"position startpos moves e2e4 e7e5");
    assert!(matches!(g.handle(msg, EngineChoice::Random), Reaction::Silent));

    let mut b = chess::Board::from_str(START_FEN).unwrap();
    b = b.make_move_new(chess::ChessMove::from_str("e2e4").unwrap());
    b = b.make_move_new(chess::ChessMove::from_str("e7e5").unwrap());
    assert_eq!(g.board, b.to_string().into_bytes());
}

#[test]
fn explicit_fen_is_adopted() {
    let fen = "rnbqkbnr/pppp1ppp/8/4p3/4P3/8/PPPP1PPP/RNBQKBNR w KQkq e6 0 2";
    let mut line = b"position fen ".to_vec();
    line.extend_from_slice(fen.as_bytes());
    let mut g = Game::new();
    assert!(matches!(g.handle(parse_line(&line), EngineChoice::Random), Reaction::Silent));
    assert_eq!(g.board, fen.as_bytes().to_vec());
}

#[test]
fn inconsistent_position_is_fatal() {
    let mut g = Game::new();
    let both = Message::SetPosition {
        startpos: true,
        fen: Some(START_FEN.as_bytes().to_vec()),
        moves: Vec::new(),
    };
    assert!(matches!(
        g.handle(both, EngineChoice::Random),
        Reaction::Fatal(ProtoError::InconsistentPosition)
    ));
    let neither = Message::SetPosition { startpos: false, fen: None, moves: Vec::new() };
    assert!(matches!(
        g.handle(neither, EngineChoice::Random),
        Reaction::Fatal(ProtoError::InconsistentPosition)
    ));
}

#[test]
fn bad_fen_is_fatal() {
    let mut g = Game::new();
    let msg = Message::SetPosition {
        startpos: false,
        fen: Some(b"not a position at all".to_vec()),
        moves: Vec::new(),
    };
    assert!(matches!(
        g.handle(msg, EngineChoice::Random),
        Reaction::Fatal(ProtoError::InvalidFen)
    ));
    assert_eq!(g.board, START_FEN.as_bytes().to_vec());
}

#[test]
fn illegal_move_in_list_is_fatal() {
    let mut g = Game::new();
    let msg = Message::SetPosition {
        startpos: true,
        fen: None,
        moves: vec![mv(4, 1, 4, 5)],
    };
    assert!(matches!(
        g.handle(msg, EngineChoice::Random),
        Reaction::Fatal(ProtoError::IllegalMove)
    ));
    assert_eq!(g.board, START_FEN.as_bytes().to_vec());
}

#[test]
fn random_choice_is_a_legal_opening_move() {
    for _ in 0..32 {
        let mut g = Game::new();
        let legal = g.moves();
        assert_eq!(legal.len(), 20);
        let line = g.decide_move_random().unwrap();
        match parse_line(&line) {
            Message::BestMove { mv: m } => assert!(legal.contains(&m)),
            _ => panic!("reply is not a best-move line"),
        }
    }
}

#[test]
fn random_choice_covers_all_moves_roughly_evenly() {
    let g = Game::new();
    let legal = g.moves();
    let mut counts = vec![0usize; legal.len()];
    let trials = 2000;
    for _ in 0..trials {
        let m = choose_random(&legal).unwrap();
        let i = legal.iter().position(|x| *x == m).unwrap();
        counts[i] += 1;
    }
    for c in counts {
        assert!(c > 0, "some legal move was never chosen");
        assert!(c < trials / 4, "one move was chosen far too often");
    }
}

#[test]
fn random_choice_fails_without_legal_moves() {
    let mate = "rnb1kbnr/pppp1ppp/8/4p3/6Pq/5P2/PPPPP2P/RNBQKBNR w KQkq - 1 3";
    let mut line = b"position fen ".to_vec();
    line.extend_from_slice(mate.as_bytes());
    let mut g = Game::new();
    assert!(matches!(g.handle(parse_line(&line), EngineChoice::Random), Reaction::Silent));
    assert!(g.moves().is_empty());
    assert_eq!(g.decide_move_random().unwrap_err(), ProtoError::NoLegalMoves);
}

#[test]
fn commit_move_applies_only_legal_moves() {
    let mut g = Game::new();
    let line = g.commit_move(&e2e4()).unwrap();
    assert_eq!(line, b"bestmove e2e4".to_vec());
    assert_eq!(g.commit_move(&e2e4()).unwrap_err(), ProtoError::IllegalMove);
}

#[test]
fn candidate_positions_pair_each_move_with_its_result() {
    let g = Game::new();
    let legal = g.moves();
    let cands = g.candidate_positions();
    assert_eq!(cands.len(), legal.len());
    let b = chess::Board::from_str(START_FEN).unwrap();
    for (m, after) in &cands {
        assert!(legal.contains(m));
        let cm = chess::ChessMove::from_str(
            std::str::from_utf8(&mallard_chess::notation::mv_token_bytes(m)).unwrap(),
        )
        .unwrap();
        assert_eq!(*after, b.make_move_new(cm).to_string().into_bytes());
    }
}

#[test]
fn worst_pick_avoids_the_highly_rated_move() {
    let g = Game::new();
    let legal = g.moves();
    assert_eq!(legal.len(), 20);
    let scores: Vec<Score> = legal
        .iter()
        .map(|m| if *m == e2e4() { Score::Cp(500) } else { Score::Cp(0) })
        .collect();
    let i = worst_pick(&scores).unwrap();
    assert_ne!(legal[i], e2e4());
    assert_eq!(scores[i], Score::Cp(0));
}

#[test]
fn worst_pick_takes_the_first_minimum() {
    let scores = vec![Score::Cp(7), Score::Cp(3), Score::Cp(3), Score::Cp(9)];
    assert_eq!(worst_pick(&scores).unwrap(), 1);
    assert!(worst_pick(&Vec::<Score>::new()).is_none());
}

#[test]
fn worst_pick_is_deterministic() {
    let scores = vec![Score::Cp(5), Score::Mate(3), Score::Cp(-20), Score::Mate(-1)];
    let first = worst_pick(&scores).unwrap();
    for _ in 0..8 {
        assert_eq!(worst_pick(&scores).unwrap(), first);
    }
    assert_eq!(first, 1);
}

#[test]
fn mate_scores_rank_extreme() {
    assert_eq!(score_value(&Score::Cp(42)), 42);
    assert_eq!(score_value(&Score::Cp(-3)), -3);
    assert_eq!(score_value(&Score::Cp(2_000_000)), 1_000_000);
    assert_eq!(score_value(&Score::Cp(-2_000_000)), -1_000_000);
    assert_eq!(score_value(&Score::Mate(3)), -2_000_000);
    assert_eq!(score_value(&Score::Mate(-2)), 2_000_000);
    assert_eq!(score_value(&Score::Mate(0)), 2_000_000);
}

#[test]
fn eval_of_lines_takes_the_last_score() {
    let lines = vec![
        b"info depth 1 score cp 10 nodes 20".to_vec(),
        b"info depth 2 score cp 25 nodes 200".to_vec(),
        b"bestmove e2e4".to_vec(),
    ];
    assert_eq!(eval_of_lines(&lines), Some(Score::Cp(25)));
    let none = vec![b"info depth 1 nodes 20".to_vec(), b"bestmove e2e4".to_vec()];
    assert_eq!(eval_of_lines(&none), None);
    let mate = vec![
        b"info score cp 3".to_vec(),
        b"info score mate -2".to_vec(),
    ];
    assert_eq!(eval_of_lines(&mate), Some(Score::Mate(-2)));
}

#[test]
fn strategy_names_resolve_case_insensitively() {
    assert_eq!(EngineChoice::try_from("rand"), Ok(EngineChoice::Random));
    assert_eq!(EngineChoice::try_from("RANDOM"), Ok(EngineChoice::Random));
    assert_eq!(EngineChoice::try_from("Boring"), Ok(EngineChoice::Stockfish));
    assert_eq!(EngineChoice::try_from("dummy"), Ok(EngineChoice::Stockfish));
    assert_eq!(EngineChoice::try_from("PassThrough"), Ok(EngineChoice::Stockfish));
    assert_eq!(EngineChoice::try_from("stockfish"), Ok(EngineChoice::Stockfish));
    assert_eq!(EngineChoice::try_from("WorstFish"), Ok(EngineChoice::Worstfish));
    assert_eq!(EngineChoice::try_from("best"), Err("best"));
}

#[test]
fn built_strategies_carry_their_names() {
    assert_eq!(EngineChoice::Random.build().name(), "Random");
    assert_eq!(EngineChoice::Stockfish.build().name(), "Stockfish");
    assert_eq!(EngineChoice::Worstfish.build().name(), "Worstfish");
    assert!(!EngineChoice::Worstfish.build().description().is_empty());
}
