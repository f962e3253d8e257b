//! Parser and serializer behaviour on concrete wire text.

use mallard_chess::msg::{Message, Mv, Promotion, Score};
use mallard_chess::parse::parse_line;
use mallard_chess::wire::{
    bestmove_bytes, go_nodes_bytes, id_author_bytes, id_name_bytes, position_fen_bytes,
    readyok_bytes, uciok_bytes,
};

fn mv(ff: u8, fr: u8, tf: u8, tr: u8, promo: Promotion) -> Mv {
    Mv { from_file: ff, from_rank: fr, to_file: tf, to_rank: tr, promo }
}

#[test]
fn parse_simple_words() {
    assert!(matches!(parse_line(b"uci"), Message::Uci));
    assert!(matches!(parse_line(b"quit"), Message::Quit));
    assert!(matches!(parse_line(b"readyok"), Message::ReadyOk));
    assert!(matches!(parse_line(b"isready"), Message::IsReady));
    assert!(matches!(parse_line(b"uciok"), Message::UciOk));
    assert!(matches!(parse_line(b"go depth 10 movetime 100"), Message::Go));
    assert!(matches!(parse_line(b"go"), Message::Go));
}

#[test]
fn parse_unknown_lines() {
    assert!(matches!(parse_line(b""), Message::Unknown));
    assert!(matches!(parse_line(b"   "), Message::Unknown));
    assert!(matches!(parse_line(b"setoption name Hash value 32"), Message::Unknown));
    assert!(matches!(parse_line(b"ucinewgame"), Message::Unknown));
    assert!(matches!(parse_line(b"position fen"), Message::Unknown));
    assert!(matches!(parse_line(b"position startpos moves zz9x"), Message::Unknown));
    assert!(matches!(parse_line(b"bestmove"), Message::Unknown));
    assert!(matches!(parse_line(b"bestmove x9"), Message::Unknown));
}

#[test]
fn parse_position_startpos() {
    match parse_line(b"position startpos") {
        Message::SetPosition { startpos, fen, moves } => {
            assert!(startpos);
            assert!(fen.is_none());
            assert!(moves.is_empty());
        },
        _ => panic!("expected a position message"),
    }
}

#[test]
fn parse_position_startpos_moves() {
    match parse_line(b"position startpos moves e2e4 e7e5") {
        Message::SetPosition { startpos, fen, moves } => {
            assert!(startpos);
            assert!(fen.is_none());
            assert_eq!(
                moves,
                vec![
                    mv(4, 1, 4, 3, Promotion::Nothing),
                    mv(4, 6, 4, 4, Promotion::Nothing),
                ]
            );
        },
        _ => panic!("expected a position message"),
    }
}

#[test]
fn parse_position_fen() {
    let line = b"position fen rnbqkbnr/pppppppp/8/8/8/8/PPPPPPPP/RNBQKBNR w KQkq - 0 1 moves a7a8q";
    match parse_line(line) {
        Message::SetPosition { startpos, fen, moves } => {
            assert!(!startpos);
            assert_eq!(
                fen.unwrap(),
                b"rnbqkbnr/pppppppp/8/8/8/8/PPPPPPPP/RNBQKBNR w KQkq - 0 1".to_vec()
            );
            assert_eq!(moves, vec![mv(0, 6, 0, 7, Promotion::Queen)]);
        },
        _ => panic!("expected a position message"),
    }
}

#[test]
fn parse_position_moves_without_base() {
    match parse_line(b"position moves e2e4") {
        Message::SetPosition { startpos, fen, moves } => {
            assert!(!startpos);
            assert!(fen.is_none());
            assert_eq!(moves.len(), 1);
        },
        _ => panic!("expected a position message"),
    }
}

#[test]
fn parse_info_scores() {
    match parse_line(b"info depth 3 seldepth 2 score cp -42 nodes 100") {
        Message::InfoScore { score } => assert_eq!(score, Score::Cp(-42)),
        _ => panic!("expected an info score"),
    }
    match parse_line(b"info score mate 3") {
        Message::InfoScore { score } => assert_eq!(score, Score::Mate(3)),
        _ => panic!("expected an info score"),
    }
    assert!(matches!(parse_line(b"info depth 5 nodes 100"), Message::Unknown));
    assert!(matches!(parse_line(b"info score cp"), Message::Unknown));
}

#[test]
fn parse_bestmove() {
    match parse_line(b"bestmove e2e4 ponder e7e5") {
        Message::BestMove { mv: m } => assert_eq!(m, mv(4, 1, 4, 3, Promotion::Nothing)),
        _ => panic!("expected a best-move message"),
    }
    match parse_line(b"bestmove e7e8q") {
        Message::BestMove { mv: m } => assert_eq!(m, mv(4, 6, 4, 7, Promotion::Queen)),
        _ => panic!("expected a best-move message"),
    }
}

#[test]
fn render_replies() {
    assert_eq!(uciok_bytes(), b"uciok".to_vec());
    assert_eq!(readyok_bytes(), b"readyok".to_vec());
    assert_eq!(id_name_bytes(b"relay"), b"id name relay".to_vec());
    assert_eq!(id_author_bytes(b"someone"), b"id author someone".to_vec());
    assert_eq!(position_fen_bytes(b"8/8/8/8/8/8/8/8 w - - 0 1"),
        b"position fen 8/8/8/8/8/8/8/8 w - - 0 1".to_vec());
    assert_eq!(go_nodes_bytes(0), b"go nodes 0".to_vec());
    assert_eq!(go_nodes_bytes(1500), b"go nodes 1500".to_vec());
    let m = mv(4, 1, 4, 3, Promotion::Nothing);
    assert_eq!(bestmove_bytes(&m), b"bestmove e2e4".to_vec());
    let p = mv(0, 6, 0, 7, Promotion::Knight);
    assert_eq!(bestmove_bytes(&p), b"bestmove a7a8n".to_vec());
}

#[test]
fn bestmove_round_trip() {
    let cases = vec![
        mv(4, 1, 4, 3, Promotion::Nothing),
        mv(0, 0, 7, 7, Promotion::Nothing),
        mv(4, 6, 4, 7, Promotion::Queen),
        mv(1, 6, 0, 7, Promotion::Knight),
        mv(2, 1, 2, 0, Promotion::Rook),
        mv(7, 6, 7, 7, Promotion::Bishop),
    ];
    for m in cases {
        let line = bestmove_bytes(&m);
        match parse_line(&line) {
            Message::BestMove { mv: back } => assert_eq!(back, m),
            _ => panic!("round trip lost the message"),
        }
    }
}

#[test]
fn bestmove_text_agrees_with_reference_parser() {
    let m = mv(4, 1, 4, 3, Promotion::Nothing);
    let mut text = String::from_utf8(bestmove_bytes(&m)).unwrap();
    text.push('\n');
    match vampirc_uci::parse_one(&text) {
        vampirc_uci::UciMessage::BestMove { best_move, ponder } => {
            assert!(ponder.is_none());
            assert_eq!(best_move.from.file, 'e');
            assert_eq!(best_move.from.rank, 2);
            assert_eq!(best_move.to.file, 'e');
            assert_eq!(best_move.to.rank, 4);
            assert!(best_move.promotion.is_none());
        },
        other => panic!("reference parser read {:?}", other),
    }
}
