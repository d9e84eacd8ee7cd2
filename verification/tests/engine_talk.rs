use chess_rules::piece::Promotion;
use chess_rules::uci::{best_move_notation, decode_move, promotion_of_letter, Limits};

#[test]
fn no_limit_means_depth_twenty() {
    assert_eq!(Limits::default().into_limit_string(), "depth 20");
    assert_eq!(Limits::default().time(0).depth(0).into_limit_string(), "depth 20");
}

#[test]
fn limits_are_written_in_order() {
    assert_eq!(Limits::default().time(1500).into_limit_string(), " movetime 1500");
    assert_eq!(Limits::default().depth(7).into_limit_string(), " depth 7");
    let all = Limits::default().b_inc(6).w_inc(5).b_time(4).w_time(30).depth(255).time(u64::MAX);
    assert_eq!(
        all.into_limit_string(),
        " movetime 18446744073709551615 depth 255 wtime 30 btime 4 winc 5 binc 6"
    );
}

#[test]
fn zero_takes_a_limit_away() {
    let limits = Limits::default().time(10).w_time(20).b_time(30);
    assert_eq!(limits.time(0).into_limit_string(), " wtime 20 btime 30");
    let mut limits = limits;
    limits.set_time(0, 99);
    assert_eq!(limits.into_limit_string(), " movetime 10 btime 99");
    limits.set_time(1000, 0);
    assert_eq!(limits.into_limit_string(), " movetime 10 wtime 1000");
    assert_eq!(limits.w_time, Some(1000));
    assert_eq!(limits.b_time, None);
}

#[test]
fn moves_are_decoded() {
    assert_eq!(decode_move("e2e4"), Some((12, 28, None)));
    assert_eq!(decode_move("a1h8"), Some((0, 63, None)));
    assert_eq!(decode_move("e7e8q"), Some((52, 60, Some(Promotion::Queen))));
    assert_eq!(decode_move("e7e8n"), Some((52, 60, Some(Promotion::Knight))));
    assert_eq!(decode_move("a2a1r"), Some((8, 0, Some(Promotion::Rook))));
    assert_eq!(decode_move("a2a1b"), Some((8, 0, Some(Promotion::Bishop))));
}

#[test]
fn unknown_promotion_letter_is_no_promotion() {
    assert_eq!(decode_move("e7e8x"), Some((52, 60, None)));
    assert_eq!(decode_move("e2e4\n"), Some((12, 28, None)));
    assert_eq!(decode_move("e7e8Q"), Some((52, 60, None)));
    assert_eq!(promotion_of_letter('k'), None);
    assert_eq!(promotion_of_letter('q'), Some(Promotion::Queen));
}

#[test]
fn malformed_moves_give_nothing() {
    assert_eq!(decode_move(""), None);
    assert_eq!(decode_move("e2e"), None);
    assert_eq!(decode_move("i2e4"), None);
    assert_eq!(decode_move("e9e4"), None);
    assert_eq!(decode_move("e2E4"), None);
    assert_eq!(decode_move("e2e0"), None);
    assert_eq!(decode_move("(none)"), None);
}

#[test]
fn best_move_lines() {
    assert_eq!(best_move_notation("bestmove e2e4 ponder e7e5"), Some("e2e4".to_string()));
    assert_eq!(best_move_notation("bestmove e2e4\n"), Some("e2e4\n".to_string()));
    assert_eq!(best_move_notation("bestmove  e2e4"), Some("".to_string()));
    assert_eq!(best_move_notation("bestmovee2e4 x"), Some("x".to_string()));
    assert_eq!(best_move_notation("bestmove"), None);
    assert_eq!(best_move_notation("info depth 12 score cp 30"), None);
    assert_eq!(best_move_notation("best move e2e4"), None);
    assert_eq!(best_move_notation(""), None);
}

#[test]
fn a_limit_of_zero_is_not_written() {
    let limits = Limits { time: Some(0), depth: Some(0), ..Limits::default() };
    assert_eq!(limits.into_limit_string(), "depth 20");
    let limits = Limits { time: Some(0), w_inc: Some(3), ..Limits::default() };
    assert_eq!(limits.into_limit_string(), " winc 3");
}
