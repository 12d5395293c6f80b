use cozy_chess::Board;
use trinket::chess::{ChessMove, Piece};
use trinket::search::searcher::get_pv;
use trinket::search::tt::{
    add_mate_score, pack_entry, pack_move, remove_mate_score, unpack_entry, unpack_move,
    EncodedEntry, NodeKind, TTEntry, TT,
};
use trinket::uci::castle_parse::{_960_to_regular_, _regular_to_960_};
use trinket::uci::command::{parse_command, parse_go, parse_i32, parse_i64, split, GoParams, UciCommand};

fn mv(from: u8, to: u8) -> ChessMove {
    ChessMove { from, to, promotion: None }
}

fn strings(v: &[&str]) -> Vec<String> {
    v.iter().map(|s| s.to_string()).collect()
}

#[test]
fn mate_scores_are_stored_relative_to_the_node() {
    assert_eq!(remove_mate_score(29990, 5), 29995);
    assert_eq!(add_mate_score(29995, 5), 29990);
    assert_eq!(remove_mate_score(-29990, 5), -29995);
    assert_eq!(add_mate_score(-29995, 5), -29990);
    assert_eq!(remove_mate_score(120, 5), 120);
    assert_eq!(add_mate_score(29500, 5), 29500);
}

#[test]
fn moves_pack_into_sixteen_bits() {
    let m = mv(12, 28);
    assert_eq!(pack_move(m), (12 << 10) | (28 << 4) | 0b1111);
    assert_eq!(unpack_move(pack_move(m)), m);
    let p = ChessMove { from: 52, to: 60, promotion: Some(Piece::Knight) };
    assert_eq!(pack_move(p), (52 << 10) | (60 << 4) | 1);
    assert_eq!(unpack_move(pack_move(p)), p);
}

#[test]
fn entries_pack_into_sixty_four_bits() {
    let e = EncodedEntry { eval: -1234, mv_byte: 0xabcd, depth: 7, node_kind: 2 };
    let x = pack_entry(e);
    assert_eq!(x & 0xffff_ffff, (-1234i32) as u32 as u64);
    assert_eq!((x >> 32) & 0xffff, 0xabcd);
    assert_eq!(unpack_entry(x), e);
}

#[test]
fn table_gives_back_what_was_stored() {
    let mut tt = TT::new();
    let b = Board::default();
    assert_eq!(tt.find(&b, 0), None);
    tt.insert(Some(mv(12, 28)), 50, b.hash(), 0, 3, NodeKind::Exact);
    assert_eq!(
        tt.find(&b, 0),
        Some(TTEntry { best_move: Some(mv(12, 28)), eval: 50, depth: 3, node_kind: NodeKind::Exact })
    );
}

#[test]
fn table_readjusts_mate_scores_by_ply() {
    let mut tt = TT::new();
    let b = Board::default();
    tt.insert(Some(mv(6, 21)), 29990, b.hash(), 5, 9, NodeKind::LowerBound);
    let e = tt.find(&b, 5).unwrap();
    assert_eq!(e.eval, 29990);
    assert_eq!(e.node_kind, NodeKind::LowerBound);
    let e = tt.find(&b, 2).unwrap();
    assert_eq!(e.eval, 29993);
}

#[test]
fn later_store_replaces_the_slot() {
    let mut tt = TT::new();
    let b = Board::default();
    tt.insert(Some(mv(12, 28)), 50, b.hash(), 0, 3, NodeKind::Exact);
    tt.insert(Some(mv(11, 27)), -20, b.hash(), 0, 4, NodeKind::UpperBound);
    let e = tt.find(&b, 0).unwrap();
    assert_eq!(e.best_move, Some(mv(11, 27)));
    assert_eq!(e.eval, -20);
    assert_eq!(e.depth, 4);
}

#[test]
fn principal_variation_follows_the_table() {
    let mut tt = TT::new();
    let mut b = Board::default();
    tt.insert(Some(mv(12, 28)), 30, b.hash(), 0, 2, NodeKind::Exact);
    let mut after = b.clone();
    after.play_unchecked("e2e4".parse().unwrap());
    tt.insert(Some(mv(52, 36)), -30, after.hash(), 1, 1, NodeKind::Exact);
    let pv = get_pv(&mut b, &tt, 5, 0);
    assert_eq!(pv, vec![mv(12, 28), mv(52, 36)]);
    let mut c = Board::default();
    assert_eq!(get_pv(&mut c, &tt, 1, 0), vec![mv(12, 28)]);
    let mut d = Board::default();
    assert_eq!(get_pv(&mut d, &tt, 0, 0), vec![]);
}

#[test]
fn principal_variation_stops_at_an_illegal_move() {
    let mut tt = TT::new();
    let mut b = Board::default();
    tt.insert(Some(mv(12, 36)), 30, b.hash(), 0, 2, NodeKind::Exact);
    assert_eq!(get_pv(&mut b, &tt, 5, 0), vec![]);
}

#[test]
fn castling_notation() {
    let b = Board::from_fen("r3k2r/8/8/8/8/8/8/R3K2R w KQkq - 0 1", false).unwrap();
    assert_eq!(_regular_to_960_("e1g1".to_string(), &b), "e1h1");
    assert_eq!(_regular_to_960_("e1c1".to_string(), &b), "e1a1");
    assert_eq!(_regular_to_960_("e8g8".to_string(), &b), "e8h8");
    assert_eq!(_regular_to_960_("e8c8".to_string(), &b), "e8a8");
    assert_eq!(_regular_to_960_("a1a2".to_string(), &b), "a1a2");
    assert_eq!(_960_to_regular_(Some(mv(4, 7)), &b), "e1g1");
    assert_eq!(_960_to_regular_(Some(mv(4, 0)), &b), "e1c1");
    assert_eq!(_960_to_regular_(Some(mv(60, 63)), &b), "e8g8");
    assert_eq!(_960_to_regular_(Some(mv(60, 56)), &b), "e8c8");
    assert_eq!(_960_to_regular_(Some(mv(0, 8)), &b), "a1a2");
}

#[test]
fn castling_notation_needs_the_king() {
    let b = Board::from_fen("8/8/3k4/8/8/8/8/R3QK1R w - - 0 1", false).unwrap();
    assert_eq!(_regular_to_960_("e1g1".to_string(), &b), "e1g1");
    assert_eq!(_960_to_regular_(Some(mv(4, 7)), &b), "e1h1");
}

#[test]
fn promotion_letter_is_written() {
    let b = Board::from_fen("4k3/P7/8/8/8/8/8/4K3 w - - 0 1", false).unwrap();
    let p = ChessMove { from: 48, to: 56, promotion: Some(Piece::Queen) };
    assert_eq!(_960_to_regular_(Some(p), &b), "a7a8q");
    let n = ChessMove { from: 48, to: 56, promotion: Some(Piece::Knight) };
    assert_eq!(_960_to_regular_(Some(n), &b), "a7a8n");
}

#[test]
fn castling_notation_round_trip() {
    let b = Board::from_fen("r3k2r/8/8/8/8/8/8/R3K2R w KQkq - 0 1", false).unwrap();
    for m in [mv(4, 7), mv(4, 0), mv(60, 63), mv(60, 56), mv(0, 8), mv(7, 15)] {
        let out = _960_to_regular_(Some(m), &b);
        let back = _regular_to_960_(out, &b);
        let expected = square_name(m.from) + &square_name(m.to);
        assert_eq!(back, expected);
    }
}

fn square_name(s: u8) -> String {
    format!("{}{}", (b'a' + s % 8) as char, (b'1' + s / 8) as char)
}

#[test]
fn split_keeps_empty_pieces() {
    assert_eq!(split("go  depth 5"), strings(&["go", "", "depth", "5"]));
    assert_eq!(split(""), strings(&[""]));
    assert_eq!(split("uci"), strings(&["uci"]));
}

#[test]
fn integers_parse_like_str_parse() {
    assert_eq!(parse_i64("-42"), Some(-42));
    assert_eq!(parse_i64("+7"), Some(7));
    assert_eq!(parse_i64("0"), Some(0));
    assert_eq!(parse_i64("9223372036854775807"), Some(i64::MAX));
    assert_eq!(parse_i64("-9223372036854775808"), Some(i64::MIN));
    assert_eq!(parse_i64("9223372036854775808"), None);
    assert_eq!(parse_i64(""), None);
    assert_eq!(parse_i64("-"), None);
    assert_eq!(parse_i64("12a"), None);
    assert_eq!(parse_i64(" 1"), None);
    assert_eq!(parse_i32("2147483647"), Some(i32::MAX));
    assert_eq!(parse_i32("2147483648"), None);
    assert_eq!(parse_i32("-2147483648"), Some(i32::MIN));
}

fn default_go() -> GoParams {
    GoParams {
        depth: i32::MAX,
        wtime: i64::MAX,
        btime: i64::MAX,
        winc: 0,
        binc: 0,
        movestogo: i64::MAX,
    }
}

#[test]
fn go_parameters() {
    assert_eq!(parse_go(&strings(&["go"])), Some(default_go()));
    assert_eq!(parse_go(&strings(&["go", "depth", "5"])), Some(GoParams { depth: 5, ..default_go() }));
    assert_eq!(
        parse_go(&strings(&["go", "wtime", "1000", "btime", "2000", "winc", "10", "binc", "20", "movestogo", "30"])),
        Some(GoParams { depth: i32::MAX, wtime: 1000, btime: 2000, winc: 10, binc: 20, movestogo: 30 })
    );
    assert_eq!(
        parse_go(&strings(&["go", "movetime", "500"])),
        Some(GoParams { wtime: 500, btime: 500, ..default_go() })
    );
    assert_eq!(parse_go(&strings(&["go", "depth"])), None);
    assert_eq!(parse_go(&strings(&["go", "depth", "x"])), None);
    assert_eq!(parse_go(&strings(&["go", "infinite"])), Some(default_go()));
}

#[test]
fn commands_of_lines() {
    assert_eq!(parse_command("uci\n"), Some(UciCommand::Uci));
    assert_eq!(parse_command("  isready  "), Some(UciCommand::IsReady));
    assert_eq!(parse_command("ucinewgame"), Some(UciCommand::UciNewGame));
    assert_eq!(parse_command("stop"), Some(UciCommand::Stop));
    assert_eq!(parse_command("quit\r\n"), Some(UciCommand::Quit));
    assert_eq!(parse_command("hello there"), Some(UciCommand::Unknown));
    assert_eq!(parse_command(""), Some(UciCommand::Unknown));
    assert_eq!(parse_command("go depth 6"), Some(UciCommand::Go(GoParams { depth: 6, ..default_go() })));
    assert_eq!(parse_command("go depth"), None);
}

#[test]
fn position_commands() {
    assert_eq!(parse_command("position"), Some(UciCommand::PositionMissing));
    assert_eq!(parse_command("position somewhere"), Some(UciCommand::Ignored));
    assert_eq!(parse_command("position startpos"), Some(UciCommand::UciNewGame));
    assert_eq!(
        parse_command("position startpos moves e2e4 e7e5"),
        Some(UciCommand::StartPos(strings(&["e2e4", "e7e5"])))
    );
    assert_eq!(parse_command("position startpos moves"), Some(UciCommand::StartPos(vec![])));
    assert_eq!(
        parse_command("position fen 8/8/8/8/8/8/8/K6k w - - 0 1 moves a1a2"),
        Some(UciCommand::FenPos("8/8/8/8/8/8/8/K6k w - - 0 1 ".to_string(), Some(strings(&["a1a2"]))))
    );
    assert_eq!(
        parse_command("position fen 8/8/8/8/8/8/8/K6k w - - 0 1"),
        Some(UciCommand::FenPos("8/8/8/8/8/8/8/K6k w - - 0 1 ".to_string(), None))
    );
}

#[test]
fn uci_text_survives_the_notation_roundtrip() {
    let b = Board::from_fen("r3k2r/P7/8/8/8/8/8/R3K2R w KQkq - 0 1", false).unwrap();
    for text in ["e1g1", "e1c1", "a7a8q", "a7b8n", "h1h5", "e1f2"] {
        let converted = _regular_to_960_(text.to_string(), &b);
        let parsed: cozy_chess::Move = converted.parse().unwrap();
        let read = ChessMove {
            from: parsed.from as u8,
            to: parsed.to as u8,
            promotion: parsed.promotion.map(|p| Piece::from_index(p as usize)),
        };
        assert_eq!(_960_to_regular_(Some(read), &b), text);
    }
}

#[test]
fn fresh_table_finds_nothing_at_any_ply() {
    let tt = TT::new();
    let b = Board::default();
    assert_eq!(tt.find(&b, 0), None);
    assert_eq!(tt.find(&b, -7), None);
    assert_eq!(tt.find(&b, 300), None);
}
