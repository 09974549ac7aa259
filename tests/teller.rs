use chess_folk::pieces::{Class, Piece, Side};
use chess_folk::teller::{LastMark, Teller, Tone};

fn two_pieces() -> Vec<Piece> {
    vec![
        Piece::new(Class::Pawn, Side::Black, &[0, 1]),
        Piece::new(Class::Queen, Side::White, &[3, 7]),
    ]
}

#[test]
fn new_teller_is_empty() {
    let pieces = two_pieces();
    let t = Teller::new(&pieces);
    assert_eq!(t.text, "");
    assert_eq!(t.tone, Tone::Neutral);
    assert_eq!(t.last_mark, LastMark::Placed('.'));
}

#[test]
fn double_question_mark_collapses() {
    let pieces = two_pieces();
    let mut t = Teller::new(&pieces);
    t.begin(0);
    t.sentence("a??b", Tone::Neutral);
    assert_eq!(t.text, "a?b");
}

#[test]
fn lone_question_mark_is_dropped() {
    let pieces = two_pieces();
    let mut t = Teller::new(&pieces);
    t.begin(0);
    t.sentence("a?b", Tone::Neutral);
    assert_eq!(t.text, "ab");
}

#[test]
fn name_placeholder_writes_nothing() {
    let pieces = two_pieces();
    let mut t = Teller::new(&pieces);
    t.begin(0);
    t.sentence("?n one", Tone::Bad);
    assert_eq!(t.text, " oe");
    assert_eq!(t.last_mark, LastMark::Pending);
}

#[test]
fn only_first_mark_is_put() {
    let pieces = two_pieces();
    let mut t = Teller::new(&pieces);
    t.begin(1);
    t.sentence("hi", Tone::Good);
    t.mark('!');
    t.mark('!');
    t.mark('.');
    t.sentence("yo", Tone::Good);
    t.mark(',');
    assert_eq!(t.text, "hi!yo");
    assert_eq!(t.last_mark, LastMark::Placed('!'));
    t.begin(0);
    t.sentence("ok", Tone::Good);
    t.mark('.');
    assert_eq!(t.text, "ok.");
}

#[test]
fn mark_right_after_begin_is_ignored() {
    let pieces = two_pieces();
    let mut t = Teller::new(&pieces);
    t.begin(0);
    t.mark('.');
    assert_eq!(t.text, "");
    assert_eq!(t.last_mark, LastMark::Began);
    t.sentence("", Tone::Neutral);
    t.mark('.');
    assert_eq!(t.text, "");
}

#[test]
fn backstory_ends_with_one_period() {
    let pieces = two_pieces();
    let mut t = Teller::new(&pieces);
    let first = t.backstory(0);
    assert_eq!(first, " the s c.");
    assert!(first.ends_with('.') && !first.ends_with(".."));
    let second = t.backstory(1);
    assert_eq!(second, " the s c.");
    assert_eq!(t.text, second);
    assert_eq!(t.index, 1);
}

#[test]
fn info_gives_its_fixed_line() {
    let pieces = two_pieces();
    let mut t = Teller::new(&pieces);
    t.backstory(1);
    let line = t.info(1);
    assert_eq!(line, "Todo stuff");
    let line = t.info(0);
    assert_eq!(line, "Todo stuff");
    assert_eq!(t.text, "Todo stuff");
    assert_eq!(t.index, 0);
}
