use chess_folk::friends::{
    attempt_pair, befriend_group, befriend_side, generate_relationships, pick_friendless,
};
use chess_folk::pieces::{Class, Piece, Side};

fn is_royal(c: Class) -> bool {
    c == Class::King || c == Class::Queen
}

fn friendless_set() -> [Piece; 32] {
    let mut pieces = Piece::generate_classic();
    for p in pieces.iter_mut() {
        p.friend = None;
    }
    pieces
}

fn check_friendships(pieces: &[Piece; 32]) {
    let mut seen = [0usize; 32];
    for (a, p) in pieces.iter().enumerate() {
        if is_royal(p.class) {
            assert_eq!(p.friend, None, "royal piece {} has a friend", a);
        }
        if let Some(b) = p.friend {
            assert!(b < 32);
            assert_ne!(a, b);
            assert_eq!(pieces[b].friend, Some(a), "friendship {} -> {} is one-sided", a, b);
            assert_eq!(p.side, pieces[b].side);
            assert_eq!(p.class == Class::Pawn, pieces[b].class == Class::Pawn);
            assert_eq!(a / 8, b / 8);
            seen[b] += 1;
        }
    }
    assert!(seen.iter().all(|&n| n <= 1), "a piece is the friend of two pieces");
}

#[test]
fn royals_never_get_friends() {
    for _ in 0..200 {
        let pieces = Piece::generate_classic();
        for i in [3usize, 4, 27, 28] {
            assert_eq!(pieces[i].friend, None);
        }
    }
}

#[test]
fn friendships_are_mutual_and_within_group() {
    for _ in 0..200 {
        check_friendships(&Piece::generate_classic());
    }
}

#[test]
fn pawns_do_make_friends() {
    let mut found = false;
    for _ in 0..50 {
        let pieces = Piece::generate_classic();
        if pieces[8..24].iter().any(|p| p.friend.is_some()) {
            found = true;
        }
    }
    assert!(found);
}

#[test]
fn side_tally_stays_in_bounds() {
    for _ in 0..200 {
        let mut pieces = friendless_set();
        let black = befriend_side(&mut pieces, Side::Black);
        assert!(black.pawn_attempts >= 2 && black.pawn_attempts <= 4);
        assert!(black.pawn_pairs <= black.pawn_attempts);
        assert!(black.special_attempts <= 3);
        assert!(black.special_pairs <= black.special_attempts);
        let befriended = pieces[8..16].iter().filter(|p| p.friend.is_some()).count();
        assert_eq!(befriended, 2 * black.pawn_pairs);
        let specials = pieces[0..8].iter().filter(|p| p.friend.is_some()).count();
        assert_eq!(specials, 2 * black.special_pairs);
        assert!(pieces[16..32].iter().all(|p| p.friend.is_none()));
        check_friendships(&pieces);
    }
}

#[test]
fn zero_attempts_change_nothing() {
    let mut pieces = friendless_set();
    assert_eq!(befriend_group(&mut pieces, 24, 0), 0);
    assert!(pieces.iter().all(|p| p.friend.is_none()));
}

#[test]
fn existing_friendships_are_kept() {
    for _ in 0..100 {
        let mut pieces = friendless_set();
        pieces[8].friend = Some(9);
        pieces[9].friend = Some(8);
        generate_relationships(&mut pieces);
        assert_eq!(pieces[8].friend, Some(9));
        assert_eq!(pieces[9].friend, Some(8));
        check_friendships(&pieces);
    }
}

#[test]
fn specials_pass_cannot_exceed_three_pairs() {
    for _ in 0..100 {
        let mut pieces = friendless_set();
        let pairs = befriend_group(&mut pieces, 0, 10);
        assert!(pairs <= 3);
        check_friendships(&pieces);
    }
}

#[test]
fn pick_takes_first_eligible_draw() {
    let mut pieces = friendless_set();
    pieces[10].friend = Some(11);
    pieces[11].friend = Some(10);
    // 4 is the black King, 10 has a friend, 12 is excluded
    assert_eq!(pick_friendless(&pieces, &vec![4, 10, 12, 13, 14], 12), Some(13));
    assert_eq!(pick_friendless(&pieces, &vec![3, 4, 11], usize::MAX), None);
    assert_eq!(pick_friendless(&pieces, &vec![], usize::MAX), None);
    assert_eq!(pick_friendless(&pieces, &vec![0], usize::MAX), Some(0));
}

#[test]
fn attempt_links_first_eligible_pair() {
    let mut pieces = friendless_set();
    // 3 and 4 are royal, so 1 is the first pick; 1 is then excluded, so 7
    assert!(attempt_pair(&mut pieces, 0, &vec![3, 4, 1, 2], &vec![1, 4, 7, 2]));
    assert_eq!(pieces[1].friend, Some(7));
    assert_eq!(pieces[7].friend, Some(1));
    assert_eq!(pieces.iter().filter(|p| p.friend.is_some()).count(), 2);
}

#[test]
fn attempt_without_second_pick_changes_nothing() {
    let mut pieces = friendless_set();
    assert!(!attempt_pair(&mut pieces, 8, &vec![9, 10], &vec![9, 9, 9]));
    assert!(!attempt_pair(&mut pieces, 24, &vec![27, 28], &vec![25]));
    assert!(!attempt_pair(&mut pieces, 16, &vec![], &vec![17]));
    assert!(pieces.iter().all(|p| p.friend.is_none()));
}

#[test]
fn attempt_skips_pieces_with_friends() {
    let mut pieces = friendless_set();
    assert!(attempt_pair(&mut pieces, 16, &vec![16], &vec![17]));
    assert!(attempt_pair(&mut pieces, 16, &vec![16, 17, 18], &vec![16, 17, 18, 19]));
    assert_eq!(pieces[18].friend, Some(19));
    assert_eq!(pieces[16].friend, Some(17));
}
