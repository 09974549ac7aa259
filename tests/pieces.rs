use chess_folk::pieces::{compose_name, generate_name, sex_for, Class, Piece, Sex, Side};

fn expected_class(i: usize) -> Class {
    if (8..24).contains(&i) {
        return Class::Pawn;
    }
    match i % 8 {
        0 | 7 => Class::Rook,
        1 | 6 => Class::Knight,
        2 | 5 => Class::Bishop,
        3 => Class::Queen,
        _ => Class::King,
    }
}

#[test]
fn classic_set_has_canonical_layout() {
    let pieces = Piece::generate_classic();
    assert_eq!(pieces.len(), 32);
    let rows = [0i8, 1, 6, 7];
    for (i, p) in pieces.iter().enumerate() {
        let chars: Vec<char> = p.name.chars().collect();
        assert!(chars.len() >= 3 && chars.len() <= 16);
        assert_eq!(p.class, expected_class(i), "class of {}", i);
        assert_eq!(p.get_class(), expected_class(i));
        let side = if i < 16 { Side::Black } else { Side::White };
        assert_eq!(p.side, side, "side of {}", i);
        assert_eq!(p.pos, [(i % 8) as i8, rows[i / 8]], "position of {}", i);
        assert!(!p.is_dead());
        assert_eq!(p.nature, 0);
        assert_eq!(p.enemy, None);
    }
}

#[test]
fn royal_sexes_are_fixed() {
    let pieces = Piece::generate_classic();
    assert_eq!(pieces[3].class, Class::Queen);
    assert_eq!(pieces[3].sex, Sex::Female);
    assert_eq!(pieces[4].class, Class::King);
    assert_eq!(pieces[4].sex, Sex::Male);
    assert_eq!(pieces[27].sex, Sex::Female);
    assert_eq!(pieces[28].sex, Sex::Male);
}

#[test]
fn sex_follows_class_then_coin() {
    assert_eq!(sex_for(Class::King, false), Sex::Male);
    assert_eq!(sex_for(Class::Queen, true), Sex::Female);
    assert_eq!(sex_for(Class::Pawn, true), Sex::Male);
    assert_eq!(sex_for(Class::Rook, false), Sex::Female);
}

#[test]
fn new_piece_starts_without_relations() {
    let p = Piece::new(Class::Knight, Side::White, &[1, 7]);
    assert_eq!(p.class, Class::Knight);
    assert_eq!(p.side, Side::White);
    assert_eq!(p.pos, [1, 7]);
    assert_eq!(p.friend, None);
    assert_eq!(p.enemy, None);
    assert!(!p.is_legal_move(&[2, 5]));
    assert!(!p.try_move(&[2, 5]));
}

#[test]
fn negative_x_means_dead() {
    let mut p = Piece::new(Class::Pawn, Side::Black, &[0, 1]);
    assert!(!p.is_dead());
    p.pos = [-1, 1];
    assert!(p.is_dead());
}

#[test]
fn generated_names_are_shaped() {
    for _ in 0..500 {
        let name = generate_name();
        let chars: Vec<char> = name.chars().collect();
        assert!(chars.len() >= 3 && chars.len() <= 16, "{}", name);
        assert!(chars[0].is_ascii_uppercase(), "{}", name);
        assert!(chars[1..].iter().all(|c| c.is_ascii_lowercase()), "{}", name);
    }
}

#[test]
fn compose_name_spells_and_capitalises() {
    // consonant "c", vowel "a", consonant "n"
    assert_eq!(compose_name(true, &vec![1, 0, 13]), "Can");
    // vowel "ou", consonant "ss", vowel "ui", consonant "z"
    assert_eq!(compose_name(false, &vec![10, 20, 12, 30]), "Oussuiz");
    // consonant "ly", vowel "aa", consonant "b"
    assert_eq!(compose_name(true, &vec![29, 1, 0]), "Lyaab");
    assert_eq!(compose_name(true, &vec![]), "");
}

#[test]
fn words_of_sides_and_classes() {
    assert_eq!(Side::Black.as_str(), "black");
    assert_eq!(Side::White.as_str(), "white");
    assert_eq!(Class::Pawn.as_str(), "pawn");
    assert_eq!(Class::Knight.as_str(), "knight");
    assert_eq!(Class::Rook.as_str(), "rook");
    assert_eq!(Class::Bishop.as_str(), "bishop");
    assert_eq!(Class::Queen.as_str(), "Queen");
    assert_eq!(Class::King.as_str(), "King");
}
