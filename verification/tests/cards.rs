use solver::cards::{card_to_string, dealable_cards, find_hand_index, hand_to_string};

#[test]
fn card_texts_follow_rank_and_suit_order() {
    assert_eq!(card_to_string(0), "2c");
    assert_eq!(card_to_string(1), "2d");
    assert_eq!(card_to_string(2), "2h");
    assert_eq!(card_to_string(3), "2s");
    assert_eq!(card_to_string(46), "Kh");
    assert_eq!(card_to_string(43), "Qs");
    assert_eq!(card_to_string(18), "6h");
    assert_eq!(card_to_string(51), "As");
    assert_eq!(card_to_string(32), "Tc");
    assert_eq!(card_to_string(37), "Jd");
}

#[test]
fn all_deck_texts_are_distinct() {
    let texts: Vec<String> = (0..52u8).map(card_to_string).collect();
    for i in 0..52 {
        for j in 0..i {
            assert_ne!(texts[i], texts[j]);
        }
    }
}

#[test]
fn hand_text_joins_both_cards() {
    assert_eq!(hand_to_string(46, 43), "KhQs");
    assert_eq!(hand_to_string(34, 38), "ThJh");
}

#[test]
fn find_hand_in_either_order() {
    let hands = vec![(0u8, 1u8), (34, 38), (38, 34), (5, 9)];
    assert_eq!(find_hand_index(&hands, 34, 38), Some(1));
    assert_eq!(find_hand_index(&hands, 38, 34), Some(1));
    assert_eq!(find_hand_index(&hands, 9, 5), Some(3));
    assert_eq!(find_hand_index(&hands, 1, 2), None);
    assert_eq!(find_hand_index(&Vec::new(), 1, 2), None);
}

#[test]
fn dealable_cards_from_mask() {
    let mask: u64 = 0b101 | (1u64 << 51) | (1u64 << 60);
    assert_eq!(dealable_cards(mask), vec![0u8, 2, 51]);
    assert_eq!(dealable_cards(0), Vec::<u8>::new());
    assert_eq!(dealable_cards(u64::MAX).len(), 52);
}

#[test]
fn conflicts_with_board() {
    let board = [46u8, 43, 18];
    assert!(solver::cards::hand_conflicts(&board, 46, 0));
    assert!(solver::cards::hand_conflicts(&board, 0, 18));
    assert!(!solver::cards::hand_conflicts(&board, 0, 1));
    assert!(!solver::cards::hand_conflicts(&[], 0, 1));
}
