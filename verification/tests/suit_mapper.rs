use solver::flop_similarity::parse_flop;
use solver::suit_mapper::map_to_canonical;

#[test]
fn test_monotone() {
    let (canonical, _) = map_to_canonical("AhKhQh").unwrap();
    assert_eq!(canonical, "AsKsQs");
}

#[test]
fn test_two_tone() {
    let (canonical, _) = map_to_canonical("KhQd6h").unwrap();
    // h appears twice, d once → h→s, d→h
    assert_eq!(canonical, "KsQh6s");
}

#[test]
fn test_rainbow() {
    let (canonical, _) = map_to_canonical("As9d3c").unwrap();
    // First card → s, second → h, third → d
    assert_eq!(canonical, "As9h3d");
}

#[test]
fn rejects_flops_that_are_not_six_bytes() {
    let err = map_to_canonical("AhKh").err().unwrap();
    assert_eq!(err, "Invalid flop string: AhKh");
    assert!(map_to_canonical("AhKhQhJ").is_err());
    // six characters but more than six bytes
    assert_eq!(map_to_canonical("AhKhQé").err().unwrap(), "Invalid flop string: AhKhQé");
}

#[test]
fn two_tone_with_doubled_suit_last() {
    let (canonical, mapping) = map_to_canonical("QdKh6h").unwrap();
    assert_eq!(canonical, "QhKs6s");
    assert_eq!(mapping.to_canonical("h"), "s");
    assert_eq!(mapping.to_canonical("d"), "h");
    assert_eq!(mapping.from_canonical("s"), "h");
    assert_eq!(mapping.from_canonical("h"), "d");
}

#[test]
fn free_suits_keep_their_letter() {
    let (_, mapping) = map_to_canonical("AhKhQh").unwrap();
    assert_eq!(mapping.to_canonical("c"), "c");
    assert_eq!(mapping.from_canonical("d"), "d");
    assert_eq!(mapping.to_canonical("s"), "h");
    assert_eq!(mapping.to_canonical("x"), "x");
}

#[test]
fn hand_mapping_follows_the_flop() {
    let (_, mapping) = map_to_canonical("KhQd6h").unwrap();
    assert_eq!(mapping.map_hand_to_canonical("AhKd"), "AsKh");
    assert_eq!(mapping.map_hand_to_canonical("AcKc"), "AcKc");
    assert_eq!(mapping.map_hand_to_canonical("AhK"), "AhK");
    let (_, rainbow) = map_to_canonical("As9d3c").unwrap();
    // s, d, c on the flop go to s, h, d; hearts, displaced, take the free clubs
    assert_eq!(rainbow.map_hand_to_canonical("AhKd"), "AcKh");
}

#[test]
fn every_suit_is_renamed_on_a_two_tone_flop() {
    let (_, mapping) = map_to_canonical("KhQd6h").unwrap();
    assert_eq!(mapping.to_canonical("h"), "s");
    assert_eq!(mapping.to_canonical("d"), "h");
    assert_eq!(mapping.to_canonical("s"), "d");
    assert_eq!(mapping.to_canonical("c"), "c");
    assert_eq!(mapping.from_canonical("s"), "h");
    assert_eq!(mapping.from_canonical("h"), "d");
    assert_eq!(mapping.from_canonical("d"), "s");
    assert_eq!(mapping.from_canonical("c"), "c");
}

#[test]
fn offsuit_hands_stay_offsuit() {
    let (_, mapping) = map_to_canonical("KhQd6h").unwrap();
    assert_eq!(mapping.map_hand_to_canonical("AsKd"), "AdKh");
    assert_eq!(mapping.map_hand_to_canonical("AhKs"), "AsKd");
    assert_eq!(mapping.map_hand_to_canonical("JhTh"), "JsTs");
    assert_eq!(mapping.map_hand_to_canonical("JdTd"), "JhTh");
}

#[test]
fn monotone_flop_swaps_its_suit_with_spades() {
    let (canonical, mapping) = map_to_canonical("QdJd8d").unwrap();
    assert_eq!(canonical, "QsJs8s");
    assert_eq!(mapping.map_hand_to_canonical("Td9d"), "Ts9s");
    assert_eq!(mapping.map_hand_to_canonical("AhKh"), "AhKh");
    assert_eq!(mapping.to_canonical("s"), "d");
    let (canonical, mapping) = map_to_canonical("TcTc6c").unwrap();
    assert_eq!(canonical, "TsTs6s");
    assert_eq!(mapping.map_hand_to_canonical("AcKc"), "AsKs");
    assert_eq!(mapping.to_canonical("s"), "c");
    assert_eq!(mapping.to_canonical("h"), "h");
    assert_eq!(mapping.to_canonical("d"), "d");
}

#[test]
fn four_suits_round_trip_on_every_pattern() {
    for flop in ["KhQd6h", "AhKhQh", "As9d3c", "2c2d3c", "QdJd8d", "Kd8c4c"] {
        let (_, mapping) = map_to_canonical(flop).unwrap();
        let mut images = Vec::new();
        for s in ["s", "h", "d", "c"] {
            let c = mapping.to_canonical(s);
            assert_eq!(mapping.from_canonical(&c), s);
            assert_eq!(mapping.to_canonical(&mapping.from_canonical(s)), s);
            images.push(c);
        }
        images.sort();
        assert_eq!(images, vec!["c", "d", "h", "s"]);
    }
}

#[test]
fn round_trip_of_each_flop_suit() {
    let (_, mapping) = map_to_canonical("2c7dJh").unwrap();
    for s in ["c", "d", "h"] {
        assert_eq!(mapping.from_canonical(&mapping.to_canonical(s)), s);
    }
}

#[test]
fn canonical_form_is_idempotent() {
    for flop in ["KhQd6h", "AhKhQh", "As9d3c", "7d7h7s", "2c2d3c"] {
        let (c, _) = map_to_canonical(flop).unwrap();
        let (c2, _) = map_to_canonical(&c).unwrap();
        assert_eq!(c, c2);
    }
}

#[test]
fn canonical_flop_keeps_features_and_avoids_clubs() {
    for flop in ["KhQd6h", "AhKhQh", "As9d3c", "7d7h7s", "2c2d3c", "QdKh6h", "Jc9c2c"] {
        let (c, _) = map_to_canonical(flop).unwrap();
        let a = parse_flop(flop);
        let b = parse_flop(&c);
        assert_eq!((a.high_card, a.mid_card, a.low_card), (b.high_card, b.mid_card, b.low_card));
        assert_eq!((a.is_paired, a.is_trips, a.connectivity), (b.is_paired, b.is_trips, b.connectivity));
        assert_eq!(a.suit_pattern, b.suit_pattern);
        assert!(c.chars().enumerate().all(|(i, ch)| i % 2 == 0 || ch == 's' || ch == 'h' || ch == 'd'));
        assert!(c.chars().nth(1) == Some('s') || c.chars().nth(3) == Some('s'));
    }
}
