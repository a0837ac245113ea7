use solver::flop_similarity::{find_best_match, parse_flop, similarity_score, SuitPattern};

#[test]
fn test_exact_match() {
    let solved = vec!["AsKsQs".to_string()];
    let (match_flop, score) = find_best_match("AdKdQd", &solved);
    assert_eq!(match_flop, "AsKsQs");
    assert!(score > 200);
}

#[test]
fn test_connectivity() {
    let solved = vec!["JsTs9s".to_string(), "As9s2s".to_string()];
    let (match_flop, _) = find_best_match("Th9h8h", &solved);
    assert_eq!(match_flop, "JsTs9s"); // Should prefer connected
}

#[test]
fn parse_flop_sorts_ranks_and_reads_pattern() {
    let f = parse_flop("6hKhQs");
    assert_eq!(f.high_card, 11);
    assert_eq!(f.mid_card, 10);
    assert_eq!(f.low_card, 4);
    assert!(!f.is_paired);
    assert!(!f.is_trips);
    assert_eq!(f.connectivity, 0);
    assert_eq!(f.suit_pattern, SuitPattern::TwoTone);
}

#[test]
fn parse_flop_connected_and_one_gap() {
    let connected = parse_flop("JsTd9c");
    assert_eq!(connected.connectivity, 2);
    assert_eq!(connected.suit_pattern, SuitPattern::Rainbow);
    let one_gap = parse_flop("Js9d7c");
    assert_eq!(one_gap.connectivity, 1);
    let total_gap_six = parse_flop("Js9d5c");
    assert_eq!(total_gap_six.connectivity, 0);
    let gap_four = parse_flop("Js8d7c");
    assert_eq!(gap_four.connectivity, 1);
    let wide = parse_flop("Ah7d2c");
    assert_eq!(wide.connectivity, 0);
}

#[test]
fn parse_flop_paired_and_trips() {
    let paired = parse_flop("KhKdQs");
    assert!(paired.is_paired);
    assert!(!paired.is_trips);
    assert_eq!(paired.connectivity, 0);
    let trips = parse_flop("7d7h7s");
    assert!(trips.is_paired);
    assert!(trips.is_trips);
    assert_eq!(trips.suit_pattern, SuitPattern::Rainbow);
    let mono = parse_flop("2s5s9s");
    assert_eq!(mono.suit_pattern, SuitPattern::Monotone);
}

#[test]
fn parse_flop_unknown_rank_counts_as_deuce() {
    let f = parse_flop("Xs2d3c");
    assert_eq!(f.low_card, 0);
    assert_eq!(f.mid_card, 0);
    assert_eq!(f.high_card, 1);
    assert!(f.is_paired);
}

#[test]
fn similarity_score_exact_values() {
    let a = parse_flop("AsKsQs");
    let b = parse_flop("AdKdQd");
    assert_eq!(similarity_score(&a, &b), 375);
    // A72 rainbow against KQJ monotone: high off by one, mid off by 3, low off by 4,
    // both unpaired, connectivity 0 vs 2, patterns differ.
    let c = parse_flop("Ah7d2c");
    let d = parse_flop("KsQsJs");
    assert_eq!(similarity_score(&c, &d), 80 + 0 + 0 + 80 + 60 + 0 + 0);
    assert_eq!(similarity_score(&d, &c), similarity_score(&c, &d));
    // trips against an unpaired flop: only the paired/trips points are lost
    let e = parse_flop("7d7h7s");
    let f = parse_flop("8d7h6s");
    // high 7 vs 8, mid equal, low 7 vs 6; trips and paired differ; connectivity 0 vs 2;
    // both rainbow
    assert_eq!(similarity_score(&e, &f), 80 + 50 + 15 + 0 + 0 + 0 + 20);
}

#[test]
fn find_best_match_prefers_first_on_tie_and_reports_best_score() {
    let solved = vec!["AsKsJs".to_string(), "AhKhJh".to_string(), "7s6s5s".to_string()];
    let (m, s) = find_best_match("AdKdJd", &solved);
    assert_eq!(m, "AsKsJs");
    assert_eq!(s, 375);
    let (m2, s2) = find_best_match("7c6d5h", &solved);
    assert_eq!(m2, "7s6s5s");
    assert_eq!(s2, 375 - 20);
}

#[test]
fn example_queries_of_the_matcher() {
    let solved: Vec<String> = ["AsKsQs", "AsKsJs", "KsQsJs", "JsTs9s", "9s8s7s", "AsAsKs", "KsKsQs", "7s6s5s", "As9s2s"]
        .iter()
        .map(|s| s.to_string())
        .collect();
    assert_eq!(find_best_match("AdKdQd", &solved).0, "AsKsQs");
    assert_eq!(find_best_match("KhKdQs", &solved).0, "KsKsQs");
}

#[test]
fn card_order_and_suit_names_do_not_matter() {
    let a = parse_flop("KhQs6h");
    for other in ["Qs6hKh", "6hKhQs", "KcQd6c", "QdKc6c"] {
        let b = parse_flop(other);
        assert_eq!(similarity_score(&a, &b), 375);
        assert_eq!((b.high_card, b.mid_card, b.low_card), (a.high_card, a.mid_card, a.low_card));
        assert_eq!(b.suit_pattern, a.suit_pattern);
    }
}
