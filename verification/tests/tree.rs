use solver::tree::{
    board_with_card, chance_children, child_histories, extend_history, find_action,
    follows_action, position_label, reads_flop_node, strategy_index, visit_queued_node,
    NodePath, PlayAction,
};

#[test]
fn histories_grow_with_separator() {
    assert_eq!(extend_history("", "Check", ","), "Check");
    assert_eq!(extend_history("Check", "Bet(275)", "-"), "Check-Bet(275)");
    assert_eq!(extend_history("Check,Check", "Bet(100)", ","), "Check,Check,Bet(100)");
}

#[test]
fn boards_grow_with_dealt_cards() {
    assert_eq!(board_with_card("KhQs6h", 5), "KhQs6h-3d");
    assert_eq!(board_with_card("KhQs6h-3d", 51), "KhQs6h-3d-As");
}

#[test]
fn position_labels() {
    assert_eq!(position_label(0), "OOP");
    assert_eq!(position_label(1), "IP");
}

#[test]
fn chance_children_in_card_order() {
    let kids = chance_children("KhQs6h", (1u64 << 5) | (1u64 << 0));
    assert_eq!(kids, vec![(0u8, "KhQs6h-2c".to_string()), (5u8, "KhQs6h-3d".to_string())]);
}

#[test]
fn child_histories_per_action() {
    let labels = vec!["Check".to_string(), "Bet(275)".to_string()];
    assert_eq!(child_histories("", &labels, ","), vec!["Check".to_string(), "Bet(275)".to_string()]);
    assert_eq!(
        child_histories("Check", &labels, ","),
        vec!["Check,Check".to_string(), "Check,Bet(275)".to_string()]
    );
}

#[test]
fn strategy_is_action_major() {
    assert_eq!(strategy_index(3, 2, 10), 23);
    assert_eq!(strategy_index(0, 0, 1), 0);
}

#[test]
fn depth_first_walk_decisions() {
    assert!(reads_flop_node(false, 3));
    assert!(!reads_flop_node(false, 4));
    assert!(!reads_flop_node(true, 0));
    assert!(follows_action(&PlayAction::Bet(275), false));
    assert!(!follows_action(&PlayAction::Bet(275), true));
    assert!(!follows_action(&PlayAction::Call, false));
    assert!(!follows_action(&PlayAction::Fold, false));
    assert!(!follows_action(&PlayAction::Chance(3), false));
    assert!(follows_action(&PlayAction::Check, false));
}

#[test]
fn find_action_by_value() {
    let avail = vec![PlayAction::Check, PlayAction::Bet(275), PlayAction::AllIn(9750)];
    assert_eq!(find_action(&avail, PlayAction::Bet(275)), Some(1));
    assert_eq!(find_action(&avail, PlayAction::Bet(550)), None);
}

#[test]
fn breadth_first_visit_queues_open_lines() {
    let root = NodePath { actions: vec![], history: String::new() };
    let avail = vec![PlayAction::Fold, PlayAction::Call, PlayAction::Raise(825), PlayAction::Check];
    let labels: Vec<String> = avail.iter().map(|a| format!("{:?}", a)).collect();
    let kids = visit_queued_node(&root, true, false, &avail, &labels).unwrap();
    assert_eq!(kids.len(), 2);
    assert_eq!(kids[0].actions, vec![PlayAction::Raise(825)]);
    assert_eq!(kids[0].history, "Raise(825)");
    assert_eq!(kids[1].actions, vec![PlayAction::Check]);
    let deeper = visit_queued_node(&kids[1], true, false, &avail, &labels).unwrap();
    assert_eq!(deeper[0].history, "Check-Raise(825)");
    assert_eq!(deeper[0].actions, vec![PlayAction::Check, PlayAction::Raise(825)]);
}

#[test]
fn breadth_first_visit_skips() {
    let root = NodePath { actions: vec![], history: String::new() };
    let avail = vec![PlayAction::Check];
    let labels = vec!["Check".to_string()];
    assert!(visit_queued_node(&root, false, false, &avail, &labels).is_none());
    assert!(visit_queued_node(&root, true, true, &avail, &labels).is_none());
    let chance = vec![PlayAction::Chance(1), PlayAction::Chance(2)];
    let chance_labels = vec!["Chance(1)".to_string(), "Chance(2)".to_string()];
    assert!(visit_queued_node(&root, true, false, &chance, &chance_labels).is_none());
    assert!(visit_queued_node(&root, true, false, &Vec::new(), &Vec::new()).is_none());
    let deep = NodePath { actions: vec![PlayAction::Check; 6], history: "x".to_string() };
    assert!(visit_queued_node(&deep, true, false, &avail, &labels).is_none());
    let five = NodePath { actions: vec![PlayAction::Check; 5], history: "x".to_string() };
    assert_eq!(visit_queued_node(&five, true, false, &avail, &labels).unwrap().len(), 1);
}
