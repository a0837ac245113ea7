use solver::walk::{FullTreeWalk, NodeInfo, WalkStep};

/// A small tree: a decision at the root (Check, Bet(100)); after Check a chance node that
/// can deal cards 0 and 5, each followed by a decision (Check) that ends the hand; after
/// Bet(100) the hand is over.
#[derive(Clone)]
enum Tree {
    End,
    Deal(Vec<(u8, Tree)>),
    Act(Vec<(String, Tree)>),
}

fn info(t: &Tree) -> NodeInfo {
    match t {
        Tree::End => NodeInfo::Terminal,
        Tree::Deal(kids) => NodeInfo::Chance(kids.iter().fold(0u64, |m, (c, _)| m | (1u64 << c))),
        Tree::Act(kids) => NodeInfo::Decision(kids.iter().map(|(l, _)| l.clone()).collect()),
    }
}

fn child(t: &Tree, play: usize) -> Tree {
    match t {
        Tree::End => panic!("no children"),
        Tree::Deal(kids) => kids.iter().find(|(c, _)| *c as usize == play).unwrap().1.clone(),
        Tree::Act(kids) => kids[play].1.clone(),
    }
}

fn run(root: Tree, board: &str) -> (Vec<(String, String)>, usize) {
    let mut walk = FullTreeWalk::new(board);
    let mut stack = vec![root];
    let mut stored = Vec::new();
    let mut steps = 0;
    let mut step = walk.arrived(info(stack.last().unwrap()));
    loop {
        steps += 1;
        match step {
            WalkStep::Store { board, path } => {
                stored.push((board, path));
                step = walk.stored();
            }
            WalkStep::Enter(play) => {
                let next = child(stack.last().unwrap(), play);
                stack.push(next);
                step = walk.arrived(info(stack.last().unwrap()));
            }
            WalkStep::Leave => {
                stack.pop();
                step = walk.returned();
            }
            WalkStep::Finished => break,
        }
    }
    (stored, steps)
}

#[test]
fn walk_stores_every_decision_node_in_order() {
    let river = Tree::Act(vec![("Check".to_string(), Tree::End)]);
    let turn = Tree::Deal(vec![(0, river.clone()), (5, river)]);
    let root = Tree::Act(vec![("Check".to_string(), turn), ("Bet(100)".to_string(), Tree::End)]);
    let (stored, _) = run(root, "KhQs6h");
    assert_eq!(
        stored,
        vec![
            ("KhQs6h".to_string(), "".to_string()),
            ("KhQs6h-2c".to_string(), "Check".to_string()),
            ("KhQs6h-3d".to_string(), "Check".to_string()),
        ]
    );
}

#[test]
fn walk_of_a_terminal_root_or_empty_chance() {
    let (stored, steps) = run(Tree::End, "AsKsQs");
    assert!(stored.is_empty());
    assert_eq!(steps, 1);
    let (stored, _) = run(Tree::Deal(vec![]), "AsKsQs");
    assert!(stored.is_empty());
}

#[test]
fn walk_paths_join_actions_with_commas() {
    let deep = Tree::Act(vec![(
        "Check".to_string(),
        Tree::Act(vec![("Bet(275)".to_string(), Tree::Act(vec![("Call".to_string(), Tree::End)]))]),
    )]);
    let (stored, _) = run(deep, "KhQs6h");
    let paths: Vec<&str> = stored.iter().map(|(_, p)| p.as_str()).collect();
    assert_eq!(paths, vec!["", "Check", "Check,Bet(275)"]);
}
