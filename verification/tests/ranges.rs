use solver::ranges::{join_range, range_entries};

fn pairs(v: &[(&str, &str)]) -> Vec<(String, String)> {
    v.iter().map(|(a, b)| (a.to_string(), b.to_string())).collect()
}

#[test]
fn entries_of_a_range_file() {
    let content = "AA:1.0000\n  KK: 0.5 \n\nbad line\nA:B:C\r\n QQ :1\r\n";
    assert_eq!(range_entries(content), pairs(&[("AA", "1.0000"), ("KK", "0.5"), ("QQ", "1")]));
}

#[test]
fn unicode_whitespace_is_trimmed() {
    let content = "\u{A0}JJ:\t0.25\u{3000}";
    assert_eq!(range_entries(content), pairs(&[("JJ", "0.25")]));
}

#[test]
fn empty_sides_are_kept() {
    assert_eq!(range_entries(":"), pairs(&[("", "")]));
    assert_eq!(range_entries(""), pairs(&[]));
}

#[test]
fn joined_with_commas() {
    let v = vec!["AA".to_string(), "KK:0.5000".to_string(), "AKs".to_string()];
    assert_eq!(join_range(&v), "AA,KK:0.5000,AKs");
    assert_eq!(join_range(&Vec::new()), "");
    assert_eq!(join_range(&vec!["QQ".to_string()]), "QQ");
}
