use solver::solutions::{parse_solution_file, solution_path};

#[test]
fn solution_paths() {
    assert_eq!(solution_path("solutions", "BTN_RFI_vs_BB_defend", "AsKsQs"), "solutions/BTN_RFI_vs_BB_defend___AsKsQs.bin");
    assert_eq!(solution_path("../solutions", "S", "B"), "../solutions/S___B.bin");
}

#[test]
fn named_solution_files() {
    assert_eq!(
        parse_solution_file("solutions/BTN_RFI_vs_BB_defend___AsKsQs.bin").unwrap(),
        ("BTN_RFI_vs_BB_defend".to_string(), "AsKsQs".to_string())
    );
    assert_eq!(
        parse_solution_file("CO_RFI_vs_BTN_cold_call___KhQs6h").unwrap(),
        ("CO_RFI_vs_BTN_cold_call".to_string(), "KhQs6h".to_string())
    );
}

#[test]
fn version_one_files() {
    assert_eq!(
        parse_solution_file("solutions/v1.1_KhQs6h.bin").unwrap(),
        ("BTN_RFI_vs_BB_defend".to_string(), "KhQs6h".to_string())
    );
    assert_eq!(
        parse_solution_file("v1.1_v1.1_KhQs6h.bin.bin").unwrap(),
        ("BTN_RFI_vs_BB_defend".to_string(), "KhQs6h".to_string())
    );
}

#[test]
fn badly_named_files() {
    let msg = "Invalid filename format. Expected: scenario___board.bin";
    assert_eq!(parse_solution_file("solutions/board.bin").err().unwrap(), msg);
    assert_eq!(parse_solution_file("a___b___c.bin").err().unwrap(), msg);
    assert_eq!(parse_solution_file("a___b/").err().unwrap(), msg);
}

#[test]
fn round_trip_of_a_solution_path() {
    let p = solution_path("../solutions", "SB_3bet_vs_BTN_call", "Th9h8h");
    assert_eq!(
        parse_solution_file(&p).unwrap(),
        ("SB_3bet_vs_BTN_call".to_string(), "Th9h8h".to_string())
    );
}
