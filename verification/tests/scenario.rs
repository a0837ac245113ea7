use solver::scenario::parse_scenario;

#[test]
fn rfi_defend_scenario() {
    let (oop, ip, pot, stack) = parse_scenario("BTN_RFI_vs_BB_defend").unwrap();
    assert_eq!(oop, "ranges/gto/rfi/BTN_RFI_vs_BB_defend/bb.txt");
    assert_eq!(ip, "ranges/gto/rfi/BTN_RFI_vs_BB_defend/btn.txt");
    assert_eq!((pot, stack), (550, 9750));
}

#[test]
fn rfi_cold_call_scenario() {
    let (oop, ip, pot, stack) = parse_scenario("CO_RFI_vs_BTN_cold_call").unwrap();
    assert_eq!(oop, "ranges/gto/rfi/CO_RFI_vs_BTN_cold_call/co.txt");
    assert_eq!(ip, "ranges/gto/rfi/CO_RFI_vs_BTN_cold_call/btn.txt");
    assert_eq!((pot, stack), (550, 9750));
}

#[test]
fn three_bet_scenario() {
    let (oop, ip, pot, stack) = parse_scenario("SB_3bet_vs_BTN_call").unwrap();
    assert_eq!(oop, "ranges/gto/3bet/SB_3bet_vs_BTN_call/sb.txt");
    assert_eq!(ip, "ranges/gto/3bet/SB_3bet_vs_BTN_call/btn.txt");
    assert_eq!((pot, stack), (2100, 7900));
}

#[test]
fn four_bet_scenario() {
    let (oop, ip, pot, stack) = parse_scenario("UTG_4bet_vs_MP_call").unwrap();
    assert_eq!(oop, "ranges/gto/4bet/UTG_4bet_vs_MP_call/utg.txt");
    assert_eq!(ip, "ranges/gto/4bet/UTG_4bet_vs_MP_call/mp.txt");
    assert_eq!((pot, stack), (5100, 4900));
}

#[test]
fn unknown_scenario_is_an_error() {
    assert_eq!(
        parse_scenario("BTN_RFI_vs_BB_call").err().unwrap(),
        "Unknown scenario format: BTN_RFI_vs_BB_call"
    );
    assert_eq!(parse_scenario("").err().unwrap(), "Unknown scenario format: ");
}

#[test]
fn second_piece_stops_at_next_separator() {
    let (oop, ip, _, _) = parse_scenario("X_3bet_vs_Y_call_3bet_vs_Z").unwrap();
    assert_eq!(oop, "ranges/gto/3bet/X_3bet_vs_Y_call_3bet_vs_Z/x.txt");
    assert_eq!(ip, "ranges/gto/3bet/X_3bet_vs_Y_call_3bet_vs_Z/y.txt");
}

#[test]
fn every_occurrence_is_removed() {
    let (oop, _, _, _) = parse_scenario("A_RFI_vs_B_defend_defendC").unwrap();
    assert_eq!(oop, "ranges/gto/rfi/A_RFI_vs_B_defend_defendC/bc.txt");
}

#[test]
fn out_of_position_player_comes_first() {
    let (oop, ip, pot, stack) = parse_scenario("UTG_RFI_vs_BTN_cold_call").unwrap();
    assert_eq!(oop, "ranges/gto/rfi/UTG_RFI_vs_BTN_cold_call/utg.txt");
    assert_eq!(ip, "ranges/gto/rfi/UTG_RFI_vs_BTN_cold_call/btn.txt");
    assert_eq!((pot, stack), (550, 9750));
    let (oop, ip, _, _) = parse_scenario("BTN_3bet_vs_CO_call").unwrap();
    assert_eq!(oop, "ranges/gto/3bet/BTN_3bet_vs_CO_call/co.txt");
    assert_eq!(ip, "ranges/gto/3bet/BTN_3bet_vs_CO_call/btn.txt");
    let (oop, ip, pot, stack) = parse_scenario("UTG_4bet_vs_BB_call").unwrap();
    assert_eq!(oop, "ranges/gto/4bet/UTG_4bet_vs_BB_call/bb.txt");
    assert_eq!(ip, "ranges/gto/4bet/UTG_4bet_vs_BB_call/utg.txt");
    assert_eq!((pot, stack), (5100, 4900));
    let (oop, ip, _, _) = parse_scenario("SB_RFI_vs_BB_defend").unwrap();
    assert_eq!(oop, "ranges/gto/rfi/SB_RFI_vs_BB_defend/sb.txt");
    assert_eq!(ip, "ranges/gto/rfi/SB_RFI_vs_BB_defend/bb.txt");
}
