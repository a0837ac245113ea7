use solver::navigation::{
    clean_hole_cards, explorer_seat, navigation_command, seat_menu, select_hand, NavCommand,
    SeatChoice,
};

#[test]
fn commands_at_a_node() {
    assert_eq!(navigation_command("q\n", 3, false), NavCommand::Quit);
    assert_eq!(navigation_command(" r ", 3, false), NavCommand::Restart);
    assert_eq!(navigation_command("quit", 3, false), NavCommand::NotANumber);
    assert_eq!(navigation_command("quit", 3, true), NavCommand::Quit);
    assert_eq!(navigation_command("restart\n", 3, true), NavCommand::Restart);
    assert_eq!(navigation_command("2\n", 3, false), NavCommand::Play(1));
    assert_eq!(navigation_command("+3", 3, false), NavCommand::Play(2));
    assert_eq!(navigation_command("0", 3, false), NavCommand::OutOfRange);
    assert_eq!(navigation_command("4", 3, false), NavCommand::OutOfRange);
    assert_eq!(navigation_command("-1", 3, false), NavCommand::NotANumber);
    assert_eq!(navigation_command("x", 3, false), NavCommand::NotANumber);
    assert_eq!(navigation_command("", 3, false), NavCommand::NotANumber);
    assert_eq!(navigation_command("99999999999999999999999", 3, false), NavCommand::NotANumber);
}

#[test]
fn hand_selection_is_clamped() {
    assert_eq!(select_hand("5\n", 10), 4);
    assert_eq!(select_hand("0", 10), 0);
    assert_eq!(select_hand("99", 10), 9);
    assert_eq!(select_hand("abc", 10), 0);
    assert_eq!(select_hand("1", 1), 0);
}

#[test]
fn seats() {
    assert_eq!(explorer_seat("2\n"), 1);
    assert_eq!(explorer_seat("1"), 0);
    assert_eq!(explorer_seat(""), 0);
    assert_eq!(seat_menu(" 1 "), SeatChoice::Player(1));
    assert_eq!(seat_menu("2"), SeatChoice::Player(0));
    assert_eq!(seat_menu("quit"), SeatChoice::Quit);
    assert_eq!(seat_menu("q"), SeatChoice::Quit);
    assert_eq!(seat_menu("3"), SeatChoice::Invalid);
}

#[test]
fn hole_cards_lose_spaces() {
    assert_eq!(clean_hole_cards("  Ah Ks \n"), "AhKs");
    assert_eq!(clean_hole_cards("AhKs"), "AhKs");
    assert_eq!(clean_hole_cards(" A h  K s"), "AhKs");
}

#[test]
fn menu_after_a_query() {
    use_menu();
}

fn use_menu() {
    assert_eq!(solver::navigation::query_menu("q\n"), solver::navigation::QueryChoice::Quit);
    assert_eq!(solver::navigation::query_menu(" 2 "), solver::navigation::QueryChoice::Navigate);
    assert_eq!(solver::navigation::query_menu("1"), solver::navigation::QueryChoice::Again);
    assert_eq!(solver::navigation::query_menu("quit"), solver::navigation::QueryChoice::Again);
}
