//! Preflop scenarios: which range files a scenario name points to, and its pot and stack.
//!
//! A scenario is named after its preflop action, e.g. `BTN_RFI_vs_BB_defend`,
//! `CO_RFI_vs_BTN_cold_call`, `SB_3bet_vs_BTN_call` or `UTG_4bet_vs_MP_call`.
use vstd::prelude::*;
use vstd::string::StringExecFns;

use crate::text::{
    chars_of,
    contains_text,
    copy_range,
    occurs_at,
    find_text_from,
    first_occurrence,
    lemma_find_from,
    lemma_replace_keeps_ascii,
    replace_all,
    replace_text,
    string_of,
    text_at,
};

verus! {

/// The lowercase form that `str::to_lowercase` gives of a text.
pub uninterp spec fn lowercase_text(s: Seq<char>) -> Seq<char>;

/// ASCII lowercase of one character: `A`..`Z` to `a`..`z`, anything else unchanged.
pub open spec fn ascii_lower(c: char) -> char {
    if 'A' <= c <= 'Z' {
        ((c as u32) + 32) as char
    } else {
        c
    }
}

/// Trusted: `str::to_lowercase`. The result is `lowercase_text` of the text. On ASCII
/// text, as its documentation says, each of `A`..`Z` becomes `a`..`z` and every other
/// character stays; what it does to other characters is left to the name.
#[verifier::external_body]
fn to_lowercase(s: &str) -> (r: String)
    ensures
        r@ == lowercase_text(s@),
        vstd::string::is_ascii(s) ==> r@ == s@.map_values(|c: char| ascii_lower(c)),
{
    s.to_lowercase()
}

/// The text before the first occurrence of `sep` in `s`.
pub open spec fn first_piece(s: Seq<char>, sep: Seq<char>) -> Seq<char> {
    s.take(first_occurrence(s, sep)->0 as int)
}

/// The text between the first and the second occurrence of `sep` in `s`
/// (or up to the end when `sep` occurs once): the second piece of `s.split(sep)`.
pub open spec fn second_piece(s: Seq<char>, sep: Seq<char>) -> Seq<char> {
    let rest = s.skip((first_occurrence(s, sep)->0 + sep.len()) as int);
    match first_occurrence(rest, sep) {
        Some(j) => rest.take(j as int),
        None => rest,
    }
}

/// The path of a range file, given the player's name already lowercased:
/// `ranges/gto/<kind>/<scenario>/<lowered>.txt`.
pub open spec fn path_of(kind: Seq<char>, scenario: Seq<char>, lowered: Seq<char>) -> Seq<char> {
    "ranges/gto"@ + "/"@ + kind + "/"@ + scenario + "/"@ + lowered + ".txt"@
}

/// The path of a range file: `ranges/gto/<kind>/<scenario>/<lowercase player>.txt`.
pub open spec fn range_path(kind: Seq<char>, scenario: Seq<char>, player: Seq<char>) -> Seq<char> {
    path_of(kind, scenario, lowercase_text(player))
}

/// The ASCII lowercase form of a text.
pub open spec fn ascii_lowercase(s: Seq<char>) -> Seq<char> {
    s.map_values(|c: char| ascii_lower(c))
}

/// Where a seat acts after the flop: the small blind first, then the big blind, under the
/// gun, middle position, cutoff, and the button last; `None` for a name that is no seat.
pub open spec fn postflop_turn(seat: Seq<char>) -> Option<usize> {
    if seat == "SB"@ {
        Some(0)
    } else if seat == "BB"@ {
        Some(1)
    } else if seat == "UTG"@ {
        Some(2)
    } else if seat == "MP"@ {
        Some(3)
    } else if seat == "CO"@ {
        Some(4)
    } else if seat == "BTN"@ {
        Some(5)
    } else {
        None
    }
}

/// The two players of a scenario, the one out of position first: swapped when both are
/// seats and the second acts first after the flop, else in the order given.
pub open spec fn out_of_position_first(a: Seq<char>, b: Seq<char>) -> (Seq<char>, Seq<char>) {
    match (postflop_turn(a), postflop_turn(b)) {
        (Some(i), Some(j)) => if j < i {
            (b, a)
        } else {
            (a, b)
        },
        _ => (a, b),
    }
}

/// What a scenario name stands for: the kind of its range files, the player out of
/// position, the player in position, the starting pot and the effective stack (in
/// hundredths of a big blind); or the error text.
pub open spec fn scenario_players(s: Seq<char>) -> Result<
    (Seq<char>, Seq<char>, Seq<char>, i32, i32),
    Seq<char>,
> {
    if contains_text(s, "_RFI_vs_"@) && contains_text(s, "_defend"@) {
        let opener = first_piece(s, "_RFI_vs_"@);
        let defender = replace_text(second_piece(s, "_RFI_vs_"@), "_defend"@, ""@);
        let (oop, ip) = out_of_position_first(defender, opener);
        Ok(("rfi"@, oop, ip, 550, 9750))
    } else if contains_text(s, "_RFI_vs_"@) && contains_text(s, "_cold_call"@) {
        let opener = first_piece(s, "_RFI_vs_"@);
        let caller = replace_text(second_piece(s, "_RFI_vs_"@), "_cold_call"@, ""@);
        let (oop, ip) = out_of_position_first(caller, opener);
        Ok(("rfi"@, oop, ip, 550, 9750))
    } else if contains_text(s, "_3bet_vs_"@) && contains_text(s, "_call"@) {
        let threebettor = first_piece(s, "_3bet_vs_"@);
        let caller = replace_text(second_piece(s, "_3bet_vs_"@), "_call"@, ""@);
        let (oop, ip) = out_of_position_first(threebettor, caller);
        Ok(("3bet"@, oop, ip, 2100, 7900))
    } else if contains_text(s, "_4bet_vs_"@) && contains_text(s, "_call"@) {
        let fourbettor = first_piece(s, "_4bet_vs_"@);
        let caller = replace_text(second_piece(s, "_4bet_vs_"@), "_call"@, ""@);
        let (oop, ip) = out_of_position_first(fourbettor, caller);
        Ok(("4bet"@, oop, ip, 5100, 4900))
    } else {
        Err("Unknown scenario format: "@ + s)
    }
}

/// What a scenario name stands for: the range file of the player out of position, that of
/// the player in position, the starting pot and the effective stack; or the error text.
pub open spec fn scenario_setup(s: Seq<char>) -> Result<(Seq<char>, Seq<char>, i32, i32), Seq<char>> {
    match scenario_players(s) {
        Ok((kind, oop, ip, pot, stack)) => Ok(
            (range_path(kind, s, oop), range_path(kind, s, ip), pot, stack),
        ),
        Err(e) => Err(e),
    }
}

/// `scenario_setup` of an ASCII name, where lowercasing is plain ASCII lowercasing.
pub open spec fn ascii_scenario_setup(s: Seq<char>) -> Result<
    (Seq<char>, Seq<char>, i32, i32),
    Seq<char>,
> {
    match scenario_players(s) {
        Ok((kind, oop, ip, pot, stack)) => Ok(
            (
                path_of(kind, s, ascii_lowercase(oop)),
                path_of(kind, s, ascii_lowercase(ip)),
                pot,
                stack,
            ),
        ),
        Err(e) => Err(e),
    }
}

/// The views of the texts in a result of `parse_scenario`.
pub open spec fn setup_view(r: Result<(String, String, i32, i32), String>) -> Result<
    (Seq<char>, Seq<char>, i32, i32),
    Seq<char>,
> {
    match r {
        Ok((oop, ip, pot, stack)) => Ok((oop@, ip@, pot, stack)),
        Err(e) => Err(e@),
    }
}

/// Whether `s` contains `pat`.
fn contains(s: &Vec<char>, pat: &Vec<char>) -> (b: bool)
    ensures
        b == contains_text(s@, pat@),
{
    find_text_from(s, pat, 0).is_some()
}

/// The first two pieces of `s` split at the non-empty separator `sep`, which `s` contains.
fn split_pieces(s: &Vec<char>, sep: &Vec<char>) -> (r: (Vec<char>, Vec<char>))
    requires
        contains_text(s@, sep@),
    ensures
        r.0@ == first_piece(s@, sep@),
        r.1@ == second_piece(s@, sep@),
        vstd::utf8::is_ascii_chars(s@) ==> vstd::utf8::is_ascii_chars(r.0@)
            && vstd::utf8::is_ascii_chars(r.1@),
{
    let first = match find_text_from(s, sep, 0) {
        Some(k) => k,
        None => {
            assert(false);
            0
        },
    };
    proof {
        lemma_find_from(s@, sep@, 0);
    }
    assert(occurs_at(s@, sep@, first as int));
    let head = copy_range(s, 0, first);
    let n = s.len();
    let rest = copy_range(s, first + sep.len(), n);
    assert(rest@ =~= s@.skip(first + sep@.len()));
    assert(head@ =~= first_piece(s@, sep@));
    let second = match find_text_from(&rest, sep, 0) {
        Some(j) => {
            proof {
                lemma_find_from(rest@, sep@, 0);
            }
            copy_range(&rest, 0, j)
        },
        None => rest,
    };
    assert(second@ =~= second_piece(s@, sep@));
    assert(vstd::utf8::is_ascii_chars(s@) ==> vstd::utf8::is_ascii_chars(head@)
        && vstd::utf8::is_ascii_chars(second@)) by {
        if vstd::utf8::is_ascii_chars(s@) {
            assert forall|k: int| 0 <= k < head@.len() implies '\0' <= #[trigger] head@[k] <= '\u{7f}' by {
                assert(head@[k] == s@[k]);
            }
            assert forall|k: int| 0 <= k < second@.len() implies '\0' <= #[trigger] second@[k] <= '\u{7f}' by {
                assert(second@[k] == rest@[k]);
                assert(rest@[k] == s@[first + sep.len() + k]);
            }
        }
    }
    (head, second)
}

/// The path of a range file for a player of a scenario.
fn range_file(kind: &str, scenario: &str, player: &Vec<char>) -> (r: String)
    ensures
        r@ == range_path(kind@, scenario@, player@),
        vstd::utf8::is_ascii_chars(player@) ==> r@ == path_of(
            kind@,
            scenario@,
            ascii_lowercase(player@),
        ),
{
    let player_text = string_of(player.as_slice());
    let lower = to_lowercase(player_text.as_str());
    let mut path = "ranges/gto".to_owned();
    path.append("/");
    path.append(kind);
    path.append("/");
    path.append(scenario);
    path.append("/");
    path.append(lower.as_str());
    path.append(".txt");
    assert(lower@ == ascii_lowercase(player@) ==> path@ == path_of(
        kind@,
        scenario@,
        ascii_lowercase(player@),
    ));
    path
}

/// Whether a text is the word `w`.
fn is_word(s: &Vec<char>, w: &str) -> (b: bool)
    ensures
        b == (s@ == w@),
{
    let v = chars_of(w);
    if s.len() != v.len() {
        return false;
    }
    let b = text_at(s, &v, 0);
    assert(s@.subrange(0, s@.len() as int) =~= s@);
    b
}

/// Where a seat acts after the flop.
fn seat_turn(seat: &Vec<char>) -> (t: Option<usize>)
    ensures
        t == postflop_turn(seat@),
{
    if is_word(seat, "SB") {
        Some(0)
    } else if is_word(seat, "BB") {
        Some(1)
    } else if is_word(seat, "UTG") {
        Some(2)
    } else if is_word(seat, "MP") {
        Some(3)
    } else if is_word(seat, "CO") {
        Some(4)
    } else if is_word(seat, "BTN") {
        Some(5)
    } else {
        None
    }
}

/// The range files of a scenario's two players, given in the order the name gives them,
/// the one out of position first.
fn pair_files(kind: &str, scenario: &str, a: &Vec<char>, b: &Vec<char>) -> (r: (String, String))
    ensures
        ({
            let (oop, ip) = out_of_position_first(a@, b@);
            &&& r.0@ == range_path(kind@, scenario@, oop)
            &&& r.1@ == range_path(kind@, scenario@, ip)
            &&& vstd::utf8::is_ascii_chars(a@) && vstd::utf8::is_ascii_chars(b@) ==> {
                &&& r.0@ == path_of(kind@, scenario@, ascii_lowercase(oop))
                &&& r.1@ == path_of(kind@, scenario@, ascii_lowercase(ip))
            }
        }),
{
    let swap = match (seat_turn(a), seat_turn(b)) {
        (Some(i), Some(j)) => j < i,
        _ => false,
    };
    if swap {
        (range_file(kind, scenario, b), range_file(kind, scenario, a))
    } else {
        (range_file(kind, scenario, a), range_file(kind, scenario, b))
    }
}

/// The range file of the player out of position, that of the player in position, the
/// starting pot and the effective stack of a scenario, or an error for a name that follows
/// none of the known forms.
pub fn parse_scenario(scenario: &str) -> (r: Result<(String, String, i32, i32), String>)
    ensures
        setup_view(r) == scenario_setup(scenario@),
        vstd::string::is_ascii(scenario) ==> setup_view(r) == ascii_scenario_setup(scenario@),
{
    let s = chars_of(scenario);
    let rfi = chars_of("_RFI_vs_");
    let defend = chars_of("_defend");
    let cold_call = chars_of("_cold_call");
    let three_bet = chars_of("_3bet_vs_");
    let four_bet = chars_of("_4bet_vs_");
    let call = chars_of("_call");
    let empty: Vec<char> = Vec::new();
    assert(empty@ =~= ""@) by {
        reveal_strlit("");
    }
    proof {
        reveal_strlit("_defend");
        reveal_strlit("_cold_call");
        reveal_strlit("_call");
        reveal_strlit("rfi");
        reveal_strlit("3bet");
        reveal_strlit("4bet");
        assert(vstd::utf8::is_ascii_chars(empty@));
    }

    // RFI scenarios (pot: 5.5bb, stack: 97.5bb)
    if contains(&s, &rfi) && contains(&s, &defend) {
        let (opener, rest) = split_pieces(&s, &rfi);
        let defender = replace_all(&rest, &defend, &empty);
        proof {
            if vstd::utf8::is_ascii_chars(s@) {
                lemma_replace_keeps_ascii(rest@, defend@, empty@, 0);
            }
        }
        let (oop, ip) = pair_files("rfi", scenario, &defender, &opener);
        return Ok((oop, ip, 550, 9750));
    }
    if contains(&s, &rfi) && contains(&s, &cold_call) {
        let (opener, rest) = split_pieces(&s, &rfi);
        let caller = replace_all(&rest, &cold_call, &empty);
        proof {
            if vstd::utf8::is_ascii_chars(s@) {
                lemma_replace_keeps_ascii(rest@, cold_call@, empty@, 0);
            }
        }
        let (oop, ip) = pair_files("rfi", scenario, &caller, &opener);
        return Ok((oop, ip, 550, 9750));
    }
    // 3bet scenarios (pot: 21bb, stack: 79bb)
    if contains(&s, &three_bet) && contains(&s, &call) {
        let (threebettor, rest) = split_pieces(&s, &three_bet);
        let caller = replace_all(&rest, &call, &empty);
        proof {
            if vstd::utf8::is_ascii_chars(s@) {
                lemma_replace_keeps_ascii(rest@, call@, empty@, 0);
            }
        }
        let (oop, ip) = pair_files("3bet", scenario, &threebettor, &caller);
        return Ok((oop, ip, 2100, 7900));
    }
    // 4bet scenarios (pot: 51bb, stack: 49bb)
    if contains(&s, &four_bet) && contains(&s, &call) {
        let (fourbettor, rest) = split_pieces(&s, &four_bet);
        let caller = replace_all(&rest, &call, &empty);
        proof {
            if vstd::utf8::is_ascii_chars(s@) {
                lemma_replace_keeps_ascii(rest@, call@, empty@, 0);
            }
        }
        let (oop, ip) = pair_files("4bet", scenario, &fourbettor, &caller);
        return Ok((oop, ip, 5100, 4900));
    }
    let mut e = "Unknown scenario format: ".to_owned();
    e.append(scenario);
    Err(e)
}

/// The seats of the table in the order they act after the flop.
pub open spec fn postflop_order() -> Seq<Seq<char>> {
    seq!["SB"@, "BB"@, "UTG"@, "MP"@, "CO"@, "BTN"@]
}

/// Of two seats, the one that acts first after the flop is out of position: for seats
/// listed in the order small blind, big blind, under the gun, middle position, cutoff,
/// button, the earlier one comes first whichever way round the scenario names them.
/// Names that are no seat keep the order the scenario gives them.
pub proof fn lemma_out_of_position_order(i: int, j: int, a: Seq<char>, b: Seq<char>)
    requires
        0 <= i < j < 6,
    ensures
        out_of_position_first(postflop_order()[i], postflop_order()[j]) == (
            postflop_order()[i],
            postflop_order()[j],
        ),
        out_of_position_first(postflop_order()[j], postflop_order()[i]) == (
            postflop_order()[i],
            postflop_order()[j],
        ),
        !postflop_order().contains(a) ==> out_of_position_first(a, b) == (a, b),
        !postflop_order().contains(b) ==> out_of_position_first(a, b) == (a, b),
{
    reveal_strlit("SB");
    reveal_strlit("BB");
    reveal_strlit("UTG");
    reveal_strlit("MP");
    reveal_strlit("CO");
    reveal_strlit("BTN");
    let o = postflop_order();
    assert forall|s: Seq<char>| #[trigger] postflop_turn(s) is Some implies o.contains(s) by {
        if s == "SB"@ {
            assert(o[0] == s);
        } else if s == "BB"@ {
            assert(o[1] == s);
        } else if s == "UTG"@ {
            assert(o[2] == s);
        } else if s == "MP"@ {
            assert(o[3] == s);
        } else if s == "CO"@ {
            assert(o[4] == s);
        } else if s == "BTN"@ {
            assert(o[5] == s);
        }
    }
    assert(o[0][0] == 'S' && o[1][0] == 'B' && o[2][0] == 'U' && o[3][0] == 'M' && o[4][0] == 'C'
        && o[5][0] == 'B');
    assert(o[1].len() == 2 && o[5].len() == 3);
    assert forall|n: int| 0 <= n < 6 implies #[trigger] postflop_turn(o[n]) == Some(n as usize) by {
        assert(o[0] != o[1] && o[0] != o[2] && o[0] != o[3] && o[0] != o[4] && o[0] != o[5]);
        assert(o[1] != o[2] && o[1] != o[3] && o[1] != o[4] && o[1] != o[5]);
        assert(o[2] != o[3] && o[2] != o[4] && o[2] != o[5]);
        assert(o[3] != o[4] && o[3] != o[5]);
        assert(o[4] != o[5]);
    }
    assert(postflop_turn(o[i]) == Some(i as usize));
    assert(postflop_turn(o[j]) == Some(j as usize));
}

} // verus!
