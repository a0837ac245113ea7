//! The commands of the interactive tree explorers: what a typed line asks for.
use vstd::prelude::*;

use crate::text::{chars_of, replace_all, replace_text, string_of, trim, trim_chars};

verus! {

/// Whether a character is an ASCII decimal digit.
pub open spec fn is_digit(c: char) -> bool {
    '0' <= c <= '9'
}

/// The value of a string of decimal digits.
pub open spec fn digits_value(d: Seq<char>) -> nat
    decreases d.len(),
{
    if d.len() == 0 {
        0
    } else {
        digits_value(d.drop_last()) * 10 + ((d.last() as u32) - ('0' as u32)) as nat
    }
}

/// A text without its leading `+`, if it has one.
pub open spec fn unsigned_part(s: Seq<char>) -> Seq<char> {
    if s.len() > 0 && s[0] == '+' {
        s.skip(1)
    } else {
        s
    }
}

/// What `str::parse::<usize>` gives, as its documentation describes it: an optional `+`
/// followed by at least one decimal digit, and nothing else, whose value fits in a `usize`.
pub open spec fn parsed_usize(s: Seq<char>) -> Option<usize> {
    let d = unsigned_part(s);
    if d.len() > 0 && (forall|i: int| 0 <= i < d.len() ==> is_digit(#[trigger] d[i]))
        && digits_value(d) <= usize::MAX {
        Some(digits_value(d) as usize)
    } else {
        None
    }
}

/// Appending a digit to digits multiplies their value by ten and adds the digit.
proof fn lemma_digits_push(d: Seq<char>, k: int)
    requires
        0 <= k < d.len(),
    ensures
        digits_value(d.take(k + 1)) == digits_value(d.take(k)) * 10 + ((d[k] as u32) - ('0' as u32)) as nat,
{
    assert(d.take(k + 1).drop_last() =~= d.take(k));
}

/// The value of digits is at least that of any of their beginnings.
proof fn lemma_digits_grow(d: Seq<char>, k: int)
    requires
        0 <= k <= d.len(),
        forall|i: int| 0 <= i < d.len() ==> is_digit(#[trigger] d[i]),
    ensures
        digits_value(d.take(k)) <= digits_value(d),
    decreases d.len() - k,
{
    if k < d.len() {
        lemma_digits_push(d, k);
        lemma_digits_grow(d, k + 1);
        assert(d.take(d.len() as int) =~= d);
    } else {
        assert(d.take(k) =~= d);
    }
}

/// Reads a number as `str::parse::<usize>` does: an optional `+` followed by at least one
/// decimal digit and nothing else, whose value fits in a `usize`.
fn parse_usize(s: &str) -> (r: Option<usize>)
    ensures
        r == parsed_usize(s@),
{
    let chars = chars_of(s);
    let start: usize = if chars.len() > 0 && chars[0] == '+' {
        1
    } else {
        0
    };
    let ghost d = chars@.skip(start as int);
    assert(d =~= unsigned_part(s@));
    if start >= chars.len() {
        return None;
    }
    let mut value: usize = 0;
    let mut i: usize = start;
    assert(d.take(0) =~= Seq::<char>::empty());
    while i < chars.len()
        invariant
            start <= i <= chars@.len(),
            d == chars@.skip(start as int),
            d == unsigned_part(s@),
            forall|k: int| 0 <= k < i - start ==> is_digit(#[trigger] d[k]),
            value == digits_value(d.take(i - start)),
        decreases chars.len() - i,
    {
        let c = chars[i];
        assert(d[i - start] == c);
        if !('0' <= c && c <= '9') {
            assert(!is_digit(d[i - start]));
            return None;
        }
        proof {
            lemma_digits_push(d, i - start);
        }
        let digit = ((c as u32) - ('0' as u32)) as usize;
        let grown = match value.checked_mul(10) {
            Some(t) => t.checked_add(digit),
            None => None,
        };
        match grown {
            Some(v) => {
                value = v;
            },
            None => {
                assert(value * 10 + digit > usize::MAX);
                assert(digits_value(d.take(i - start + 1)) > usize::MAX);
                proof {
                    if forall|k: int| 0 <= k < d.len() ==> is_digit(#[trigger] d[k]) {
                        lemma_digits_grow(d, i - start + 1);
                    }
                }
                return None;
            },
        }
        i = i + 1;
    }
    assert(d.take(d.len() as int) =~= d);
    Some(value)
}

/// Whether a text equals a literal.
fn is_text(s: &String, literal: &str) -> (b: bool)
    ensures
        b == (s@ == literal@),
{
    let l = literal.to_owned();
    *s == l
}

/// What a line typed at a node of the explorer asks for.
#[derive(Debug, Clone, Copy, PartialEq, Eq, Structural)]
pub enum NavCommand {
    /// Leave the explorer.
    Quit,
    /// Go back to the root of the tree.
    Restart,
    /// Take the action with this (0-based) index.
    Play(usize),
    /// A number that names no action.
    OutOfRange,
    /// Neither a command nor a number.
    NotANumber,
}

/// What a typed line asks for at a node offering `num_actions` actions: after trimming,
/// `q` quits and `r` restarts (and, with `long_words`, also `quit` and `restart`);
/// a number from 1 to `num_actions` takes that action.
pub open spec fn command_of(line: Seq<char>, num_actions: usize, long_words: bool) -> NavCommand {
    let t = trim(line);
    if t == "q"@ || (long_words && t == "quit"@) {
        NavCommand::Quit
    } else if t == "r"@ || (long_words && t == "restart"@) {
        NavCommand::Restart
    } else {
        match parsed_usize(t) {
            Some(choice) => if choice > 0 && choice <= num_actions {
                NavCommand::Play((choice - 1) as usize)
            } else {
                NavCommand::OutOfRange
            },
            None => NavCommand::NotANumber,
        }
    }
}

/// Reads a typed line at a node offering `num_actions` actions.
pub fn navigation_command(line: &str, num_actions: usize, long_words: bool) -> (c: NavCommand)
    ensures
        c == command_of(line@, num_actions, long_words),
{
    let t = string_of(trim_chars(&chars_of(line)).as_slice());
    if is_text(&t, "q") || (long_words && is_text(&t, "quit")) {
        NavCommand::Quit
    } else if is_text(&t, "r") || (long_words && is_text(&t, "restart")) {
        NavCommand::Restart
    } else {
        match parse_usize(t.as_str()) {
            Some(choice) => if choice > 0 && choice <= num_actions {
                NavCommand::Play(choice - 1)
            } else {
                NavCommand::OutOfRange
            },
            None => NavCommand::NotANumber,
        }
    }
}

/// The hand that a typed line selects from a list of `num_hands` hands, counted from 1:
/// a number picks that hand (0 counts as 1, numbers past the end pick the last hand),
/// anything else picks the first.
pub open spec fn selected_hand(line: Seq<char>, num_hands: usize) -> usize {
    let picked: int = match parsed_usize(trim(line)) {
        Some(n) => if n > 0 {
            n - 1
        } else {
            0
        },
        None => 0,
    };
    if picked < num_hands - 1 {
        picked as usize
    } else {
        (num_hands - 1) as usize
    }
}

/// The (0-based) index of the hand that a typed line selects.
pub fn select_hand(line: &str, num_hands: usize) -> (i: usize)
    requires
        num_hands > 0,
    ensures
        i == selected_hand(line@, num_hands),
        i < num_hands,
{
    let t = string_of(trim_chars(&chars_of(line)).as_slice());
    let picked = match parse_usize(t.as_str()) {
        Some(n) => n.saturating_sub(1),
        None => 0,
    };
    if picked < num_hands - 1 {
        picked
    } else {
        num_hands - 1
    }
}

/// What a line typed at the explorer's seat question chooses: `2` is the IP seat
/// (player 1), anything else the OOP seat (player 0).
pub fn explorer_seat(line: &str) -> (player: usize)
    ensures
        player == (if trim(line@) == "2"@ {
            1usize
        } else {
            0usize
        }),
{
    let t = string_of(trim_chars(&chars_of(line)).as_slice());
    if is_text(&t, "2") {
        1
    } else {
        0
    }
}

/// What a line typed at the position menu asks for.
#[derive(Debug, Clone, Copy, PartialEq, Eq, Structural)]
pub enum SeatChoice {
    Quit,
    /// Play as this player: 1 is BTN (in position), 0 is BB (out of position).
    Player(usize),
    Invalid,
}

/// The position menu: after trimming, `q` or `quit` quits, `1` is BTN (player 1),
/// `2` is BB (player 0).
pub open spec fn seat_choice_of(line: Seq<char>) -> SeatChoice {
    let t = trim(line);
    if t == "q"@ || t == "quit"@ {
        SeatChoice::Quit
    } else if t == "1"@ {
        SeatChoice::Player(1)
    } else if t == "2"@ {
        SeatChoice::Player(0)
    } else {
        SeatChoice::Invalid
    }
}

/// Reads a line typed at the position menu.
pub fn seat_menu(line: &str) -> (c: SeatChoice)
    ensures
        c == seat_choice_of(line@),
{
    let t = string_of(trim_chars(&chars_of(line)).as_slice());
    if is_text(&t, "q") || is_text(&t, "quit") {
        SeatChoice::Quit
    } else if is_text(&t, "1") {
        SeatChoice::Player(1)
    } else if is_text(&t, "2") {
        SeatChoice::Player(0)
    } else {
        SeatChoice::Invalid
    }
}

/// What a line typed after a hand query asks for.
#[derive(Debug, Clone, Copy, PartialEq, Eq, Structural)]
pub enum QueryChoice {
    Quit,
    Navigate,
    Again,
}

/// After a hand query, after trimming: `q` quits, `2` walks the tree, anything else asks again.
pub fn query_menu(line: &str) -> (c: QueryChoice)
    ensures
        c == (if trim(line@) == "q"@ {
            QueryChoice::Quit
        } else if trim(line@) == "2"@ {
            QueryChoice::Navigate
        } else {
            QueryChoice::Again
        }),
{
    let t = string_of(trim_chars(&chars_of(line)).as_slice());
    if is_text(&t, "q") {
        QueryChoice::Quit
    } else if is_text(&t, "2") {
        QueryChoice::Navigate
    } else {
        QueryChoice::Again
    }
}

/// Typed hole cards with surrounding whitespace trimmed and every space removed,
/// so that `Ah Ks` reads as `AhKs`.
pub fn clean_hole_cards(line: &str) -> (r: String)
    ensures
        r@ == replace_text(trim(line@), " "@, ""@),
{
    let t = trim_chars(&chars_of(line));
    let space = chars_of(" ");
    let empty: Vec<char> = Vec::new();
    proof {
        reveal_strlit(" ");
        reveal_strlit("");
    }
    assert(empty@ =~= ""@);
    let cleaned = replace_all(&t, &space, &empty);
    string_of(cleaned.as_slice())
}

/// Reading decimal numbers: a single digit reads as its value, a `+` in front changes
/// nothing, and writing one more digit after a number multiplies it by ten and adds the
/// digit (when the result fits in a `usize`); a text with a character that is no digit, or
/// with no digit, reads as nothing.
pub proof fn lemma_parsed_usize_digits(d: Seq<char>, c: char, v: usize)
    requires
        is_digit(c),
    ensures
        parsed_usize(seq![c]) == Some(((c as u32) - ('0' as u32)) as usize),
        parsed_usize(d) == Some(v) && d[0] != '+' ==> parsed_usize(seq!['+'] + d) == Some(v),
        parsed_usize(d) == Some(v) && d[0] != '+' && v * 10 + ((c as u32) - ('0' as u32))
            <= usize::MAX ==> parsed_usize(d.push(c)) == Some(
            (v * 10 + ((c as u32) - ('0' as u32))) as usize,
        ),
        (exists|i: int| 0 <= i < d.len() && d[i] != '+' && !is_digit(#[trigger] d[i]))
            ==> parsed_usize(d) is None,
        parsed_usize(Seq::<char>::empty()) is None,
        parsed_usize(seq!['+']) is None,
{
    assert(seq![c].drop_last() =~= Seq::<char>::empty());
    assert((seq!['+'] + d).skip(1) =~= d);
    if parsed_usize(d) == Some(v) && d[0] != '+' {
        assert(unsigned_part(d) == d);
        assert(d.push(c).drop_last() =~= d);
        assert(unsigned_part(d.push(c)) =~= d.push(c));
        assert forall|i: int| 0 <= i < d.push(c).len() implies is_digit(#[trigger] d.push(c)[i]) by {
            if i < d.len() {
                assert(d.push(c)[i] == d[i]);
            }
        }
    }
    if exists|i: int| 0 <= i < d.len() && d[i] != '+' && !is_digit(#[trigger] d[i]) {
        let i = choose|i: int| 0 <= i < d.len() && d[i] != '+' && !is_digit(#[trigger] d[i]);
        if d.len() > 0 && d[0] == '+' {
            assert(unsigned_part(d)[i - 1] == d[i]);
        }
    }
    assert(seq!['+'].skip(1) =~= Seq::<char>::empty());
}

/// Which hand a typed number selects among `num_hands` hands: the number `k` picks hand
/// `k - 1` (counting from 0) while there is one, 0 counts as 1, numbers past the end pick
/// the last hand, and a line that is no number picks the first.
pub proof fn lemma_selected_hand(line: Seq<char>, num_hands: usize, k: usize)
    requires
        num_hands > 0,
    ensures
        parsed_usize(trim(line)) == Some(k) && 1 <= k <= num_hands ==> selected_hand(line, num_hands)
            == k - 1,
        parsed_usize(trim(line)) == Some(k) && k > num_hands ==> selected_hand(line, num_hands)
            == num_hands - 1,
        parsed_usize(trim(line)) == Some(0usize) ==> selected_hand(line, num_hands) == 0,
        parsed_usize(trim(line)) is None ==> selected_hand(line, num_hands) == 0,
{
}

} // verus!
