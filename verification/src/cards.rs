//! Card codes as the solver numbers them: `4 * rank + suit`, with ranks
//! `2..A` as `0..12` and suits clubs, diamonds, hearts, spades as `0..3`.
use vstd::prelude::*;

use crate::text::string_of;

verus! {

/// The rank letter of a rank index: `2`..`9`, then `T`, `J`, `Q`, `K`, `A`.
/// Indexes beyond the ace continue the character sequence after `'2'`.
pub open spec fn rank_char(r: u8) -> char {
    if r == 12 {
        'A'
    } else if r == 11 {
        'K'
    } else if r == 10 {
        'Q'
    } else if r == 9 {
        'J'
    } else if r == 8 {
        'T'
    } else {
        ((50 + r) as u8) as char
    }
}

/// The suit letter of a suit index: clubs, diamonds, hearts, spades.
pub open spec fn suit_char(s: u8) -> char {
    if s == 0 {
        'c'
    } else if s == 1 {
        'd'
    } else if s == 2 {
        'h'
    } else {
        's'
    }
}

/// The two-character text of a card code.
pub open spec fn card_text(card: u8) -> Seq<char> {
    seq![rank_char(card / 4), suit_char(card % 4)]
}

/// The rank letter of a rank index, as the solver tools print it.
fn rank_letter(r: u8) -> (c: char)
    requires
        r < 64,
    ensures
        c == rank_char(r),
{
    if r == 12 {
        'A'
    } else if r == 11 {
        'K'
    } else if r == 10 {
        'Q'
    } else if r == 9 {
        'J'
    } else if r == 8 {
        'T'
    } else {
        ((50 + r) as u8) as char
    }
}

/// The suit letter of a suit index below four.
fn suit_letter(s: u8) -> (c: char)
    ensures
        c == suit_char(s),
{
    if s == 0 {
        'c'
    } else if s == 1 {
        'd'
    } else if s == 2 {
        'h'
    } else {
        's'
    }
}

/// The text of a card: its rank letter followed by its suit letter,
/// e.g. `Kh` for the king of hearts (code 46).
pub fn card_to_string(card: u8) -> (s: String)
    ensures
        s@ == card_text(card),
{
    let letters = [rank_letter(card / 4), suit_letter(card % 4)];
    let s = string_of(&letters);
    assert(s@ =~= card_text(card));
    s
}

/// The text of a two-card hand: the text of the first card, then of the second.
pub open spec fn hand_text(c1: u8, c2: u8) -> Seq<char> {
    card_text(c1) + card_text(c2)
}

/// The text of a two-card hand, e.g. `ThJh`.
pub fn hand_to_string(c1: u8, c2: u8) -> (s: String)
    ensures
        s@ == hand_text(c1, c2),
{
    let letters = [rank_letter(c1 / 4), suit_letter(c1 % 4), rank_letter(c2 / 4), suit_letter(c2 % 4)];
    let s = string_of(&letters);
    assert(s@ =~= hand_text(c1, c2));
    s
}

/// The hand `(a, b)` holds the cards `c1` and `c2`, in either order.
pub open spec fn same_hand(h: (u8, u8), c1: u8, c2: u8) -> bool {
    (h.0 == c1 && h.1 == c2) || (h.0 == c2 && h.1 == c1)
}

/// The position of the first hand in `hands` that holds `c1` and `c2` in either order.
pub fn find_hand_index(hands: &Vec<(u8, u8)>, c1: u8, c2: u8) -> (r: Option<usize>)
    ensures
        match r {
            Some(i) => {
                &&& i < hands@.len()
                &&& same_hand(hands@[i as int], c1, c2)
                &&& forall|j: int| 0 <= j < i ==> !same_hand(#[trigger] hands@[j], c1, c2)
            },
            None => forall|j: int| 0 <= j < hands@.len() ==> !same_hand(#[trigger] hands@[j], c1, c2),
        },
{
    let mut i: usize = 0;
    while i < hands.len()
        invariant
            i <= hands@.len(),
            forall|j: int| 0 <= j < i ==> !same_hand(#[trigger] hands@[j], c1, c2),
        decreases hands@.len() - i,
    {
        let h = hands[i];
        if (h.0 == c1 && h.1 == c2) || (h.0 == c2 && h.1 == c1) {
            return Some(i);
        }
        i = i + 1;
    }
    None
}

/// Whether a hand shares a card with the board.
pub fn hand_conflicts(board: &[u8], c1: u8, c2: u8) -> (b: bool)
    ensures
        b == (board@.contains(c1) || board@.contains(c2)),
{
    let mut i: usize = 0;
    while i < board.len()
        invariant
            i <= board@.len(),
            forall|j: int| 0 <= j < i ==> board@[j] != c1 && board@[j] != c2,
        decreases board@.len() - i,
    {
        if board[i] == c1 || board[i] == c2 {
            assert(board@[i as int] == c1 || board@[i as int] == c2);
            return true;
        }
        i = i + 1;
    }
    false
}

/// Whether bit `card` of a mask of possible cards is set.
pub open spec fn card_possible(possible: u64, card: u8) -> bool {
    card < 64 && (possible >> card) & 1 == 1
}

/// The cards below 52 whose bit is set in `possible`, in increasing order.
pub open spec fn dealable_from(possible: u64, from: nat) -> Seq<u8>
    decreases 52 - from,
{
    if from >= 52 {
        Seq::empty()
    } else if card_possible(possible, from as u8) {
        seq![from as u8] + dealable_from(possible, from + 1)
    } else {
        dealable_from(possible, from + 1)
    }
}

/// The cards that a chance node can deal, given its mask of possible cards:
/// those below 52 whose bit is set, in increasing order.
pub fn dealable_cards(possible: u64) -> (cards: Vec<u8>)
    ensures
        cards@ == dealable_from(possible, 0),
{
    let mut cards: Vec<u8> = Vec::new();
    let mut card: u8 = 0;
    while card < 52
        invariant
            card <= 52,
            cards@ + dealable_from(possible, card as nat) == dealable_from(possible, 0),
        decreases 52 - card,
    {
        let set = (possible & (1u64 << card)) != 0;
        assert(set == card_possible(possible, card)) by (bit_vector)
            requires
                card < 52,
                set == ((possible & (1u64 << card)) != 0),
        ;
        if set {
            let ghost before = cards@;
            cards.push(card);
            assert(before + dealable_from(possible, card as nat) =~= cards@ + dealable_from(
                possible,
                (card + 1) as nat,
            ));
        }
        card = card + 1;
    }
    assert(cards@ + Seq::<u8>::empty() =~= cards@);
    cards
}

/// Card texts are distinct for distinct cards of a deck: `card_to_string` tells every
/// one of the 52 cards apart.
pub proof fn lemma_card_text_injective(a: u8, b: u8)
    requires
        a < 52,
        b < 52,
        card_text(a) == card_text(b),
    ensures
        a == b,
{
    assert(card_text(a)[0] == card_text(b)[0]);
    assert(card_text(a)[1] == card_text(b)[1]);
    assert(rank_char(a / 4) == rank_char(b / 4));
    assert(a / 4 == b / 4);
    assert(a % 4 == b % 4);
}

/// Looking a hand up does not depend on the order in which its two cards are given.
pub proof fn lemma_same_hand_symmetric(h: (u8, u8), c1: u8, c2: u8)
    ensures
        same_hand(h, c1, c2) == same_hand(h, c2, c1),
{
}

/// The text of each of the 52 cards: the letter of `23456789TJQKA` at its rank, then the
/// letter of `cdhs` at its suit; and reading the rank letter back gives the rank again.
pub proof fn lemma_card_text_letters(card: u8)
    requires
        card < 52,
    ensures
        card_text(card) == seq!["23456789TJQKA"@[(card / 4) as int], "cdhs"@[(card % 4) as int]],
        crate::flop_similarity::rank_index(card_text(card)[0]) == card / 4,
{
    reveal_strlit("23456789TJQKA");
    reveal_strlit("cdhs");
    let r = card / 4;
    assert(r < 13);
    assert(rank_char(r) == "23456789TJQKA"@[r as int]) by {
        if r < 8 {
            assert(r == 0 || r == 1 || r == 2 || r == 3 || r == 4 || r == 5 || r == 6 || r == 7);
        }
    }
    assert(card_text(card) =~= seq!["23456789TJQKA"@[(card / 4) as int], "cdhs"@[(card % 4) as int]]);
}

} // verus!
