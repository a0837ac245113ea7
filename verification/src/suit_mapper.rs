//! Maps any flop to its canonical representation, spades first.
//!
//! The suits that the flop shows are renamed by how often it shows them:
//! - `KhQd6h` becomes `KsQh6s` (two-tone: h to s, d to h)
//! - `AhKhQh` becomes `AsKsQs` (monotone: h to s)
//! - `As9d3c` becomes `As9h3d` (rainbow: s, h, d in card order)
//!
//! The mapping renames all four suits one-for-one, so that a hand renamed with it keeps
//! its flush draws and stays suited or offsuit. A suit that the flop does not show keeps
//! its letter when no suit of the flop took it, and otherwise takes, in the order s, h,
//! d, c, a letter that the flop left free: on `KhQd6h`, h goes to s, d to h, s to d and
//! c stays c.
use vstd::prelude::*;
use vstd::hash_map::StringHashMap;
use vstd::string::StringExecFns;

use crate::flop_similarity::{pattern_of, SuitPattern};
use crate::text::{chars_of, push_char, string_of};

verus! {

/// A one-letter text.
pub open spec fn letter(c: char) -> Seq<char> {
    seq![c]
}

/// Whether a letter names one of the four suits.
pub open spec fn is_suit(x: char) -> bool {
    x == 's' || x == 'h' || x == 'd' || x == 'c'
}

/// Whether the flop with suits `s1`, `s2`, `s3` shows the suit `x`.
pub open spec fn on_board(s1: char, s2: char, s3: char, x: char) -> bool {
    x == s1 || x == s2 || x == s3
}

/// The suit that a two-tone flop shows twice.
pub open spec fn primary_suit(s1: char, s2: char, s3: char) -> char {
    if s1 == s2 || s1 == s3 {
        s1
    } else {
        s2
    }
}

/// The suit that a two-tone flop shows once.
pub open spec fn secondary_suit(s1: char, s2: char, s3: char) -> char {
    let p = primary_suit(s1, s2, s3);
    if s1 != p {
        s1
    } else if s2 != p {
        s2
    } else {
        s3
    }
}

/// The canonical letter of a suit `x` of the flop with suits `s1`, `s2`, `s3`: monotone,
/// spades; two-tone, the doubled suit to spades and the other to hearts; rainbow, spades,
/// hearts, diamonds in card order.
pub open spec fn canonical_letter(s1: char, s2: char, s3: char, x: char) -> char {
    match pattern_of(s1, s2, s3) {
        SuitPattern::Monotone => 's',
        SuitPattern::TwoTone => if x == primary_suit(s1, s2, s3) {
            's'
        } else {
            'h'
        },
        SuitPattern::Rainbow => if x == s1 {
            's'
        } else if x == s2 {
            'h'
        } else {
            'd'
        },
    }
}

/// Whether some suit of the flop is renamed to the letter `c`.
pub open spec fn taken(s1: char, s2: char, s3: char, c: char) -> bool {
    c == canonical_letter(s1, s2, s3, s1) || c == canonical_letter(s1, s2, s3, s2) || c
        == canonical_letter(s1, s2, s3, s3)
}

/// The suit of the flop that is renamed to the letter `c` (the third one when none is).
pub open spec fn board_preimage(s1: char, s2: char, s3: char, c: char) -> char {
    if canonical_letter(s1, s2, s3, s1) == c {
        s1
    } else if canonical_letter(s1, s2, s3, s2) == c {
        s2
    } else {
        s3
    }
}

/// A suit that the flop does not show, whose letter a suit of the flop took.
pub open spec fn displaced(s1: char, s2: char, s3: char, x: char) -> bool {
    is_suit(x) && !on_board(s1, s2, s3, x) && taken(s1, s2, s3, x)
}

/// A suit that the flop shows, whose letter no suit of the flop took.
pub open spec fn vacated(s1: char, s2: char, s3: char, x: char) -> bool {
    is_suit(x) && on_board(s1, s2, s3, x) && !taken(s1, s2, s3, x)
}

/// `x` alone when `keep` holds, else nothing.
pub open spec fn kept(keep: bool, x: char) -> Seq<char> {
    if keep {
        seq![x]
    } else {
        Seq::empty()
    }
}

/// The displaced suits in the order s, h, d, c.
pub open spec fn displaced_suits(s1: char, s2: char, s3: char) -> Seq<char> {
    kept(displaced(s1, s2, s3, 's'), 's') + kept(displaced(s1, s2, s3, 'h'), 'h') + kept(
        displaced(s1, s2, s3, 'd'),
        'd',
    ) + kept(displaced(s1, s2, s3, 'c'), 'c')
}

/// The vacated suits in the order s, h, d, c.
pub open spec fn vacated_suits(s1: char, s2: char, s3: char) -> Seq<char> {
    kept(vacated(s1, s2, s3, 's'), 's') + kept(vacated(s1, s2, s3, 'h'), 'h') + kept(
        vacated(s1, s2, s3, 'd'),
        'd',
    ) + kept(vacated(s1, s2, s3, 'c'), 'c')
}

/// Pairs the items of `from` with those of `to` by position: the partner of `x`, or `x`
/// itself when it has none.
pub open spec fn partner(from: Seq<char>, to: Seq<char>, x: char) -> char
    decreases from.len(),
{
    if from.len() == 0 || to.len() == 0 {
        x
    } else if from[0] == x {
        to[0]
    } else {
        partner(from.drop_first(), to.drop_first(), x)
    }
}

/// The canonical letter of any letter under the flop with suits `s1`, `s2`, `s3`: a suit of
/// the flop goes to its `canonical_letter`; a displaced suit to the vacated suit of the same
/// position; any other letter stays.
pub open spec fn suit_image(s1: char, s2: char, s3: char, x: char) -> char {
    if on_board(s1, s2, s3, x) {
        canonical_letter(s1, s2, s3, x)
    } else if displaced(s1, s2, s3, x) {
        partner(displaced_suits(s1, s2, s3), vacated_suits(s1, s2, s3), x)
    } else {
        x
    }
}

/// The original letter of a canonical letter: the reverse of `suit_image`.
pub open spec fn suit_preimage(s1: char, s2: char, s3: char, c: char) -> char {
    if taken(s1, s2, s3, c) {
        board_preimage(s1, s2, s3, c)
    } else if vacated(s1, s2, s3, c) {
        partner(vacated_suits(s1, s2, s3), displaced_suits(s1, s2, s3), c)
    } else {
        c
    }
}

/// Where each suit goes: every suit of the flop and every one of the four suits, each to
/// the one-letter text of its `suit_image`.
pub open spec fn to_canonical_suits(s1: char, s2: char, s3: char) -> Map<Seq<char>, Seq<char>> {
    Map::new(
        |k: Seq<char>| k.len() == 1 && (on_board(s1, s2, s3, k[0]) || is_suit(k[0])),
        |k: Seq<char>| letter(suit_image(s1, s2, s3, k[0])),
    )
}

/// Where each canonical suit came from: each of the four suits to the one-letter text of
/// its `suit_preimage`.
pub open spec fn from_canonical_suits(s1: char, s2: char, s3: char) -> Map<Seq<char>, Seq<char>> {
    Map::new(
        |k: Seq<char>| k.len() == 1 && is_suit(k[0]),
        |k: Seq<char>| letter(suit_preimage(s1, s2, s3, k[0])),
    )
}

/// The canonical form of a six-letter flop: ranks kept, each suit replaced by its
/// canonical letter.
pub open spec fn canonical_flop(f: Seq<char>) -> Seq<char> {
    seq![
        f[0],
        canonical_letter(f[1], f[3], f[5], f[1]),
        f[2],
        canonical_letter(f[1], f[3], f[5], f[3]),
        f[4],
        canonical_letter(f[1], f[3], f[5], f[5]),
    ]
}

/// The text of the error for a flop that is not six bytes long.
pub open spec fn invalid_flop_message(flop: Seq<char>) -> Seq<char> {
    "Invalid flop string: "@ + flop
}

/// The views of the values of a map of strings.
pub open spec fn text_values(m: Map<Seq<char>, String>) -> Map<Seq<char>, Seq<char>> {
    m.map_values(|v: String| v@)
}

/// Stores a bidirectional suit mapping.
pub struct SuitMapping {
    pub original_to_canonical: StringHashMap<String>,
    pub canonical_to_original: StringHashMap<String>,
}

impl SuitMapping {
    /// The forward mapping, from original suits to canonical suits.
    pub open spec fn forward(&self) -> Map<Seq<char>, Seq<char>> {
        text_values(self.original_to_canonical@)
    }

    /// The backward mapping, from canonical suits to original suits.
    pub open spec fn backward(&self) -> Map<Seq<char>, Seq<char>> {
        text_values(self.canonical_to_original@)
    }

    /// What `to_canonical` gives for a suit: its image, or the suit itself if it has none.
    pub open spec fn canonical_of(&self, s: Seq<char>) -> Seq<char> {
        if self.forward().contains_key(s) {
            self.forward()[s]
        } else {
            s
        }
    }

    /// What `from_canonical` gives for a suit: its preimage, or the suit itself if it has none.
    pub open spec fn original_of(&self, s: Seq<char>) -> Seq<char> {
        if self.backward().contains_key(s) {
            self.backward()[s]
        } else {
            s
        }
    }

    /// The canonical suit of an original suit; letters that the mapping does not name stay as they are.
    pub fn to_canonical(&self, original_suit: &str) -> (r: String)
        ensures
            r@ == self.canonical_of(original_suit@),
    {
        match self.original_to_canonical.get(original_suit) {
            Some(v) => v.clone(),
            None => original_suit.to_owned(),
        }
    }

    /// The original suit of a canonical suit; letters that the mapping does not name stay as they are.
    pub fn from_canonical(&self, canonical_suit: &str) -> (r: String)
        ensures
            r@ == self.original_of(canonical_suit@),
    {
        match self.canonical_to_original.get(canonical_suit) {
            Some(v) => v.clone(),
            None => canonical_suit.to_owned(),
        }
    }

    /// What `map_hand_to_canonical` gives for a hand's text.
    pub open spec fn canonical_hand(&self, hand: Seq<char>) -> Seq<char> {
        letter(hand[0]) + self.canonical_of(letter(hand[1])) + letter(hand[2]) + self.canonical_of(
            letter(hand[3]),
        )
    }

    /// Maps a hand such as `AhKd` to canonical suits; text that is not four bytes long is returned unchanged.
    pub fn map_hand_to_canonical(&self, hand: &str) -> (r: String)
        requires
            hand.len() == 4 ==> vstd::string::is_ascii(hand),
        ensures
            hand.len() != 4 ==> r@ == hand@,
            hand.len() == 4 ==> r@ == self.canonical_hand(hand@),
    {
        if hand.len() != 4 {
            return hand.to_owned();
        }
        let chars = chars_of(hand);
        proof {
            vstd::string::is_ascii_spec_bytes(hand);
        }
        assert(chars.len() == 4);

        let s1 = self.to_canonical(letter_string(chars[1]).as_str());
        let s2 = self.to_canonical(letter_string(chars[3]).as_str());
        let mut out = String::new();
        push_char(&mut out, chars[0]);
        out.append(s1.as_str());
        push_char(&mut out, chars[2]);
        out.append(s2.as_str());
        assert(out@ =~= self.canonical_hand(hand@));
        out
    }
}

/// A string of one character.
fn letter_string(c: char) -> (s: String)
    ensures
        s@ == letter(c),
{
    let a = [c];
    let s = string_of(&a);
    assert(s@ =~= letter(c));
    s
}

/// Adds the entry `k` to `v`, both one-letter strings, to a map of strings.
fn insert_letters(m: &mut StringHashMap<String>, k: char, v: char)
    ensures
        text_values(final(m)@) == text_values(old(m)@).insert(letter(k), letter(v)),
{
    let ks = letter_string(k);
    let vs = letter_string(v);
    m.insert(ks, vs);
    assert(text_values(m@) =~= text_values(old(m)@).insert(letter(k), letter(v)));
}

/// The canonical letter of a suit of the flop.
fn board_letter(s1: char, s2: char, s3: char, x: char) -> (c: char)
    ensures
        c == canonical_letter(s1, s2, s3, x),
{
    if s1 == s2 && s2 == s3 {
        // Monotone - all to spades
        's'
    } else if s1 == s2 || s2 == s3 || s1 == s3 {
        // Two-tone - primary to spades, secondary to hearts
        let primary = if s1 == s2 || s1 == s3 {
            s1
        } else {
            s2
        };
        if x == primary {
            's'
        } else {
            'h'
        }
    } else if x == s1 {
        // Rainbow - spades, hearts, diamonds in card order
        's'
    } else if x == s2 {
        'h'
    } else {
        'd'
    }
}

/// Whether a letter is vacated (with `want_vacated`) or displaced (without).
fn is_listed(s1: char, s2: char, s3: char, want_vacated: bool, x: char) -> (b: bool)
    ensures
        b == if want_vacated {
            vacated(s1, s2, s3, x)
        } else {
            displaced(s1, s2, s3, x)
        },
{
    let suit = x == 's' || x == 'h' || x == 'd' || x == 'c';
    let shown = x == s1 || x == s2 || x == s3;
    let took = x == board_letter(s1, s2, s3, s1) || x == board_letter(s1, s2, s3, s2) || x
        == board_letter(s1, s2, s3, s3);
    if want_vacated {
        suit && shown && !took
    } else {
        suit && !shown && took
    }
}

/// The vacated suits (with `want_vacated`) or the displaced suits (without), in the order
/// s, h, d, c.
fn listed_suits(s1: char, s2: char, s3: char, want_vacated: bool) -> (r: Vec<char>)
    ensures
        r@ == if want_vacated {
            vacated_suits(s1, s2, s3)
        } else {
            displaced_suits(s1, s2, s3)
        },
{
    let mut r: Vec<char> = Vec::new();
    let ghost pick = |x: char|
        if want_vacated {
            vacated(s1, s2, s3, x)
        } else {
            displaced(s1, s2, s3, x)
        };
    if is_listed(s1, s2, s3, want_vacated, 's') {
        r.push('s');
    }
    assert(r@ =~= kept(pick('s'), 's'));
    if is_listed(s1, s2, s3, want_vacated, 'h') {
        r.push('h');
    }
    assert(r@ =~= kept(pick('s'), 's') + kept(pick('h'), 'h'));
    if is_listed(s1, s2, s3, want_vacated, 'd') {
        r.push('d');
    }
    assert(r@ =~= kept(pick('s'), 's') + kept(pick('h'), 'h') + kept(pick('d'), 'd'));
    if is_listed(s1, s2, s3, want_vacated, 'c') {
        r.push('c');
    }
    assert(r@ =~= kept(pick('s'), 's') + kept(pick('h'), 'h') + kept(pick('d'), 'd') + kept(
        pick('c'),
        'c',
    ));
    r
}

/// The partner of `x` when the items of `from` and `to` are paired by position.
fn partner_in(from: &Vec<char>, to: &Vec<char>, x: char) -> (r: char)
    ensures
        r == partner(from@, to@, x),
{
    let mut i: usize = 0;
    assert(from@.skip(0) =~= from@);
    assert(to@.skip(0) =~= to@);
    while i < from.len() && i < to.len()
        invariant
            i <= from@.len(),
            i <= to@.len(),
            partner(from@, to@, x) == partner(from@.skip(i as int), to@.skip(i as int), x),
        decreases from@.len() - i,
    {
        if from[i] == x {
            return to[i];
        }
        assert(from@.skip(i as int).drop_first() =~= from@.skip(i + 1));
        assert(to@.skip(i as int).drop_first() =~= to@.skip(i + 1));
        i = i + 1;
    }
    x
}

/// Whether a text of one letter is the text of `x`.
proof fn lemma_letter_of(k: Seq<char>, x: char)
    requires
        k.len() == 1,
    ensures
        (k == letter(x)) == (k[0] == x),
{
    if k[0] == x {
        assert(k =~= letter(x));
    }
}

/// A map of strings whose keys are the one-letter texts of the first `n` letters of `keys`,
/// each to the one-letter text of `f` of it.
pub open spec fn letters_map(keys: Seq<char>, n: int, f: spec_fn(char) -> char) -> Map<
    Seq<char>,
    Seq<char>,
> {
    Map::new(
        |k: Seq<char>| k.len() == 1 && keys.take(n).contains(k[0]),
        |k: Seq<char>| letter(f(k[0])),
    )
}

/// Adding the next letter of `keys` to a `letters_map`.
proof fn lemma_letters_map_step(keys: Seq<char>, n: int, f: spec_fn(char) -> char)
    requires
        0 <= n < keys.len(),
    ensures
        letters_map(keys, n + 1, f) == letters_map(keys, n, f).insert(
            letter(keys[n]),
            letter(f(keys[n])),
        ),
{
    assert(keys.take(n + 1) =~= keys.take(n).push(keys[n]));
    assert forall|k: Seq<char>|
        #![auto]
        k.len() == 1 ==> (keys.take(n + 1).contains(k[0]) == (keys.take(n).contains(k[0]) || k
            == letter(keys[n]))) by {
        if k.len() == 1 {
            lemma_letter_of(k, keys[n]);
            if keys.take(n).contains(k[0]) {
                let j = choose|j: int| 0 <= j < n && keys.take(n)[j] == k[0];
                assert(keys.take(n + 1)[j] == k[0]);
            }
            if k[0] == keys[n] {
                assert(keys.take(n + 1)[n] == k[0]);
            }
        }
    }
    assert(letters_map(keys, n + 1, f) =~= letters_map(keys, n, f).insert(
        letter(keys[n]),
        letter(f(keys[n])),
    ));
}

/// The two maps of a flop's suit mapping, forward then backward.
fn suit_maps(s1: char, s2: char, s3: char) -> (r: (StringHashMap<String>, StringHashMap<String>))
    ensures
        text_values(r.0@) == to_canonical_suits(s1, s2, s3),
        text_values(r.1@) == from_canonical_suits(s1, s2, s3),
{
    let displaced_list = listed_suits(s1, s2, s3, false);
    let vacated_list = listed_suits(s1, s2, s3, true);
    let ghost image = |x: char| suit_image(s1, s2, s3, x);
    let ghost preimage = |c: char| suit_preimage(s1, s2, s3, c);

    // Every suit of the flop and every one of the four suits goes somewhere.
    let keys = [s1, s2, s3, 's', 'h', 'd', 'c'];
    let mut forward = StringHashMap::new();
    assert(text_values(forward@) =~= letters_map(keys@, 0, image));
    let mut i: usize = 0;
    while i < 7
        invariant
            i <= 7,
            keys@ == seq![s1, s2, s3, 's', 'h', 'd', 'c'],
            displaced_list@ == displaced_suits(s1, s2, s3),
            vacated_list@ == vacated_suits(s1, s2, s3),
            forall|x: char| #[trigger] image(x) == suit_image(s1, s2, s3, x),
            text_values(forward@) == letters_map(keys@, i as int, image),
        decreases 7 - i,
    {
        let x = keys[i];
        let y = if x == s1 || x == s2 || x == s3 {
            board_letter(s1, s2, s3, x)
        } else if is_listed(s1, s2, s3, false, x) {
            partner_in(&displaced_list, &vacated_list, x)
        } else {
            x
        };
        assert(y == image(x));
        insert_letters(&mut forward, x, y);
        proof {
            lemma_letters_map_step(keys@, i as int, image);
        }
        i = i + 1;
    }

    // Each of the four suits comes from somewhere.
    let canon = ['s', 'h', 'd', 'c'];
    let mut backward = StringHashMap::new();
    assert(text_values(backward@) =~= letters_map(canon@, 0, preimage));
    let mut j: usize = 0;
    while j < 4
        invariant
            j <= 4,
            canon@ == seq!['s', 'h', 'd', 'c'],
            displaced_list@ == displaced_suits(s1, s2, s3),
            vacated_list@ == vacated_suits(s1, s2, s3),
            forall|c: char| #[trigger] preimage(c) == suit_preimage(s1, s2, s3, c),
            text_values(backward@) == letters_map(canon@, j as int, preimage),
        decreases 4 - j,
    {
        let c = canon[j];
        let took = c == board_letter(s1, s2, s3, s1) || c == board_letter(s1, s2, s3, s2) || c
            == board_letter(s1, s2, s3, s3);
        let y = if took {
            if board_letter(s1, s2, s3, s1) == c {
                s1
            } else if board_letter(s1, s2, s3, s2) == c {
                s2
            } else {
                s3
            }
        } else if is_listed(s1, s2, s3, true, c) {
            partner_in(&vacated_list, &displaced_list, c)
        } else {
            c
        };
        assert(y == preimage(c));
        insert_letters(&mut backward, c, y);
        proof {
            lemma_letters_map_step(canon@, j as int, preimage);
        }
        j = j + 1;
    }

    proof {
        assert(keys@.take(7) =~= keys@);
        assert(canon@.take(4) =~= canon@);
        assert forall|x: char| keys@.contains(x) == (on_board(s1, s2, s3, x) || is_suit(x)) by {
            if x == s1 {
                assert(keys@[0] == x);
            } else if x == s2 {
                assert(keys@[1] == x);
            } else if x == s3 {
                assert(keys@[2] == x);
            } else if x == 's' {
                assert(keys@[3] == x);
            } else if x == 'h' {
                assert(keys@[4] == x);
            } else if x == 'd' {
                assert(keys@[5] == x);
            } else if x == 'c' {
                assert(keys@[6] == x);
            }
        }
        assert forall|x: char| canon@.contains(x) == is_suit(x) by {
            if x == 's' {
                assert(canon@[0] == x);
            } else if x == 'h' {
                assert(canon@[1] == x);
            } else if x == 'd' {
                assert(canon@[2] == x);
            } else if x == 'c' {
                assert(canon@[3] == x);
            }
        }
    }
    assert(text_values(forward@) =~= to_canonical_suits(s1, s2, s3));
    assert(text_values(backward@) =~= from_canonical_suits(s1, s2, s3));
    (forward, backward)
}

/// Maps a flop such as `KhQd6h` to its canonical form (`KsQh6s`) and the suit mapping used.
/// A flop whose text is not six bytes long is refused.
pub fn map_to_canonical(flop_str: &str) -> (res: Result<(String, SuitMapping), String>)
    requires
        flop_str.len() == 6 ==> vstd::string::is_ascii(flop_str),
    ensures
        match res {
            Ok((canonical, mapping)) => {
                &&& flop_str.len() == 6
                &&& canonical@ == canonical_flop(flop_str@)
                &&& mapping.forward() == to_canonical_suits(flop_str@[1], flop_str@[3], flop_str@[5])
                &&& mapping.backward() == from_canonical_suits(
                    flop_str@[1],
                    flop_str@[3],
                    flop_str@[5],
                )
            },
            Err(e) => flop_str.len() != 6 && e@ == invalid_flop_message(flop_str@),
        },
{
    if flop_str.len() != 6 {
        let mut e = "Invalid flop string: ".to_owned();
        e.append(flop_str);
        return Err(e);
    }
    let chars = chars_of(flop_str);
    proof {
        vstd::string::is_ascii_spec_bytes(flop_str);
    }
    assert(chars.len() == 6);

    let r1 = chars[0];
    let s1 = chars[1];
    let r2 = chars[2];
    let s2 = chars[3];
    let r3 = chars[4];
    let s3 = chars[5];

    let (forward, backward) = suit_maps(s1, s2, s3);
    let suit_map = SuitMapping { original_to_canonical: forward, canonical_to_original: backward };

    // Apply mapping to create canonical flop
    let canonical_s1 = suit_map.to_canonical(letter_string(s1).as_str());
    let canonical_s2 = suit_map.to_canonical(letter_string(s2).as_str());
    let canonical_s3 = suit_map.to_canonical(letter_string(s3).as_str());

    let mut canonical_flop_str = String::new();
    push_char(&mut canonical_flop_str, r1);
    canonical_flop_str.append(canonical_s1.as_str());
    push_char(&mut canonical_flop_str, r2);
    canonical_flop_str.append(canonical_s2.as_str());
    push_char(&mut canonical_flop_str, r3);
    canonical_flop_str.append(canonical_s3.as_str());

    assert(canonical_flop_str@ =~= canonical_flop(flop_str@));
    Ok((canonical_flop_str, suit_map))
}

/// Renaming by a flop whose suits are real suits sends the four suits onto the four suits,
/// and `suit_preimage` undoes it.
proof fn lemma_suit_permutation(s1: char, s2: char, s3: char, x: char)
    requires
        is_suit(s1),
        is_suit(s2),
        is_suit(s3),
        is_suit(x),
    ensures
        is_suit(suit_image(s1, s2, s3, x)),
        suit_preimage(s1, s2, s3, suit_image(s1, s2, s3, x)) == x,
        is_suit(suit_preimage(s1, s2, s3, x)),
        suit_image(s1, s2, s3, suit_preimage(s1, s2, s3, x)) == x,
{
    reveal_with_fuel(partner, 3);
}

/// Whether each of the three suits of a six-letter flop is one of the four suits.
pub open spec fn has_real_suits(f: Seq<char>) -> bool {
    f.len() == 6 && is_suit(f[1]) && is_suit(f[3]) && is_suit(f[5])
}

/// The mapping that `map_to_canonical` returns for the flop `f`.
pub open spec fn is_mapping_of(m: SuitMapping, f: Seq<char>) -> bool {
    &&& f.len() == 6
    &&& m.forward() == to_canonical_suits(f[1], f[3], f[5])
    &&& m.backward() == from_canonical_suits(f[1], f[3], f[5])
}

/// What the mapping of a flop does to one suit: its one-letter text goes to that of its
/// `suit_image`, and back from that of its `suit_preimage`.
proof fn lemma_mapping_letters(m: SuitMapping, f: Seq<char>, x: char)
    requires
        is_mapping_of(m, f),
        is_suit(x),
    ensures
        m.canonical_of(letter(x)) == letter(suit_image(f[1], f[3], f[5], x)),
        m.original_of(letter(x)) == letter(suit_preimage(f[1], f[3], f[5], x)),
{
    assert(letter(x).len() == 1 && letter(x)[0] == x);
}

/// The suit mapping of a flop renames the four suits one-for-one: each suit goes to a suit,
/// each suit comes from a suit, and mapping a suit there and back, either way round, gives
/// it again.
pub proof fn lemma_round_trip(m: SuitMapping, f: Seq<char>, x: char)
    requires
        is_mapping_of(m, f),
        has_real_suits(f),
        is_suit(x),
    ensures
        m.forward().contains_key(letter(x)),
        m.backward().contains_key(letter(x)),
        m.canonical_of(letter(x)).len() == 1,
        is_suit(m.canonical_of(letter(x))[0]),
        m.original_of(letter(x)).len() == 1,
        is_suit(m.original_of(letter(x))[0]),
        m.original_of(m.canonical_of(letter(x))) == letter(x),
        m.canonical_of(m.original_of(letter(x))) == letter(x),
{
    let (s1, s2, s3) = (f[1], f[3], f[5]);
    lemma_suit_permutation(s1, s2, s3, x);
    lemma_mapping_letters(m, f, x);
    lemma_mapping_letters(m, f, suit_image(s1, s2, s3, x));
    lemma_mapping_letters(m, f, suit_preimage(s1, s2, s3, x));
    assert(letter(x).len() == 1 && letter(x)[0] == x);
}

/// A hand is renamed with its flop and keeps what matters against it: its ranks stay, its
/// two cards share a suit after the renaming exactly when they did before, and a card of
/// the hand shares a suit with a card of the canonical flop exactly when it shared one with
/// that card of the flop (flush draws stay flush draws).
pub proof fn lemma_hand_keeps_suits(m: SuitMapping, f: Seq<char>, hand: Seq<char>)
    requires
        is_mapping_of(m, f),
        has_real_suits(f),
        hand.len() == 4,
        is_suit(hand[1]),
        is_suit(hand[3]),
    ensures
        m.canonical_hand(hand).len() == 4,
        m.canonical_hand(hand)[0] == hand[0],
        m.canonical_hand(hand)[2] == hand[2],
        (m.canonical_hand(hand)[1] == m.canonical_hand(hand)[3]) == (hand[1] == hand[3]),
        forall|i: int, j: int|
            #![trigger m.canonical_hand(hand)[i], canonical_flop(f)[j]]
            (i == 1 || i == 3) && (j == 1 || j == 3 || j == 5) ==> ((m.canonical_hand(hand)[i]
                == canonical_flop(f)[j]) == (hand[i] == f[j])),
{
    let (s1, s2, s3) = (f[1], f[3], f[5]);
    let a = hand[1];
    let b = hand[3];
    lemma_mapping_letters(m, f, a);
    lemma_mapping_letters(m, f, b);
    lemma_suit_permutation(s1, s2, s3, a);
    lemma_suit_permutation(s1, s2, s3, b);
    lemma_suit_permutation(s1, s2, s3, s1);
    lemma_suit_permutation(s1, s2, s3, s2);
    lemma_suit_permutation(s1, s2, s3, s3);
    let ch = m.canonical_hand(hand);
    assert(ch =~= seq![
        hand[0],
        suit_image(s1, s2, s3, a),
        hand[2],
        suit_image(s1, s2, s3, b),
    ]);
}

/// Canonical flops are their own canonical form.
pub proof fn lemma_canonical_idempotent(f: Seq<char>)
    requires
        f.len() == 6,
    ensures
        canonical_flop(canonical_flop(f)) == canonical_flop(f),
{
    let c = canonical_flop(f);
    assert(canonical_flop(c) =~= c);
}

/// Canonicalising a flop does not change its features: ranks stay, and which
/// cards share a suit stays.
pub proof fn lemma_canonical_keeps_features(f: Seq<char>)
    requires
        f.len() == 6,
    ensures
        crate::flop_similarity::flop_features(canonical_flop(f))
            == crate::flop_similarity::flop_features(f),
{
    let c = canonical_flop(f);
    crate::flop_similarity::lemma_features_ignore_suit_names(
        f[0],
        f[1],
        f[2],
        f[3],
        f[4],
        f[5],
        c[1],
        c[3],
        c[5],
    );
}

/// A canonical flop is written in spades, hearts and diamonds only, and the suit that a
/// flop shows most often becomes spades.
pub proof fn lemma_canonical_suits(f: Seq<char>)
    requires
        f.len() == 6,
    ensures
        forall|i: int|
            0 <= i < 3 ==> {
                let c = #[trigger] canonical_flop(f)[2 * i + 1];
                c == 's' || c == 'h' || c == 'd'
            },
        canonical_flop(f)[1] == 's' || canonical_flop(f)[3] == 's',
        (f[1] == f[3] || f[1] == f[5]) ==> canonical_flop(f)[1] == 's',
        f[3] == f[5] ==> canonical_flop(f)[3] == 's',
{
}

/// How the suits of a flop are renamed, by how many suits it shows, and with ranks kept:
/// - monotone: every card to spades;
/// - two-tone: the two cards that share a suit to spades and the other card to hearts,
///   wherever it stands;
/// - rainbow: the first card to spades, the second to hearts, the third to diamonds.
/// The flop's mapping renames each suit of the flop as the canonical flop shows it.
pub proof fn lemma_flop_suit_renaming(m: SuitMapping, f: Seq<char>)
    requires
        f.len() == 6,
    ensures
        ({
            let cf = canonical_flop(f);
            &&& cf.len() == 6
            &&& cf[0] == f[0] && cf[2] == f[2] && cf[4] == f[4]
            &&& (f[1] == f[3] && f[3] == f[5]) ==> (cf[1] == 's' && cf[3] == 's' && cf[5] == 's')
            &&& (f[1] != f[3] && f[3] != f[5] && f[1] != f[5]) ==> (cf[1] == 's' && cf[3] == 'h'
                && cf[5] == 'd')
            &&& !(f[1] == f[3] && f[3] == f[5]) && (f[1] == f[3] || f[3] == f[5] || f[1] == f[5])
                ==> {
                &&& cf[1] == (if f[1] == f[3] || f[1] == f[5] {
                    's'
                } else {
                    'h'
                })
                &&& cf[3] == (if f[3] == f[1] || f[3] == f[5] {
                    's'
                } else {
                    'h'
                })
                &&& cf[5] == (if f[5] == f[1] || f[5] == f[3] {
                    's'
                } else {
                    'h'
                })
            }
            &&& is_mapping_of(m, f) ==> {
                &&& m.canonical_of(letter(f[1])) == letter(cf[1])
                &&& m.canonical_of(letter(f[3])) == letter(cf[3])
                &&& m.canonical_of(letter(f[5])) == letter(cf[5])
            }
        }),
{
    assert(letter(f[1]).len() == 1 && letter(f[1])[0] == f[1]);
    assert(letter(f[3]).len() == 1 && letter(f[3])[0] == f[3]);
    assert(letter(f[5]).len() == 1 && letter(f[5])[0] == f[5]);
}

/// The place of a suit in the order s, h, d, c.
pub open spec fn suit_rank(x: char) -> int {
    if x == 's' {
        0
    } else if x == 'h' {
        1
    } else if x == 'd' {
        2
    } else {
        3
    }
}

/// How the suits that a flop does not show are renamed: one whose letter no card of the
/// canonical flop shows keeps it; one whose letter the canonical flop shows takes a suit
/// of the flop that the canonical flop does not show, and two such suits take them in
/// the order s, h, d, c.
pub proof fn lemma_other_suit_renaming(m: SuitMapping, f: Seq<char>, x: char, y: char)
    requires
        is_mapping_of(m, f),
        has_real_suits(f),
        is_suit(x),
        is_suit(y),
        x != f[1] && x != f[3] && x != f[5],
        y != f[1] && y != f[3] && y != f[5],
    ensures
        ({
            let cf = canonical_flop(f);
            let shown = |c: char| c == cf[1] || c == cf[3] || c == cf[5];
            &&& !shown(x) ==> m.canonical_of(letter(x)) == letter(x)
            &&& shown(x) ==> exists|z: char|
                {
                    &&& m.canonical_of(letter(x)) == letter(z)
                    &&& (z == f[1] || z == f[3] || z == f[5])
                    &&& !shown(z)
                }
            &&& shown(x) && shown(y) && suit_rank(x) < suit_rank(y) ==> suit_rank(
                m.canonical_of(letter(x))[0],
            ) < suit_rank(m.canonical_of(letter(y))[0])
        }),
{
    let (s1, s2, s3) = (f[1], f[3], f[5]);
    lemma_mapping_letters(m, f, x);
    lemma_mapping_letters(m, f, y);
    lemma_suit_permutation(s1, s2, s3, x);
    reveal_with_fuel(partner, 3);
    let cf = canonical_flop(f);
    let shown = |c: char| c == cf[1] || c == cf[3] || c == cf[5];
    if shown(x) {
        let z = suit_image(s1, s2, s3, x);
        assert(m.canonical_of(letter(x)) == letter(z));
    }
}

} // verus!
