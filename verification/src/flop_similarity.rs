//! Finds the closest solved flop for any given flop.
//!
//! Flops are ranked by similarity using, in order of weight:
//! the high card, the paired/trips structure, the connectivity,
//! the middle and low cards, and the suit pattern.
use vstd::prelude::*;

use crate::text::chars_of;

verus! {

/// The index of a rank letter among `23456789TJQKA`, or 0 for any other character.
pub open spec fn rank_index(c: char) -> usize {
    if c == '2' {
        0
    } else if c == '3' {
        1
    } else if c == '4' {
        2
    } else if c == '5' {
        3
    } else if c == '6' {
        4
    } else if c == '7' {
        5
    } else if c == '8' {
        6
    } else if c == '9' {
        7
    } else if c == 'T' {
        8
    } else if c == 'J' {
        9
    } else if c == 'Q' {
        10
    } else if c == 'K' {
        11
    } else if c == 'A' {
        12
    } else {
        0
    }
}

/// The index of a rank letter among `23456789TJQKA`; characters that are no rank count as 0.
fn rank_value(r: char) -> (v: usize)
    ensures
        v == rank_index(r),
        v <= 12,
{
    match r {
        '2' => 0,
        '3' => 1,
        '4' => 2,
        '5' => 3,
        '6' => 4,
        '7' => 5,
        '8' => 6,
        '9' => 7,
        'T' => 8,
        'J' => 9,
        'Q' => 10,
        'K' => 11,
        'A' => 12,
        _ => 0,
    }
}

/// Whether a flop has three, two or one distinct suits.
#[derive(Debug, Clone, Copy, PartialEq, Eq, Structural)]
pub enum SuitPattern {
    Monotone,
    TwoTone,
    Rainbow,
}

/// The features of a flop that the similarity score compares.
#[derive(Debug, Clone, Copy)]
pub struct FlopFeatures {
    pub high_card: usize,
    pub mid_card: usize,
    pub low_card: usize,
    pub is_paired: bool,
    pub is_trips: bool,
    /// 2 = connected, 1 = one gap, 0 = disconnected or paired
    pub connectivity: i32,
    pub suit_pattern: SuitPattern,
}

pub open spec fn max3(a: usize, b: usize, c: usize) -> usize {
    if a >= b && a >= c {
        a
    } else if b >= c {
        b
    } else {
        c
    }
}

pub open spec fn min3(a: usize, b: usize, c: usize) -> usize {
    if a <= b && a <= c {
        a
    } else if b <= c {
        b
    } else {
        c
    }
}

/// The middle value of three: what is left once the largest and the smallest are taken.
pub open spec fn mid3(a: usize, b: usize, c: usize) -> usize {
    (a + b + c - max3(a, b, c) - min3(a, b, c)) as usize
}

/// The connectivity of three ranks sorted from high to low.
pub open spec fn connectivity_of(high: usize, mid: usize, low: usize) -> i32 {
    if high == mid || mid == low || high == low {
        0
    } else if high - low == 2 {
        2
    } else if high - low <= 4 {
        1
    } else {
        0
    }
}

/// The suit pattern of three suit letters, by how many distinct letters there are.
pub open spec fn pattern_of(s1: char, s2: char, s3: char) -> SuitPattern {
    if s1 == s2 && s2 == s3 {
        SuitPattern::Monotone
    } else if s1 == s2 || s2 == s3 || s1 == s3 {
        SuitPattern::TwoTone
    } else {
        SuitPattern::Rainbow
    }
}

/// The features of three cards given by rank and suit letters.
pub open spec fn features_of_cards(
    r1: char,
    s1: char,
    r2: char,
    s2: char,
    r3: char,
    s3: char,
) -> FlopFeatures {
    let (a, b, c) = (rank_index(r1), rank_index(r2), rank_index(r3));
    let (high, mid, low) = (max3(a, b, c), mid3(a, b, c), min3(a, b, c));
    FlopFeatures {
        high_card: high,
        mid_card: mid,
        low_card: low,
        is_paired: high == mid || mid == low || high == low,
        is_trips: high == mid && mid == low,
        connectivity: connectivity_of(high, mid, low),
        suit_pattern: pattern_of(s1, s2, s3),
    }
}

/// The features of a flop written as six characters, rank then suit for each card.
pub open spec fn flop_features(f: Seq<char>) -> FlopFeatures {
    features_of_cards(f[0], f[1], f[2], f[3], f[4], f[5])
}

/// Features as `parse_flop` produces them: ranks below 13, sorted, connectivity 0..2.
pub open spec fn features_wf(f: FlopFeatures) -> bool {
    &&& f.low_card <= f.mid_card <= f.high_card <= 12
    &&& 0 <= f.connectivity <= 2
}

/// Parses a flop such as `KhQs6h` into its features.
/// Characters after the sixth are ignored.
pub fn parse_flop(flop: &str) -> (f: FlopFeatures)
    requires
        flop@.len() >= 6,
    ensures
        f == flop_features(flop@),
        features_wf(f),
{
    let chars = chars_of(flop);
    let r1 = chars[0];
    let s1 = chars[1];
    let r2 = chars[2];
    let s2 = chars[3];
    let r3 = chars[4];
    let s3 = chars[5];

    // Ranks in descending order
    let mut a = rank_value(r1);
    let mut b = rank_value(r2);
    let mut c = rank_value(r3);
    let ghost (a0, b0, c0) = (a, b, c);
    if a < b {
        let t = a;
        a = b;
        b = t;
    }
    if b < c {
        let t = b;
        b = c;
        c = t;
    }
    if a < b {
        let t = a;
        a = b;
        b = t;
    }
    assert(a == max3(a0, b0, c0) && c == min3(a0, b0, c0) && b == mid3(a0, b0, c0));

    let high_card = a;
    let mid_card = b;
    let low_card = c;

    let is_paired = a == b || b == c || a == c;
    let is_trips = a == b && b == c;

    let connectivity: i32 = if is_paired {
        0
    } else {
        let gap1 = a as i32 - b as i32;
        let gap2 = b as i32 - c as i32;
        let total_gap = gap1 + gap2;
        if total_gap == 2 {
            2
        } else if total_gap <= 4 {
            1
        } else {
            0
        }
    };

    let suit_pattern = if s1 == s2 && s2 == s3 {
        SuitPattern::Monotone
    } else if s1 == s2 || s2 == s3 || s1 == s3 {
        SuitPattern::TwoTone
    } else {
        SuitPattern::Rainbow
    };

    FlopFeatures {
        high_card,
        mid_card,
        low_card,
        is_paired,
        is_trips,
        connectivity,
        suit_pattern,
    }
}

/// The difference of two ranks as the score compares them: each taken as an `i32`.
pub open spec fn rank_diff(a: usize, b: usize) -> int {
    (a as i32) - (b as i32)
}

pub open spec fn abs(d: int) -> int {
    if d < 0 {
        -d
    } else {
        d
    }
}

/// Points for a difference: `exact` when it is 0, `one` when 1, `two` when 2, else nothing.
pub open spec fn closeness_points(d: int, exact: int, one: int, two: int) -> int {
    if d == 0 {
        exact
    } else if d == 1 {
        one
    } else if d == 2 {
        two
    } else {
        0
    }
}

/// The similarity score of a candidate flop to a query flop; higher is more similar.
pub open spec fn score_of(q: FlopFeatures, c: FlopFeatures) -> int {
    closeness_points(abs(rank_diff(q.high_card, c.high_card)), 100, 80, 50)
        + closeness_points(abs(rank_diff(q.mid_card, c.mid_card)), 50, 30, 15)
        + closeness_points(abs(rank_diff(q.low_card, c.low_card)), 25, 15, 8)
        + (if q.is_trips == c.is_trips { 80int } else { 0int })
        + (if q.is_paired == c.is_paired { 60int } else { 0int })
        + closeness_points(abs(q.connectivity - c.connectivity), 40, 20, 0)
        + (if q.suit_pattern == c.suit_pattern { 20int } else { 0int })
}

/// A difference of `i32` values whose absolute value is again an `i32`.
pub open spec fn diff_in_range(d: int) -> bool {
    i32::MIN < d <= i32::MAX
}

/// The inputs on which the score's integer arithmetic stays within `i32`.
pub open spec fn score_defined(q: FlopFeatures, c: FlopFeatures) -> bool {
    &&& diff_in_range(rank_diff(q.high_card, c.high_card))
    &&& diff_in_range(rank_diff(q.mid_card, c.mid_card))
    &&& diff_in_range(rank_diff(q.low_card, c.low_card))
    &&& diff_in_range(q.connectivity - c.connectivity)
}

/// The absolute value of an `i32` difference that fits.
fn abs_diff(x: i32, y: i32) -> (d: i32)
    requires
        diff_in_range(x - y),
    ensures
        d == abs(x - y),
{
    let d = x - y;
    if d < 0 {
        -d
    } else {
        d
    }
}

/// Scores how similar `candidate` is to `query` (at most 375, for identical features).
pub fn similarity_score(query: &FlopFeatures, candidate: &FlopFeatures) -> (score: i32)
    requires
        score_defined(*query, *candidate),
    ensures
        score == score_of(*query, *candidate),
{
    let mut score: i32 = 0;

    // High card match (most important) - within 2 ranks
    let high_diff = abs_diff(query.high_card as i32, candidate.high_card as i32);
    score += match high_diff {
        0 => 100,
        1 => 80,
        2 => 50,
        _ => 0,
    };

    // Mid card match
    let mid_diff = abs_diff(query.mid_card as i32, candidate.mid_card as i32);
    score += match mid_diff {
        0 => 50,
        1 => 30,
        2 => 15,
        _ => 0,
    };

    // Low card match (least important)
    let low_diff = abs_diff(query.low_card as i32, candidate.low_card as i32);
    score += match low_diff {
        0 => 25,
        1 => 15,
        2 => 8,
        _ => 0,
    };

    // Paired/trips match (critical)
    if query.is_trips == candidate.is_trips {
        score += 80;
    }
    if query.is_paired == candidate.is_paired {
        score += 60;
    }

    // Connectivity match
    let conn_diff = abs_diff(query.connectivity, candidate.connectivity);
    score += match conn_diff {
        0 => 40,
        1 => 20,
        _ => 0,
    };

    // Suit pattern match (less important after canonicalization)
    if query.suit_pattern == candidate.suit_pattern {
        score += 20;
    }

    score
}

/// The score of a candidate flop for a query flop, both written as text.
pub open spec fn match_score(query: Seq<char>, candidate: Seq<char>) -> int {
    score_of(flop_features(query), flop_features(candidate))
}

/// `k` is the first of the candidates with the highest score for the query.
pub open spec fn is_first_best(query: Seq<char>, candidates: Seq<Seq<char>>, k: int) -> bool {
    &&& 0 <= k < candidates.len()
    &&& forall|j: int|
        0 <= j < k ==> #[trigger] match_score(query, candidates[j]) < match_score(
            query,
            candidates[k],
        )
    &&& forall|j: int|
        0 <= j < candidates.len() ==> #[trigger] match_score(query, candidates[j])
            <= match_score(query, candidates[k])
}

/// The texts of a list of strings.
pub open spec fn texts(v: Seq<String>) -> Seq<Seq<char>> {
    v.map_values(|s: String| s@)
}

/// Features that `parse_flop` produces can always be scored against each other.
pub proof fn lemma_wf_score_defined(q: FlopFeatures, c: FlopFeatures)
    requires
        features_wf(q),
        features_wf(c),
    ensures
        score_defined(q, c),
        0 <= score_of(q, c) <= 375,
{
}

/// Finds the solved flop most similar to `query_flop`, with its score.
/// On a tie the earliest of the best candidates wins.
pub fn find_best_match(query_flop: &str, solved_flops: &[String]) -> (res: (String, i32))
    requires
        solved_flops@.len() > 0,
        query_flop@.len() >= 6,
        forall|i: int| 0 <= i < solved_flops@.len() ==> (#[trigger] solved_flops@[i])@.len() >= 6,
    ensures
        exists|k: int|
            {
                &&& is_first_best(query_flop@, texts(solved_flops@), k)
                &&& res.0@ == #[trigger] texts(solved_flops@)[k]
                &&& res.1 == match_score(query_flop@, texts(solved_flops@)[k])
            },
{
    let ghost q = query_flop@;
    let ghost cands = texts(solved_flops@);
    let query_features = parse_flop(query_flop);

    let mut best_match = solved_flops[0].clone();
    let mut best_score: i32 = -1;
    let ghost mut best_k: int = 0;

    let mut i: usize = 0;
    while i < solved_flops.len()
        invariant
            i <= solved_flops@.len(),
            cands == texts(solved_flops@),
            q == query_flop@,
            query_features == flop_features(q),
            features_wf(query_features),
            forall|j: int| 0 <= j < solved_flops@.len() ==> (#[trigger] solved_flops@[j])@.len() >= 6,
            i == 0 ==> best_score == -1,
            i > 0 ==> {
                &&& 0 <= best_k < i
                &&& best_match@ == cands[best_k]
                &&& best_score == match_score(q, cands[best_k])
                &&& forall|j: int| 0 <= j < best_k ==> #[trigger] match_score(q, cands[j]) < best_score
                &&& forall|j: int| 0 <= j < i ==> #[trigger] match_score(q, cands[j]) <= best_score
            },
        decreases solved_flops@.len() - i,
    {
        let candidate = &solved_flops[i];
        let candidate_features = parse_flop(candidate.as_str());
        proof {
            lemma_wf_score_defined(query_features, candidate_features);
        }
        let score = similarity_score(&query_features, &candidate_features);
        assert(score == match_score(q, cands[i as int]));

        if score > best_score {
            best_score = score;
            best_match = candidate.clone();
            proof {
                best_k = i as int;
            }
        }
        i = i + 1;
    }
    assert(is_first_best(q, cands, best_k));
    (best_match, best_score)
}

/// The score is symmetric: comparing `a` with `b` scores the same as comparing `b` with `a`.
pub proof fn lemma_score_symmetric(a: FlopFeatures, b: FlopFeatures)
    ensures
        score_of(a, b) == score_of(b, a),
{
}

/// A flop scores 375 against itself, and no flop scores more against it.
pub proof fn lemma_self_score_is_max(q: FlopFeatures, c: FlopFeatures)
    ensures
        score_of(q, q) == 375,
        score_of(q, c) <= score_of(q, q),
{
}

/// The order in which the three cards are written does not change a flop's features:
/// swapping the first two cards, or the last two, gives the same features
/// (and these two swaps produce every order).
pub proof fn lemma_features_ignore_card_order(
    r1: char,
    s1: char,
    r2: char,
    s2: char,
    r3: char,
    s3: char,
)
    ensures
        features_of_cards(r1, s1, r2, s2, r3, s3) == features_of_cards(r2, s2, r1, s1, r3, s3),
        features_of_cards(r1, s1, r2, s2, r3, s3) == features_of_cards(r1, s1, r3, s3, r2, s2),
{
}

/// Renaming suits one-for-one does not change a flop's features: only which cards
/// share a suit matters.
pub proof fn lemma_features_ignore_suit_names(
    r1: char,
    s1: char,
    r2: char,
    s2: char,
    r3: char,
    s3: char,
    t1: char,
    t2: char,
    t3: char,
)
    requires
        (s1 == s2) == (t1 == t2),
        (s2 == s3) == (t2 == t3),
        (s1 == s3) == (t1 == t3),
    ensures
        features_of_cards(r1, s1, r2, s2, r3, s3) == features_of_cards(r1, t1, r2, t2, r3, t3),
{
}

/// When a solved flop has the very features of the query, the best match scores 375.
pub proof fn lemma_exact_features_score_375(query: Seq<char>, candidates: Seq<Seq<char>>, j: int, k: int)
    requires
        0 <= j < candidates.len(),
        flop_features(candidates[j]) == flop_features(query),
        is_first_best(query, candidates, k),
    ensures
        match_score(query, candidates[k]) == 375,
{
    lemma_self_score_is_max(flop_features(query), flop_features(candidates[k]));
    assert(match_score(query, candidates[j]) == 375);
}

/// The distance between two ranks.
pub open spec fn rank_distance(a: usize, b: usize) -> int {
    if a >= b {
        a - b
    } else {
        b - a
    }
}

/// What `parse_flop` reads from a flop, in terms of its three ranks `a`, `b`, `c` (as
/// `rank_index` numbers them) and its three suits:
/// - the high, middle and low cards are the three ranks sorted from high to low;
/// - the flop is paired when two ranks are equal, and trips when all three are;
/// - with three different ranks, the flop is connected (2) when the high and low cards are
///   two ranks apart, one-gapped (1) when they are three or four apart, and otherwise
///   disconnected (0); a paired flop has connectivity 0;
/// - the flop is monotone when the three suits are equal, rainbow when they all differ,
///   and two-tone otherwise.
pub proof fn lemma_flop_features_meaning(f: Seq<char>)
    requires
        f.len() >= 6,
    ensures
        ({
            let (a, b, c) = (rank_index(f[0]), rank_index(f[2]), rank_index(f[4]));
            let ff = flop_features(f);
            &&& ff.high_card >= ff.mid_card >= ff.low_card
            &&& ff.high_card >= a && ff.high_card >= b && ff.high_card >= c
            &&& ff.low_card <= a && ff.low_card <= b && ff.low_card <= c
            &&& (ff.high_card == a || ff.high_card == b || ff.high_card == c)
            &&& (ff.low_card == a || ff.low_card == b || ff.low_card == c)
            &&& ff.high_card + ff.mid_card + ff.low_card == a + b + c
            &&& ff.high_card <= 12
            &&& ff.is_paired == (a == b || b == c || a == c)
            &&& ff.is_trips == (a == b && b == c)
            &&& ff.is_paired ==> ff.connectivity == 0
            &&& !ff.is_paired && ff.high_card - ff.low_card == 2 ==> ff.connectivity == 2
            &&& !ff.is_paired && (ff.high_card - ff.low_card == 3 || ff.high_card - ff.low_card
                == 4) ==> ff.connectivity == 1
            &&& !ff.is_paired && ff.high_card - ff.low_card > 4 ==> ff.connectivity == 0
            &&& (ff.suit_pattern == SuitPattern::Monotone) == (f[1] == f[3] && f[3] == f[5])
            &&& (ff.suit_pattern == SuitPattern::Rainbow) == (f[1] != f[3] && f[3] != f[5] && f[1]
                != f[5])
        }),
{
}

/// What each feature weighs in the similarity score: against a query `q`, a candidate
/// that matches `q` in one feature scores more than the same candidate differing there by
/// exactly the feature's weight:
/// - trips or not: 80; paired or not: 60; suit pattern: 20;
/// - high card: 20 at one rank away, 50 at two, 100 further;
/// - middle card: 20 at one rank away, 35 at two, 50 further;
/// - low card: 10 at one rank away, 17 at two, 25 further;
/// - connectivity: 20 at one step away, 40 at two.
pub proof fn lemma_score_weights(q: FlopFeatures, c: FlopFeatures, x: usize, k: i32, p: SuitPattern)
    requires
        features_wf(q),
        features_wf(c),
        x <= 12,
        0 <= k <= 2,
    ensures
        score_of(q, (FlopFeatures { is_trips: q.is_trips, ..c })) == score_of(
            q,
            (FlopFeatures { is_trips: !q.is_trips, ..c }),
        ) + 80,
        score_of(q, (FlopFeatures { is_paired: q.is_paired, ..c })) == score_of(
            q,
            (FlopFeatures { is_paired: !q.is_paired, ..c }),
        ) + 60,
        p != q.suit_pattern ==> score_of(q, (FlopFeatures { suit_pattern: q.suit_pattern, ..c }))
            == score_of(q, (FlopFeatures { suit_pattern: p, ..c })) + 20,
        score_of(q, (FlopFeatures { high_card: q.high_card, ..c })) - score_of(
            q,
            (FlopFeatures { high_card: x, ..c }),
        ) == (if rank_distance(x, q.high_card) == 0 {
            0int
        } else if rank_distance(x, q.high_card) == 1 {
            20int
        } else if rank_distance(x, q.high_card) == 2 {
            50int
        } else {
            100int
        }),
        score_of(q, (FlopFeatures { mid_card: q.mid_card, ..c })) - score_of(
            q,
            (FlopFeatures { mid_card: x, ..c }),
        ) == (if rank_distance(x, q.mid_card) == 0 {
            0int
        } else if rank_distance(x, q.mid_card) == 1 {
            20int
        } else if rank_distance(x, q.mid_card) == 2 {
            35int
        } else {
            50int
        }),
        score_of(q, (FlopFeatures { low_card: q.low_card, ..c })) - score_of(
            q,
            (FlopFeatures { low_card: x, ..c }),
        ) == (if rank_distance(x, q.low_card) == 0 {
            0int
        } else if rank_distance(x, q.low_card) == 1 {
            10int
        } else if rank_distance(x, q.low_card) == 2 {
            17int
        } else {
            25int
        }),
        score_of(q, (FlopFeatures { connectivity: q.connectivity, ..c })) - score_of(
            q,
            (FlopFeatures { connectivity: k, ..c }),
        ) == (if k == q.connectivity {
            0int
        } else if k - q.connectivity == 1 || q.connectivity - k == 1 {
            20int
        } else {
            40int
        }),
{
}

} // verus!
