//! Names of solution files: `<dir>/<scenario>___<board>.bin`, and reading the scenario
//! and board back from such a path. Files named `v1.1_<board>.bin` hold the
//! `BTN_RFI_vs_BB_defend` scenario.
use vstd::prelude::*;
use vstd::string::StringExecFns;

use crate::scenario::{first_piece, second_piece};
use crate::text::{
    chars_of,
    contains_text,
    copy_range,
    find_from,
    find_text_from,
    first_occurrence,
    lemma_contains_text,
    lemma_find_from,
    occurs_at,
    split_at_char,
    split_char,
    string_of,
};

verus! {

/// `s` begins with `p`.
pub open spec fn starts_with(s: Seq<char>, p: Seq<char>) -> bool {
    p.len() <= s.len() && s.take(p.len() as int) == p
}

/// `s` ends with `p`.
pub open spec fn ends_with(s: Seq<char>, p: Seq<char>) -> bool {
    p.len() <= s.len() && s.skip(s.len() - p.len()) == p
}

/// `s` with the non-empty prefix `p` removed as often as it is there (`trim_start_matches`).
pub open spec fn strip_prefixes(s: Seq<char>, p: Seq<char>) -> Seq<char>
    decreases s.len(),
{
    if p.len() > 0 && starts_with(s, p) {
        strip_prefixes(s.skip(p.len() as int), p)
    } else {
        s
    }
}

/// `s` with the non-empty suffix `p` removed as often as it is there (`trim_end_matches`).
pub open spec fn strip_suffixes(s: Seq<char>, p: Seq<char>) -> Seq<char>
    decreases s.len(),
{
    if p.len() > 0 && ends_with(s, p) {
        strip_suffixes(s.take(s.len() - p.len()), p)
    } else {
        s
    }
}

/// The last `/`-separated piece of a path.
pub open spec fn file_name(path: Seq<char>) -> Seq<char> {
    split_char(path, '/').last()
}

/// The path of the solution file of a scenario on a board.
pub open spec fn solution_path_text(dir: Seq<char>, scenario: Seq<char>, board: Seq<char>) -> Seq<char> {
    dir + "/"@ + scenario + "___"@ + board + ".bin"@
}

/// The error for a file name that does not follow the naming.
pub open spec fn bad_file_name_message() -> Seq<char> {
    "Invalid filename format. Expected: scenario___board.bin"@
}

/// The scenario and board that a solution file's path names.
pub open spec fn solution_of_file(path: Seq<char>) -> Result<(Seq<char>, Seq<char>), Seq<char>> {
    let name = file_name(path);
    if starts_with(name, "v1.1_"@) {
        Ok(("BTN_RFI_vs_BB_defend"@, strip_suffixes(strip_prefixes(name, "v1.1_"@), ".bin"@)))
    } else {
        let stem = strip_suffixes(name, ".bin"@);
        if contains_text(stem, "___"@) && !contains_text(
            stem.skip((first_occurrence(stem, "___"@)->0 + 3) as int),
            "___"@,
        ) {
            Ok((first_piece(stem, "___"@), second_piece(stem, "___"@)))
        } else {
            Err(bad_file_name_message())
        }
    }
}

/// The path of the solution file of a scenario on a board, in the directory `dir`.
pub fn solution_path(dir: &str, scenario: &str, board: &str) -> (r: String)
    ensures
        r@ == solution_path_text(dir@, scenario@, board@),
{
    let mut r = dir.to_owned();
    r.append("/");
    r.append(scenario);
    r.append("___");
    r.append(board);
    r.append(".bin");
    r
}

/// Whether `s` begins with `p`.
fn has_prefix(s: &Vec<char>, p: &Vec<char>) -> (b: bool)
    ensures
        b == starts_with(s@, p@),
{
    if p.len() > s.len() {
        return false;
    }
    let head = copy_range(s, 0, p.len());
    let mut i: usize = 0;
    while i < p.len()
        invariant
            i <= p@.len(),
            head@ == s@.take(p@.len() as int),
            head@.len() == p@.len(),
            forall|k: int| 0 <= k < i ==> head@[k] == p@[k],
        decreases p@.len() - i,
    {
        if head[i] != p[i] {
            return false;
        }
        i = i + 1;
    }
    assert(head@ =~= p@);
    true
}

/// Whether `s` ends with `p`.
fn has_suffix(s: &Vec<char>, p: &Vec<char>) -> (b: bool)
    ensures
        b == ends_with(s@, p@),
{
    if p.len() > s.len() {
        return false;
    }
    let tail = copy_range(s, s.len() - p.len(), s.len());
    assert(tail@ =~= s@.skip(s@.len() - p@.len()));
    let mut i: usize = 0;
    while i < p.len()
        invariant
            i <= p@.len(),
            tail@ == s@.skip(s@.len() - p@.len()),
            tail@.len() == p@.len(),
            forall|k: int| 0 <= k < i ==> tail@[k] == p@[k],
        decreases p@.len() - i,
    {
        if tail[i] != p[i] {
            return false;
        }
        i = i + 1;
    }
    assert(tail@ =~= p@);
    true
}

/// `s` with the non-empty prefix `p` removed as often as it is there.
fn trim_prefixes(s: &Vec<char>, p: &Vec<char>) -> (r: Vec<char>)
    requires
        p@.len() > 0,
    ensures
        r@ == strip_prefixes(s@, p@),
{
    let mut r = copy_range(s, 0, s.len());
    assert(r@ =~= s@);
    while has_prefix(&r, p)
        invariant
            p@.len() > 0,
            strip_prefixes(r@, p@) == strip_prefixes(s@, p@),
        decreases r@.len(),
    {
        let n = r.len();
        let ghost prev = r@;
        r = copy_range(&r, p.len(), n);
        assert(r@ =~= prev.skip(p@.len() as int));
    }
    r
}

/// `s` with the non-empty suffix `p` removed as often as it is there.
fn trim_suffixes(s: &Vec<char>, p: &Vec<char>) -> (r: Vec<char>)
    requires
        p@.len() > 0,
    ensures
        r@ == strip_suffixes(s@, p@),
{
    let mut r = copy_range(s, 0, s.len());
    assert(r@ =~= s@);
    while has_suffix(&r, p)
        invariant
            p@.len() > 0,
            strip_suffixes(r@, p@) == strip_suffixes(s@, p@),
        decreases r@.len(),
    {
        let n = r.len();
        let ghost prev = r@;
        r = copy_range(&r, 0, n - p.len());
        assert(r@ =~= prev.take(prev.len() - p@.len()));
    }
    r
}

/// The scenario and board that a solution file's path names, or an error for a file
/// name that follows neither `<scenario>___<board>.bin` nor `v1.1_<board>.bin`.
pub fn parse_solution_file(path: &str) -> (r: Result<(String, String), String>)
    ensures
        match r {
            Ok((scenario, board)) => solution_of_file(path@) == Ok::<(Seq<char>, Seq<char>), Seq<char>>(
                (scenario@, board@),
            ),
            Err(e) => solution_of_file(path@) == Err::<(Seq<char>, Seq<char>), Seq<char>>(e@),
        },
{
    let chars = chars_of(path);
    let pieces = split_at_char(&chars, '/');
    proof {
        crate::text::lemma_split_char_len(path@, '/');
    }
    let name = &pieces[pieces.len() - 1];
    assert(name@ == file_name(path@));
    let v11 = chars_of("v1.1_");
    let bin = chars_of(".bin");
    let sep = chars_of("___");
    proof {
        reveal_strlit("v1.1_");
        reveal_strlit(".bin");
        reveal_strlit("___");
    }
    if has_prefix(name, &v11) {
        let board = trim_suffixes(&trim_prefixes(name, &v11), &bin);
        return Ok(("BTN_RFI_vs_BB_defend".to_owned(), string_of(board.as_slice())));
    }
    let stem = trim_suffixes(name, &bin);
    match find_text_from(&stem, &sep, 0) {
        None => Err("Invalid filename format. Expected: scenario___board.bin".to_owned()),
        Some(k) => {
            proof {
                lemma_find_from(stem@, sep@, 0);
            }
            assert(occurs_at(stem@, sep@, k as int));
            let n = stem.len();
            let rest = copy_range(&stem, k + 3, n);
            assert(rest@ =~= stem@.skip(k + 3));
            if find_text_from(&rest, &sep, 0).is_some() {
                Err("Invalid filename format. Expected: scenario___board.bin".to_owned())
            } else {
                let scenario = copy_range(&stem, 0, k);
                assert(scenario@ =~= first_piece(stem@, sep@));
                assert(rest@ =~= second_piece(stem@, sep@));
                Ok((string_of(scenario.as_slice()), string_of(rest.as_slice())))
            }
        },
    }
}

/// A pattern that occurs at `k` and nowhere before is first found at `k`.
proof fn lemma_found_at(t: Seq<char>, p: Seq<char>, i: nat, k: nat)
    requires
        i <= k,
        occurs_at(t, p, k as int),
        forall|j: int| i <= j < k ==> !#[trigger] occurs_at(t, p, j),
    ensures
        find_from(t, p, i) == Some(k),
    decreases k - i,
{
    if i < k {
        assert(!occurs_at(t, p, i as int));
        lemma_found_at(t, p, i + 1, k);
    }
}

/// Splitting at `/` after a `/` leaves the pieces of what follows it last.
proof fn lemma_last_piece_after_slash(x: Seq<char>, y: Seq<char>)
    ensures
        split_char(x + seq!['/'] + y, '/').last() == split_char(y, '/').last(),
    decreases y.len(),
{
    let z = x + seq!['/'] + y;
    if y.len() == 0 {
        assert(z =~= x + seq!['/']);
        assert(z.drop_last() =~= x);
        crate::text::lemma_split_char_len(x, '/');
    } else {
        assert(z.drop_last() =~= x + seq!['/'] + y.drop_last());
        lemma_last_piece_after_slash(x, y.drop_last());
        crate::text::lemma_split_char_len(z.drop_last(), '/');
        crate::text::lemma_split_char_len(y.drop_last(), '/');
    }
}

/// A text without `/` is its own last piece.
proof fn lemma_last_piece_no_slash(y: Seq<char>)
    requires
        forall|i: int| 0 <= i < y.len() ==> y[i] != '/',
    ensures
        split_char(y, '/').last() == y,
    decreases y.len(),
{
    if y.len() > 0 {
        lemma_last_piece_no_slash(y.drop_last());
        crate::text::lemma_split_char_len(y.drop_last(), '/');
        assert(split_char(y.drop_last(), '/').last().push(y.last()) =~= y);
    }
}

/// Naming a solution file and reading the name back gives the scenario and board again,
/// for any scenario and board without `/`, without `___`, a scenario that does not end
/// with `_` or begin with `v1.1`, and a board that does not end with `.bin`.
pub proof fn lemma_solution_path_round_trip(dir: Seq<char>, scenario: Seq<char>, board: Seq<char>)
    requires
        forall|i: int| 0 <= i < scenario.len() ==> scenario[i] != '/',
        forall|i: int| 0 <= i < board.len() ==> board[i] != '/',
        !contains_text(scenario, "___"@),
        scenario.len() == 0 || scenario.last() != '_',
        !starts_with(scenario, "v1.1"@),
        !contains_text(board, "___"@),
        !ends_with(board, ".bin"@),
    ensures
        solution_of_file(solution_path_text(dir, scenario, board)) == Ok::<
            (Seq<char>, Seq<char>),
            Seq<char>,
        >((scenario, board)),
{
    reveal_strlit("/");
    reveal_strlit("___");
    reveal_strlit(".bin");
    reveal_strlit("v1.1_");
    reveal_strlit("v1.1");
    let sep = "___"@;
    let stem = scenario + sep + board;
    let name = stem + ".bin"@;
    let path = solution_path_text(dir, scenario, board);
    // the file name
    assert(path =~= dir + seq!['/'] + name);
    assert forall|i: int| 0 <= i < name.len() implies name[i] != '/' by {
        if i < scenario.len() {
            assert(name[i] == scenario[i]);
        } else if i >= scenario.len() + 3 && i < scenario.len() + 3 + board.len() {
            assert(name[i] == board[i - scenario.len() - 3]);
        }
    }
    lemma_last_piece_after_slash(dir, name);
    lemma_last_piece_no_slash(name);
    assert(file_name(path) == name);
    // not a v1.1 file
    if starts_with(name, "v1.1_"@) {
        let t = name.take(5);
        assert(t[0] == name[0] && t[1] == name[1] && t[2] == name[2] && t[3] == name[3] && t[4]
            == name[4]);
        assert(name[0] == 'v' && name[1] == '1' && name[2] == '.' && name[3] == '1' && name[4] == '_');
        if scenario.len() >= 4 {
            assert(scenario.take(4) =~= "v1.1"@);
        } else {
            assert(name[scenario.len() as int] == '_');
        }
    }
    // the stem
    assert(name.take(name.len() - 4) =~= stem);
    if ends_with(stem, ".bin"@) {
        let t = stem.skip(stem.len() - 4);
        assert(t[0] == '.' && t[1] == 'b' && t[2] == 'i' && t[3] == 'n');
        if board.len() >= 4 {
            assert(board.skip(board.len() - 4) =~= t);
        } else {
            assert(stem[stem.len() - board.len() - 1] == '_');
        }
    }
    assert(!ends_with(stem, ".bin"@));
    assert(strip_suffixes(stem, ".bin"@) == stem);
    assert(name.skip(name.len() - 4) =~= ".bin"@);
    assert(ends_with(name, ".bin"@));
    assert(strip_suffixes(name, ".bin"@) == stem);
    // the separator is first found right after the scenario
    assert(stem.subrange(scenario.len() as int, (scenario.len() + 3) as int) =~= sep);
    lemma_contains_text(scenario, sep);
    assert forall|j: int| 0 <= j < scenario.len() implies !#[trigger] occurs_at(stem, sep, j) by {
        if occurs_at(stem, sep, j) {
            let w = stem.subrange(j, j + 3);
            if j + 3 <= scenario.len() {
                assert(scenario.subrange(j, j + 3) =~= w);
                assert(occurs_at(scenario, sep, j));
            } else if j + 2 == scenario.len() {
                assert(w[1] == scenario.last());
            } else {
                assert(w[0] == scenario.last());
            }
        }
    }
    lemma_found_at(stem, sep, 0, scenario.len());
    assert(stem.skip((scenario.len() + 3) as int) =~= board);
    assert(first_piece(stem, sep) =~= scenario);
    assert(second_piece(stem, sep) =~= board);
}

} // verus!
