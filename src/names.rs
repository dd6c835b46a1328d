//! File names: validation, and the names generated from a prefix.

use vstd::prelude::*;

verus! {

/// The ten decimal digits, in order.
pub open spec fn digit_char(d: int) -> char {
    seq!['0', '1', '2', '3', '4', '5', '6', '7', '8', '9'][d]
}

/// `n` written with exactly three decimal digits, zero-padded.
pub open spec fn three_digits(n: int) -> Seq<char> {
    seq![digit_char(n / 100), digit_char((n / 10) % 10), digit_char(n % 10)]
}

/// The extension of every generated name.
pub open spec fn txt_extension() -> Seq<char> {
    seq!['.', 't', 'x', 't']
}

/// The name generated from `prefix` and the suffix number `n`.
pub open spec fn candidate_spec(prefix: Seq<char>, n: int) -> Seq<char> {
    prefix + three_digits(n) + txt_extension()
}

/// `name` is `prefix`, then three decimal digits, then `.txt`.
pub open spec fn is_generated_name(prefix: Seq<char>, name: Seq<char>) -> bool {
    exists|n: int| 0 <= n < 1000 && name == #[trigger] candidate_spec(prefix, n)
}

/// A stored blob's name: one non-empty path segment that does not climb or
/// stay in place.
pub open spec fn valid_file_name(s: Seq<char>) -> bool {
    &&& s.len() > 0
    &&& forall|i: int| 0 <= i < s.len() ==> s[i] != '/'
    &&& s != seq!['.']
    &&& s != seq!['.', '.']
}

/// A prefix for generated names: one non-empty path segment.
pub open spec fn valid_prefix(s: Seq<char>) -> bool {
    &&& s.len() > 0
    &&& forall|i: int| 0 <= i < s.len() ==> s[i] != '/'
}

fn digit_str(d: u32) -> (r: &'static str)
    requires
        d < 10,
    ensures
        r@ == seq![digit_char(d as int)],
{
    match d {
        0 => {
            proof { reveal_strlit("0"); }
            "0"
        },
        1 => {
            proof { reveal_strlit("1"); }
            "1"
        },
        2 => {
            proof { reveal_strlit("2"); }
            "2"
        },
        3 => {
            proof { reveal_strlit("3"); }
            "3"
        },
        4 => {
            proof { reveal_strlit("4"); }
            "4"
        },
        5 => {
            proof { reveal_strlit("5"); }
            "5"
        },
        6 => {
            proof { reveal_strlit("6"); }
            "6"
        },
        7 => {
            proof { reveal_strlit("7"); }
            "7"
        },
        8 => {
            proof { reveal_strlit("8"); }
            "8"
        },
        _ => {
            proof { reveal_strlit("9"); }
            "9"
        },
    }
}

/// The candidate name for `prefix` and the suffix number `n`:
/// `prefix`, `n` zero-padded to three digits, then `.txt`.
pub fn candidate_name(prefix: &str, n: u32) -> (r: String)
    requires
        n < 1000,
    ensures
        r@ == candidate_spec(prefix@, n as int),
{
    let mut r = String::from_str(prefix);
    r.append(digit_str(n / 100));
    r.append(digit_str((n / 10) % 10));
    r.append(digit_str(n % 10));
    proof { reveal_strlit(".txt"); }
    r.append(".txt");
    assert(r@ =~= candidate_spec(prefix@, n as int));
    r
}

/// Whether `s` has no `/` in it.
fn is_single_segment(s: &str) -> (r: bool)
    ensures
        r == (forall|i: int| 0 <= i < s@.len() ==> s@[i] != '/'),
{
    let len = s.unicode_len();
    let mut i: usize = 0;
    while i < len
        invariant
            len == s@.len(),
            i <= len,
            forall|j: int| 0 <= j < i ==> s@[j] != '/',
        decreases len - i,
    {
        if s.get_char(i) == '/' {
            return false;
        }
        i = i + 1;
    }
    true
}

/// Whether `s` may name a stored blob.
pub fn is_valid_file_name(s: &str) -> (r: bool)
    ensures
        r == valid_file_name(s@),
{
    let len = s.unicode_len();
    if len == 0 || !is_single_segment(s) {
        return false;
    }
    if len <= 2 && s.get_char(0) == '.' && (len == 1 || s.get_char(1) == '.') {
        assert(s@ =~= seq!['.'] || s@ =~= seq!['.', '.']);
        return false;
    }
    assert(s@ != seq!['.']) by {
        if len == 1 {
            assert(s@[0] != '.');
        }
        if s@ == seq!['.'] {
            assert(s@.len() == 1);
        }
    }
    assert(s@ != seq!['.', '.']) by {
        if s@ == seq!['.', '.'] {
            assert(s@.len() == 2 && s@[0] == '.' && s@[1] == '.');
        }
    }
    true
}

/// Whether `s` may serve as a prefix for generated names.
pub fn is_valid_prefix(s: &str) -> (r: bool)
    ensures
        r == valid_prefix(s@),
{
    s.unicode_len() > 0 && is_single_segment(s)
}

} // verus!
