//! Searching for a word in a sampler's name.

use vstd::prelude::*;
use vstd::std_specs::iter::IteratorSpec;
use vstd::string::StringExecFns;

verus! {

/// `pat` occurs in `s` as a run of consecutive characters.
pub open spec fn has_infix(s: Seq<char>, pat: Seq<char>) -> bool {
    exists|i: int| 0 <= i && i + pat.len() <= s.len() && #[trigger] s.subrange(i, i + pat.len()) == pat
}

/// The decimal digit `d`.
pub open spec fn digit(d: int) -> char {
    (48 + d) as char
}

/// The decimal digits of `n`, most significant first, without leading
/// zeros ("0" for zero).
pub open spec fn decimal(n: nat) -> Seq<char>
    decreases n,
{
    if n < 10 {
        seq![digit(n as int)]
    } else {
        decimal(n / 10).push(digit((n % 10) as int))
    }
}

/// The one-character text of decimal digit `d`.
fn digit_text(d: usize) -> (t: &'static str)
    requires
        d < 10,
    ensures
        t@ == seq![digit(d as int)],
{
    match d {
        0 => {
            proof { reveal_strlit("0"); }
            "0"
        },
        1 => {
            proof { reveal_strlit("1"); }
            "1"
        },
        2 => {
            proof { reveal_strlit("2"); }
            "2"
        },
        3 => {
            proof { reveal_strlit("3"); }
            "3"
        },
        4 => {
            proof { reveal_strlit("4"); }
            "4"
        },
        5 => {
            proof { reveal_strlit("5"); }
            "5"
        },
        6 => {
            proof { reveal_strlit("6"); }
            "6"
        },
        7 => {
            proof { reveal_strlit("7"); }
            "7"
        },
        8 => {
            proof { reveal_strlit("8"); }
            "8"
        },
        _ => {
            proof { reveal_strlit("9"); }
            "9"
        },
    }
}

/// Appends the decimal digits of `n` to `s`.
fn append_decimal(s: &mut String, n: usize)
    ensures
        final(s)@ == old(s)@ + decimal(n as nat),
    decreases n,
{
    if n >= 10 {
        append_decimal(s, n / 10);
    }
    let ghost before = s@;
    s.append(digit_text(n % 10));
    proof {
        if n >= 10 {
            assert(old(s)@ + decimal(n as nat) =~= before + seq![digit((n % 10) as int)]);
        } else {
            assert(old(s)@ + decimal(n as nat) =~= before + seq![digit((n % 10) as int)]);
        }
    }
}

/// `word`, a space, then the decimal digits of `n`.
pub fn numbered(word: &str, n: usize) -> (s: String)
    ensures
        s@ == word@ + " "@ + decimal(n as nat),
{
    let mut s = String::from_str(word);
    s.append(" ");
    append_decimal(&mut s, n);
    s
}

/// A text holds itself, in front of anything that follows it.
pub proof fn lemma_prefix_is_infix(a: Seq<char>, b: Seq<char>)
    ensures
        has_infix(a + b, a),
{
    let i: int = 0;
    assert((a + b).subrange(i, i + a.len()) =~= a);
}

/// The characters of `s`, in order.
pub fn chars_of(s: &str) -> (v: Vec<char>)
    ensures
        v@ == s@,
{
    broadcast use vstd::string::group_string_axioms;
    let mut v: Vec<char> = Vec::new();
    let ghost all = s@;
    for c in it: s.chars()
        invariant
            it.seq() == all,
            v@ == all.take(it.index()),
    {
        assert(all.take(it.index() + 1) == all.take(it.index()).push(c));
        v.push(c);
    }
    assert(all.take(all.len() as int) == all);
    v
}

/// Whether `pat` stands in `s` from position `at` on.
fn matches_at(s: &Vec<char>, pat: &Vec<char>, at: usize) -> (r: bool)
    requires
        at + pat.len() <= s.len(),
    ensures
        r == (s@.subrange(at as int, at + pat.len()) == pat@),
{
    let mut j: usize = 0;
    while j < pat.len()
        invariant
            j <= pat.len(),
            at + pat.len() <= s.len(),
            forall|k: int| 0 <= k < j ==> s@[at + k] == pat@[k],
        decreases pat.len() - j,
    {
        if s[at + j] != pat[j] {
            assert(s@.subrange(at as int, at + pat.len())[j as int] != pat@[j as int]);
            return false;
        }
        j += 1;
    }
    assert(s@.subrange(at as int, at + pat.len()) =~= pat@);
    true
}

/// Whether `pat` occurs in `s`.
pub fn contains_text(s: &str, pat: &str) -> (r: bool)
    ensures
        r == has_infix(s@, pat@),
{
    let text = chars_of(s);
    let word = chars_of(pat);
    if word.len() > text.len() {
        return false;
    }
    let last = text.len() - word.len();
    let mut i: usize = 0;
    loop
        invariant
            i <= last,
            word.len() <= text.len(),
            last == text.len() - word.len(),
            text@ == s@,
            word@ == pat@,
            forall|k: int| 0 <= k < i ==> #[trigger] text@.subrange(k, k + word.len()) != word@,
        decreases last + 1 - i,
    {
        if matches_at(&text, &word, i) {
            assert(s@.subrange(i as int, i + pat@.len()) == pat@);
            return true;
        }
        if i == last {
            assert(!has_infix(s@, pat@));
            return false;
        }
        i += 1;
    }
}

} // verus!
