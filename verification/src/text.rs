//! Character-level text helpers shared by the coliseum gates: equality,
//! substring search, truncation and decimal rendering, over `Seq<char>`
//! views. Unicode trimming and case folding are std's own and are named,
//! not restated.
use vstd::prelude::*;

verus! {

/// What `str::trim` returns for a string: a function of the string alone
/// (std's Unicode whitespace table).
pub uninterp spec fn trim_spec(s: Seq<char>) -> Seq<char>;

/// What `char::to_lowercase` yields for a character: a function of the
/// character alone (std's Unicode case tables).
pub uninterp spec fn lowercase_spec(c: char) -> Seq<char>;

/// `t` is a contiguous piece of `s`.
pub open spec fn piece_of(t: Seq<char>, s: Seq<char>) -> bool {
    exists|i: int, j: int| 0 <= i <= j <= s.len() && t == s.subrange(i, j)
}

/// Calls `str::trim`, which returns the slice of `s` left after removing
/// its leading and trailing whitespace. The contract claims that the result
/// is the trimmed form of exactly the given string, a function of it alone,
/// a contiguous piece of it, and already trimmed (no edge whitespace is
/// left); which characters count as whitespace (the Unicode `White_Space`
/// property) is left unsaid.
#[verifier::external_body]
pub(crate) fn trim(s: &str) -> (r: &str)
    ensures
        r@ == trim_spec(s@),
        piece_of(r@, s@),
        trim_spec(r@) == r@,
{
    s.trim()
}

/// Calls `char::to_lowercase` and collects what it yields: one or more
/// characters. The contract claims that they are the lowercase mapping of
/// exactly the given character, a function of it alone; the case tables
/// themselves are left unsaid.
#[verifier::external_body]
pub(crate) fn lowercase_of(c: char) -> (r: Vec<char>)
    ensures
        r@ == lowercase_spec(c),
        r@.len() >= 1,
{
    c.to_lowercase().collect()
}

/// The characters of a string.
pub fn chars_of(s: &str) -> (v: Vec<char>)
    ensures
        v@ == s@,
{
    let n = s.unicode_len();
    let mut v: Vec<char> = Vec::new();
    let mut i: usize = 0;
    while i < n
        invariant
            n == s@.len(),
            i <= n,
            v@ == s@.subrange(0, i as int),
        decreases n - i,
    {
        v.push(s.get_char(i));
        assert(v@ =~= s@.subrange(0, i as int + 1));
        i = i + 1;
    }
    assert(s@.subrange(0, n as int) =~= s@);
    v
}

/// Character-wise equality of two strings.
pub fn str_eq(a: &str, b: &str) -> (r: bool)
    ensures
        r == (a@ == b@),
{
    let n = a.unicode_len();
    if n != b.unicode_len() {
        return false;
    }
    let mut i: usize = 0;
    while i < n
        invariant
            n == a@.len(),
            n == b@.len(),
            i <= n,
            forall|j: int| 0 <= j < i ==> a@[j] == b@[j],
        decreases n - i,
    {
        if a.get_char(i) != b.get_char(i) {
            return false;
        }
        i = i + 1;
    }
    assert(a@ =~= b@);
    true
}

/// `needle` occurs in `hay` starting at `at`.
pub open spec fn occurs_at(hay: Seq<char>, needle: Seq<char>, at: int) -> bool {
    0 <= at && at + needle.len() <= hay.len() && hay.subrange(at, at + needle.len()) == needle
}

/// `needle` occurs somewhere in `hay`.
pub open spec fn contains_spec(hay: Seq<char>, needle: Seq<char>) -> bool {
    exists|at: int| occurs_at(hay, needle, at)
}

/// Substring search.
pub fn contains(hay: &Vec<char>, needle: &Vec<char>) -> (r: bool)
    ensures
        r == contains_spec(hay@, needle@),
{
    let n = hay.len();
    let m = needle.len();
    if m > n {
        assert(forall|at: int| !occurs_at(hay@, needle@, at));
        return false;
    }
    let mut at: usize = 0;
    while at <= n - m
        invariant
            n == hay@.len(),
            m == needle@.len(),
            m <= n,
            at <= n - m + 1,
            forall|k: int| 0 <= k < at ==> !occurs_at(hay@, needle@, k),
        decreases n - m + 1 - at,
    {
        let mut j: usize = 0;
        let mut same = true;
        while j < m
            invariant
                n == hay@.len(),
                m == needle@.len(),
                at + m <= n,
                j <= m,
                same == forall|q: int| 0 <= q < j ==> hay@[at + q] == needle@[q],
            decreases m - j,
        {
            if hay[at + j] != needle[j] {
                same = false;
            }
            j = j + 1;
        }
        if same {
            assert(hay@.subrange(at as int, at as int + m) =~= needle@);
            assert(occurs_at(hay@, needle@, at as int));
            return true;
        }
        assert(!occurs_at(hay@, needle@, at as int)) by {
            if occurs_at(hay@, needle@, at as int) {
                assert(forall|q: int|
                    0 <= q < m ==> hay@[at + q] == #[trigger] hay@.subrange(
                        at as int,
                        at as int + m,
                    )[q]);
            }
        }
        at = at + 1;
    }
    assert forall|k: int| !occurs_at(hay@, needle@, k) by {
        if k >= 0 && k < at {
        } else if k >= at {
            assert(k + m > n);
        }
    }
    false
}

/// The lowercase mapping of a character sequence, character by character.
pub open spec fn lower_seq(s: Seq<char>) -> Seq<char>
    decreases s.len(),
{
    if s.len() == 0 {
        Seq::empty()
    } else {
        lower_seq(s.drop_last()) + lowercase_spec(s.last())
    }
}

/// Case-folded characters of a string, for scanning.
pub fn lowercase_chars(s: &str) -> (v: Vec<char>)
    ensures
        v@ == lower_seq(s@),
{
    let n = s.unicode_len();
    let mut v: Vec<char> = Vec::new();
    let mut i: usize = 0;
    while i < n
        invariant
            n == s@.len(),
            i <= n,
            v@ == lower_seq(s@.subrange(0, i as int)),
        decreases n - i,
    {
        let mut low = lowercase_of(s.get_char(i));
        proof {
            assert(s@.subrange(0, i as int + 1).drop_last() =~= s@.subrange(0, i as int));
        }
        v.append(&mut low);
        i = i + 1;
    }
    assert(s@.subrange(0, n as int) =~= s@);
    v
}

/// ASCII decimal characters of a natural number.
pub open spec fn decimal_chars(n: nat) -> Seq<char>
    decreases n,
{
    if n < 10 {
        seq![digit_char(n)]
    } else {
        decimal_chars(n / 10) + seq![digit_char(n % 10)]
    }
}

pub open spec fn digit_char(d: nat) -> char {
    if d == 0 {
        '0'
    } else if d == 1 {
        '1'
    } else if d == 2 {
        '2'
    } else if d == 3 {
        '3'
    } else if d == 4 {
        '4'
    } else if d == 5 {
        '5'
    } else if d == 6 {
        '6'
    } else if d == 7 {
        '7'
    } else if d == 8 {
        '8'
    } else {
        '9'
    }
}

fn digit_str(d: u64) -> (s: &'static str)
    requires
        d < 10,
    ensures
        s@ == seq![digit_char(d as nat)],
{
    proof {
        reveal_strlit("0");
        reveal_strlit("1");
        reveal_strlit("2");
        reveal_strlit("3");
        reveal_strlit("4");
        reveal_strlit("5");
        reveal_strlit("6");
        reveal_strlit("7");
        reveal_strlit("8");
        reveal_strlit("9");
    }
    if d == 0 {
        "0"
    } else if d == 1 {
        "1"
    } else if d == 2 {
        "2"
    } else if d == 3 {
        "3"
    } else if d == 4 {
        "4"
    } else if d == 5 {
        "5"
    } else if d == 6 {
        "6"
    } else if d == 7 {
        "7"
    } else if d == 8 {
        "8"
    } else {
        "9"
    }
}

/// Append the decimal digits of `n`.
pub fn append_decimal(out: &mut String, n: u64)
    ensures
        final(out)@ == old(out)@ + decimal_chars(n as nat),
    decreases n,
{
    if n >= 10 {
        append_decimal(out, n / 10);
    }
    out.append(digit_str(n % 10));
    assert(final(out)@ =~= old(out)@ + decimal_chars(n as nat));
}

/// The first `max` characters of `s`, followed by an ellipsis when `s` was
/// longer.
pub open spec fn truncated(s: Seq<char>, max: nat) -> Seq<char> {
    if s.len() <= max {
        s
    } else {
        s.subrange(0, max as int) + seq!['\u{2026}']
    }
}

/// Keep at most `max` characters, marking a cut with an ellipsis.
pub fn truncate_chars(s: &str, max: usize) -> (r: String)
    ensures
        r@ == truncated(s@, max as nat),
{
    let n = s.unicode_len();
    if n <= max {
        return String::from_str(s);
    }
    let head = s.substring_char(0, max);
    let mut out = String::from_str(head);
    proof {
        reveal_strlit("\u{2026}");
    }
    out.append("\u{2026}");
    out
}

} // verus!
