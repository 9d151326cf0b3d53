//! Small string utilities used throughout the runner.

use vstd::prelude::*;
use vstd::string::*;

verus! {

/// `s` with every trailing `'/'` removed.
pub open spec fn strip_trailing_slashes(s: Seq<char>) -> Seq<char>
    decreases s.len(),
{
    if s.len() > 0 && s.last() == '/' {
        strip_trailing_slashes(s.drop_last())
    } else {
        s
    }
}

/// Trimming trailing slashes leaves no trailing slash, keeps a prefix of
/// the text, and trimming again changes nothing.
pub proof fn lemma_strip_trailing_slashes(s: Seq<char>)
    ensures
        strip_trailing_slashes(s).len() <= s.len(),
        strip_trailing_slashes(s) == s.subrange(0, strip_trailing_slashes(s).len() as int),
        strip_trailing_slashes(s).len() > 0 ==> strip_trailing_slashes(s).last() != '/',
        strip_trailing_slashes(strip_trailing_slashes(s)) == strip_trailing_slashes(s),
    decreases s.len(),
{
    if s.len() > 0 && s.last() == '/' {
        lemma_strip_trailing_slashes(s.drop_last());
        let t = strip_trailing_slashes(s.drop_last());
        assert(s.drop_last().subrange(0, t.len() as int) =~= s.subrange(0, t.len() as int));
    } else {
        assert(s.subrange(0, s.len() as int) =~= s);
    }
}

/// Removes every trailing `'/'` from `s`, as `str::trim_end_matches('/')` does.
pub fn trim_trailing_slashes(s: &str) -> (res: String)
    ensures
        res@ == strip_trailing_slashes(s@),
{
    let n = s.unicode_len();
    let mut end: usize = n;
    assert(s@.subrange(0, n as int) =~= s@);
    while end > 0 && s.get_char(end - 1) == '/'
        invariant
            n == s@.len(),
            end <= n,
            strip_trailing_slashes(s@) == strip_trailing_slashes(s@.subrange(0, end as int)),
        decreases end,
    {
        assert(s@.subrange(0, end as int).drop_last() =~= s@.subrange(0, end - 1));
        end = end - 1;
    }
    s.substring_char(0, end).to_owned()
}


/// `c` with an ASCII capital letter mapped to its small letter.
pub open spec fn ascii_lower_char(c: char) -> char {
    if 'A' <= c && c <= 'Z' { ((c as u32) + 32) as char } else { c }
}

/// `c` with an ASCII small letter mapped to its capital letter.
pub open spec fn ascii_upper_char(c: char) -> char {
    if 'a' <= c && c <= 'z' { ((c as u32) - 32) as char } else { c }
}

/// Whether every character of `s` is ASCII.
pub open spec fn all_ascii(s: Seq<char>) -> bool {
    forall|i: int| 0 <= i < s.len() ==> (s[i] as u32) < 128
}

/// What `str::to_lowercase` returns for `s`: the Unicode lowercase mapping.
pub uninterp spec fn unicode_lowercase(s: Seq<char>) -> Seq<char>;

/// What `str::to_uppercase` returns for `s`: the Unicode uppercase mapping.
pub uninterp spec fn unicode_uppercase(s: Seq<char>) -> Seq<char>;

/// Calls `str::to_lowercase`. Its result is named by `unicode_lowercase`;
/// on an all-ASCII input, Unicode lowercasing maps exactly the letters
/// `A`..`Z` to `a`..`z` and leaves every other character alone.
#[verifier::external_body]
pub fn to_lowercase(s: &str) -> (res: String)
    ensures
        res@ == unicode_lowercase(s@),
        all_ascii(s@) ==> res@ == s@.map_values(|c: char| ascii_lower_char(c)),
{
    s.to_lowercase()
}

/// Calls `str::to_uppercase`. Its result is named by `unicode_uppercase`;
/// on an all-ASCII input, Unicode uppercasing maps exactly the letters
/// `a`..`z` to `A`..`Z` and leaves every other character alone.
#[verifier::external_body]
pub fn to_uppercase(s: &str) -> (res: String)
    ensures
        res@ == unicode_uppercase(s@),
        all_ascii(s@) ==> res@ == s@.map_values(|c: char| ascii_upper_char(c)),
{
    s.to_uppercase()
}

/// Whether `pat` occurs in `s` as a contiguous run of characters.
pub open spec fn occurs_in(s: Seq<char>, pat: Seq<char>) -> bool {
    exists|i: int| 0 <= i && i + pat.len() <= s.len() && #[trigger] s.subrange(i, i + pat.len()) == pat
}

/// Whether `pat` occurs in `s` (as `str::contains` with a string pattern).
pub fn contains_text(s: &str, pat: &str) -> (res: bool)
    ensures
        res == occurs_in(s@, pat@),
{
    let n = s.unicode_len();
    let m = pat.unicode_len();
    if m > n {
        assert(!occurs_in(s@, pat@)) by {
            assert forall|i: int| 0 <= i && i + pat@.len() <= s@.len() implies
                #[trigger] s@.subrange(i, i + pat@.len()) != pat@ by {}
        }
        return false;
    }
    let mut i: usize = 0;
    while i <= n - m
        invariant
            n == s@.len(),
            m == pat@.len(),
            m <= n,
            i <= n - m + 1,
            forall|k: int| 0 <= k < i ==> #[trigger] s@.subrange(k, k + m) != pat@,
        decreases n - m + 1 - i,
    {
        let mut j: usize = 0;
        let mut same = true;
        while j < m
            invariant
                n == s@.len(),
                m == pat@.len(),
                i + m <= n,
                j <= m,
                same == (forall|k: int| 0 <= k < j ==> s@[i + k] == pat@[k]),
            decreases m - j,
        {
            if s.get_char(i + j) != pat.get_char(j) {
                same = false;
            }
            j = j + 1;
        }
        if same {
            assert(s@.subrange(i as int, i + m) =~= pat@);
            return true;
        }
        assert(s@.subrange(i as int, i + m) != pat@) by {
            let k = choose|k: int| 0 <= k < m && s@[i + k] != pat@[k];
            assert(s@.subrange(i as int, i + m)[k] == s@[i + k]);
        }
        i = i + 1;
    }
    assert(!occurs_in(s@, pat@));
    false
}

/// Whether `a` and `b` hold the same characters.
pub fn same_text(a: &str, b: &str) -> (res: bool)
    ensures
        res == (a@ == b@),
{
    let n = a.unicode_len();
    if n != b.unicode_len() {
        return false;
    }
    let mut i: usize = 0;
    while i < n
        invariant
            n == a@.len(),
            n == b@.len(),
            i <= n,
            forall|k: int| 0 <= k < i ==> a@[k] == b@[k],
        decreases n - i,
    {
        if a.get_char(i) != b.get_char(i) {
            return false;
        }
        i = i + 1;
    }
    assert(a@ =~= b@);
    true
}

/// Whether `c` has the Unicode `White_Space` property, which is what
/// `char::is_whitespace` (and so `str::trim`) tests.
pub open spec fn white_space(c: char) -> bool {
    let u = c as u32;
    (0x09 <= u && u <= 0x0d) || u == 0x20 || u == 0x85 || u == 0xa0 || u == 0x1680
        || (0x2000 <= u && u <= 0x200a) || u == 0x2028 || u == 0x2029 || u == 0x202f
        || u == 0x205f || u == 0x3000
}

/// Whether `s` holds nothing but white space, i.e. is empty once trimmed.
pub open spec fn blank(s: Seq<char>) -> bool {
    forall|i: int| 0 <= i < s.len() ==> white_space(#[trigger] s[i])
}

/// Whether `s` is empty once surrounding white space is trimmed.
pub fn is_blank(s: &str) -> (res: bool)
    ensures
        res == blank(s@),
{
    let n = s.unicode_len();
    let mut i: usize = 0;
    while i < n
        invariant
            n == s@.len(),
            i <= n,
            forall|k: int| 0 <= k < i ==> white_space(#[trigger] s@[k]),
        decreases n - i,
    {
        let c = s.get_char(i);
        let u = c as u32;
        let ws = (0x09 <= u && u <= 0x0d) || u == 0x20 || u == 0x85 || u == 0xa0 || u == 0x1680
            || (0x2000 <= u && u <= 0x200a) || u == 0x2028 || u == 0x2029 || u == 0x202f
            || u == 0x205f || u == 0x3000;
        if !ws {
            return false;
        }
        i = i + 1;
    }
    true
}

/// `a` followed by `b`, as a new `String`.
pub fn join(a: &str, b: &str) -> (res: String)
    ensures
        res@ == a@ + b@,
{
    a.to_owned().concat(b)
}

} // verus!
