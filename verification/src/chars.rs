//! Character classification and small string utilities: whitespace tests,
//! trimming, line splitting, decimal rendering of list indices, and repeated
//! markers.

use vstd::prelude::*;
use vstd::string::StrSliceExecFns;
use vstd::string::StringExecFns;

verus! {

/// Whether `c` is ASCII whitespace (space, tab, line feed, form feed,
/// carriage return), as `char::is_ascii_whitespace` defines it.
pub open spec fn is_ascii_ws(c: char) -> bool {
    c == ' ' || c == '\t' || c == '\n' || c == '\u{000C}' || c == '\r'
}

/// Executable ASCII whitespace test.
pub fn ascii_ws(c: char) -> (r: bool)
    ensures
        r == is_ascii_ws(c),
{
    c == ' ' || c == '\t' || c == '\n' || c == '\u{000C}' || c == '\r'
}

/// Whether `c` has the Unicode `White_Space` property, as
/// `char::is_whitespace` defines it.
pub open spec fn is_unicode_ws(c: char) -> bool {
    ||| c == '\u{0009}' || c == '\u{000A}' || c == '\u{000B}' || c == '\u{000C}' || c == '\u{000D}'
    ||| c == '\u{0020}' || c == '\u{0085}' || c == '\u{00A0}' || c == '\u{1680}'
    ||| ('\u{2000}' <= c && c <= '\u{200A}')
    ||| c == '\u{2028}' || c == '\u{2029}' || c == '\u{202F}' || c == '\u{205F}' || c == '\u{3000}'
}

/// Executable Unicode whitespace test.
pub fn unicode_ws(c: char) -> (r: bool)
    ensures
        r == is_unicode_ws(c),
{
    c == '\u{0009}' || c == '\u{000A}' || c == '\u{000B}' || c == '\u{000C}' || c == '\u{000D}'
        || c == '\u{0020}' || c == '\u{0085}' || c == '\u{00A0}' || c == '\u{1680}'
        || ('\u{2000}' <= c && c <= '\u{200A}')
        || c == '\u{2028}' || c == '\u{2029}' || c == '\u{202F}' || c == '\u{205F}' || c == '\u{3000}'
}

/// Relies on `String::push`: appends exactly the one character `c` to `s`.
#[verifier::external_body]
pub(crate) fn push_char(s: &mut String, c: char)
    ensures
        final(s)@ == old(s)@.push(c),
{
    s.push(c);
}

/// The input with its leading Unicode whitespace removed.
pub open spec fn trim_start_spec(s: Seq<char>) -> Seq<char>
    decreases s.len(),
{
    if s.len() == 0 || !is_unicode_ws(s[0]) {
        s
    } else {
        trim_start_spec(s.drop_first())
    }
}

/// The input with its trailing Unicode whitespace removed.
pub open spec fn trim_end_spec(s: Seq<char>) -> Seq<char>
    decreases s.len(),
{
    if s.len() == 0 || !is_unicode_ws(s.last()) {
        s
    } else {
        trim_end_spec(s.drop_last())
    }
}

/// The input with leading and trailing Unicode whitespace removed.
pub open spec fn trim_spec(s: Seq<char>) -> Seq<char> {
    trim_end_spec(trim_start_spec(s))
}

proof fn lemma_trim_start_scan(s: Seq<char>, j: int)
    requires
        0 <= j <= s.len(),
        forall|k: int| 0 <= k < j ==> is_unicode_ws(s[k]),
        j < s.len() ==> !is_unicode_ws(s[j]),
    ensures
        trim_start_spec(s) == s.subrange(j, s.len() as int),
    decreases j,
{
    if j == 0 {
        if s.len() == 0 || !is_unicode_ws(s[0]) {
            assert(s.subrange(0, s.len() as int) =~= s);
        }
    } else {
        let t = s.drop_first();
        assert(is_unicode_ws(s[0]));
        lemma_trim_start_scan(t, j - 1);
        assert(t.subrange(j - 1, t.len() as int) =~= s.subrange(j, s.len() as int));
    }
}

proof fn lemma_trim_end_scan(s: Seq<char>, j: int)
    requires
        0 <= j <= s.len(),
        forall|k: int| j <= k < s.len() ==> is_unicode_ws(s[k]),
        j > 0 ==> !is_unicode_ws(s[j - 1]),
    ensures
        trim_end_spec(s) == s.subrange(0, j),
    decreases s.len(),
{
    if j == s.len() {
        if s.len() == 0 || !is_unicode_ws(s.last()) {
            assert(s.subrange(0, j) =~= s);
        } else {
            assert(!is_unicode_ws(s[j - 1]));
        }
    } else {
        assert(is_unicode_ws(s.last()));
        let t = s.drop_last();
        lemma_trim_end_scan(t, j);
        assert(t.subrange(0, j) =~= s.subrange(0, j));
    }
}

/// Removes leading Unicode whitespace, as `str::trim_start` does.
pub fn trim_start(s: &str) -> (r: &str)
    ensures
        r@ == trim_start_spec(s@),
{
    let n = s.unicode_len();
    let mut i: usize = 0;
    while i < n && unicode_ws(s.get_char(i))
        invariant
            n == s@.len(),
            i <= n,
            forall|k: int| 0 <= k < i ==> is_unicode_ws(s@[k]),
        decreases n - i,
    {
        i = i + 1;
    }
    proof {
        lemma_trim_start_scan(s@, i as int);
    }
    s.substring_char(i, n)
}

/// Removes leading and trailing Unicode whitespace, as `str::trim` does.
pub fn trim(s: &str) -> (r: &str)
    ensures
        r@ == trim_spec(s@),
{
    let t = trim_start(s);
    let n = t.unicode_len();
    let mut j: usize = n;
    while j > 0 && unicode_ws(t.get_char(j - 1))
        invariant
            n == t@.len(),
            j <= n,
            forall|k: int| j <= k < n ==> is_unicode_ws(t@[k]),
        decreases j,
    {
        j = j - 1;
    }
    proof {
        lemma_trim_end_scan(t@, j as int);
    }
    t.substring_char(0, j)
}

/// The concatenation of a sequence of character sequences.
pub open spec fn concat_seqs(ss: Seq<Seq<char>>) -> Seq<char>
    decreases ss.len(),
{
    if ss.len() == 0 {
        Seq::empty()
    } else {
        concat_seqs(ss.drop_last()) + ss.last()
    }
}

/// Splits `s` into its lines, each line keeping its terminating line feed,
/// as `str::split_inclusive('\n')` does. The pieces concatenate to `s`.
pub fn split_lines(s: &str) -> (r: Vec<&str>)
    ensures
        concat_seqs(r@.map(|i: int, p: &str| p@)) == s@,
{
    let n = s.unicode_len();
    let mut r: Vec<&str> = Vec::new();
    let mut start: usize = 0;
    let mut i: usize = 0;
    while i < n
        invariant
            n == s@.len(),
            start <= i <= n,
            concat_seqs(r@.map(|k: int, p: &str| p@)) == s@.subrange(0, start as int),
        decreases n - i,
    {
        if s.get_char(i) == '\n' {
            let ghost pre = r@.map(|k: int, p: &str| p@);
            let piece = s.substring_char(start, i + 1);
            r.push(piece);
            proof {
                assert(r@.map(|k: int, p: &str| p@) =~= pre.push(piece@));
                assert(pre.push(piece@).drop_last() =~= pre);
                assert(s@.subrange(0, start as int) + s@.subrange(start as int, i + 1) =~= s@.subrange(0, i + 1));
            }
            start = i + 1;
        }
        i = i + 1;
    }
    if start < n {
        let ghost pre = r@.map(|k: int, p: &str| p@);
        let piece = s.substring_char(start, n);
        r.push(piece);
        proof {
            assert(r@.map(|k: int, p: &str| p@) =~= pre.push(piece@));
            assert(pre.push(piece@).drop_last() =~= pre);
            assert(s@.subrange(0, start as int) + s@.subrange(start as int, n as int) =~= s@);
        }
    } else {
        proof {
            assert(s@.subrange(0, start as int) =~= s@);
        }
    }
    r
}

/// The length of the first whitespace-delimited token of `s`: the index of
/// the first ASCII whitespace character, or the whole length if there is
/// none.
pub open spec fn first_token_len(s: Seq<char>) -> nat
    decreases s.len(),
{
    if s.len() == 0 || is_ascii_ws(s[0]) {
        0
    } else {
        1 + first_token_len(s.drop_first())
    }
}

proof fn lemma_first_token_scan(s: Seq<char>, j: int)
    requires
        0 <= j <= s.len(),
        forall|k: int| 0 <= k < j ==> !is_ascii_ws(s[k]),
        j < s.len() ==> is_ascii_ws(s[j]),
    ensures
        first_token_len(s) == j,
    decreases j,
{
    if j == 0 {
    } else {
        assert(!is_ascii_ws(s[0]));
        lemma_first_token_scan(s.drop_first(), j - 1);
    }
}

/// The first whitespace-delimited token of `s` (possibly empty).
pub fn first_token(s: &str) -> (r: &str)
    ensures
        r@ == s@.subrange(0, first_token_len(s@) as int),
{
    let n = s.unicode_len();
    let mut i: usize = 0;
    while i < n && !ascii_ws(s.get_char(i))
        invariant
            n == s@.len(),
            i <= n,
            forall|k: int| 0 <= k < i ==> !is_ascii_ws(s@[k]),
        decreases n - i,
    {
        i = i + 1;
    }
    proof {
        lemma_first_token_scan(s@, i as int);
    }
    s.substring_char(0, i)
}

/// Compares two string slices character by character.
pub fn str_eq_chars(a: &str, b: &str) -> (r: bool)
    ensures
        r == (a@ == b@),
{
    let n = a.unicode_len();
    let m = b.unicode_len();
    if n != m {
        return false;
    }
    let mut i: usize = 0;
    while i < n
        invariant
            n == a@.len(),
            n == b@.len(),
            i <= n,
            forall|k: int| 0 <= k < i ==> a@[k] == b@[k],
        decreases n - i,
    {
        if a.get_char(i) != b.get_char(i) {
            return false;
        }
        i = i + 1;
    }
    proof {
        assert(a@ =~= b@);
    }
    true
}

/// The decimal digit character for a value below ten.
pub open spec fn digit_char(d: nat) -> char {
    if d == 0 { '0' }
    else if d == 1 { '1' }
    else if d == 2 { '2' }
    else if d == 3 { '3' }
    else if d == 4 { '4' }
    else if d == 5 { '5' }
    else if d == 6 { '6' }
    else if d == 7 { '7' }
    else if d == 8 { '8' }
    else { '9' }
}

/// The usual decimal rendering of `n`, most significant digit first, with no
/// leading zeros (a single `'0'` for zero).
pub open spec fn dec_rep(n: nat) -> Seq<char>
    decreases n,
{
    if n < 10 {
        seq![digit_char(n)]
    } else {
        dec_rep(n / 10).push(digit_char(n % 10))
    }
}

fn digit_str(d: usize) -> (r: &'static str)
    requires
        d < 10,
    ensures
        r@ =~= seq![digit_char(d as nat)],
{
    proof {
        reveal_strlit("0");
        reveal_strlit("1");
        reveal_strlit("2");
        reveal_strlit("3");
        reveal_strlit("4");
        reveal_strlit("5");
        reveal_strlit("6");
        reveal_strlit("7");
        reveal_strlit("8");
        reveal_strlit("9");
    }
    if d == 0 { "0" }
    else if d == 1 { "1" }
    else if d == 2 { "2" }
    else if d == 3 { "3" }
    else if d == 4 { "4" }
    else if d == 5 { "5" }
    else if d == 6 { "6" }
    else if d == 7 { "7" }
    else if d == 8 { "8" }
    else { "9" }
}

/// Renders `n` in decimal.
pub fn usize_to_string(n: usize) -> (r: String)
    ensures
        r@ == dec_rep(n as nat),
    decreases n,
{
    if n < 10 {
        String::from_str(digit_str(n))
    } else {
        let mut r = usize_to_string(n / 10);
        r.append(digit_str(n % 10));
        proof {
            assert(r@ =~= dec_rep((n / 10) as nat).push(digit_char((n % 10) as nat)));
        }
        r
    }
}

/// `n` copies of `piece`, concatenated.
pub open spec fn repeat_seq(piece: Seq<char>, n: nat) -> Seq<char>
    decreases n,
{
    if n == 0 {
        Seq::empty()
    } else {
        repeat_seq(piece, (n - 1) as nat) + piece
    }
}

/// Builds a string of `n` copies of `piece`.
pub fn repeat_str(piece: &str, n: usize) -> (r: String)
    ensures
        r@ == repeat_seq(piece@, n as nat),
{
    let mut r = String::new();
    let mut i: usize = 0;
    while i < n
        invariant
            i <= n,
            r@ == repeat_seq(piece@, i as nat),
        decreases n - i,
    {
        r.append(piece);
        i = i + 1;
    }
    r
}

} // verus!
