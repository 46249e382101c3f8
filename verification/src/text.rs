//! Character and string helpers: whitespace trimming, ASCII case folding,
//! newline stripping, term masking and decimal rendering.

use vstd::prelude::*;
use vstd::string::*;

verus! {

/// Unicode `White_Space` code points, the set that `char::is_whitespace` tests.
pub open spec fn is_ws(c: char) -> bool {
    let u = c as u32;
    ||| 0x09 <= u <= 0x0D
    ||| u == 0x20
    ||| u == 0x85
    ||| u == 0xA0
    ||| u == 0x1680
    ||| 0x2000 <= u <= 0x200A
    ||| u == 0x2028
    ||| u == 0x2029
    ||| u == 0x202F
    ||| u == 0x205F
    ||| u == 0x3000
}

pub open spec fn is_ascii_alpha(c: char) -> bool {
    ('a' <= c && c <= 'z') || ('A' <= c && c <= 'Z')
}

/// The code of `c` after ASCII lowercasing (other characters keep their code).
pub open spec fn ascii_fold(c: char) -> u32 {
    if 'A' <= c && c <= 'Z' {
        (c as u32 + 32) as u32
    } else {
        c as u32
    }
}

/// Leading whitespace removed.
pub open spec fn trim_start(s: Seq<char>) -> Seq<char>
    decreases s.len(),
{
    if s.len() > 0 && is_ws(s[0]) {
        trim_start(s.drop_first())
    } else {
        s
    }
}

/// Trailing whitespace removed.
pub open spec fn trim_end(s: Seq<char>) -> Seq<char>
    decreases s.len(),
{
    if s.len() > 0 && is_ws(s.last()) {
        trim_end(s.drop_last())
    } else {
        s
    }
}

/// Leading and trailing whitespace removed, as `str::trim` does.
pub open spec fn trim(s: Seq<char>) -> Seq<char> {
    trim_end(trim_start(s))
}

/// The same characters up to ASCII case.
pub open spec fn eq_ignore_ascii(a: Seq<char>, b: Seq<char>) -> bool {
    a.len() == b.len() && forall|i: int| 0 <= i < a.len() ==> #[trigger] ascii_fold(a[i]) == ascii_fold(b[i])
}

/// The characters of `s` other than line feed and carriage return, in order.
pub open spec fn without_newlines(s: Seq<char>) -> Seq<char>
    decreases s.len(),
{
    if s.len() == 0 {
        s
    } else {
        let rest = without_newlines(s.drop_last());
        if s.last() != '\n' && s.last() != '\r' {
            rest.push(s.last())
        } else {
            rest
        }
    }
}

/// The spelling hint of a term: first and last characters kept, ASCII letters
/// in between replaced by `_`; terms of at most two characters become `__`.
pub open spec fn masked(s: Seq<char>) -> Seq<char> {
    if s.len() <= 2 {
        seq!['_', '_']
    } else {
        Seq::new(
            s.len(),
            |i: int|
                if i == 0 || i == s.len() - 1 || !is_ascii_alpha(s[i]) {
                    s[i]
                } else {
                    '_'
                },
        )
    }
}

pub open spec fn digit_char(d: nat) -> char {
    if d == 0 { '0' }
    else if d == 1 { '1' }
    else if d == 2 { '2' }
    else if d == 3 { '3' }
    else if d == 4 { '4' }
    else if d == 5 { '5' }
    else if d == 6 { '6' }
    else if d == 7 { '7' }
    else if d == 8 { '8' }
    else { '9' }
}

/// The decimal digits of `n`, most significant first, without leading zeros.
pub open spec fn decimal(n: nat) -> Seq<char>
    decreases n,
{
    if n < 10 {
        seq![digit_char(n)]
    } else {
        decimal(n / 10).push(digit_char(n % 10))
    }
}

/// A name for what `str::to_lowercase` returns: the full Unicode lowercase
/// mapping of the text.
pub uninterp spec fn lowercase_text(s: Seq<char>) -> Seq<char>;

/// Lowercases `s` by `str::to_lowercase`. Claimed: the result is
/// `lowercase_text` of the input, and it is not empty when the input is not
/// (std documents that every character lowercases to one or more
/// characters); nothing more is claimed of that name.
#[verifier::external_body]
fn lowercase(s: &str) -> (r: String)
    ensures
        r@ == lowercase_text(s@),
        s@.len() > 0 ==> r@.len() > 0,
{
    s.to_lowercase()
}

/// Appends one character with `String::push`. Claimed: the text grows by
/// exactly that character at its end.
#[verifier::external_body]
pub(crate) fn push_char(s: &mut String, c: char)
    ensures
        final(s)@ == old(s)@.push(c),
{
    s.push(c)
}

/// Removes the last character with `String::pop`. Claimed: the text loses
/// its last character when it has one, and that character is returned.
#[verifier::external_body]
pub(crate) fn pop_char(s: &mut String) -> (r: Option<char>)
    ensures
        old(s)@.len() == 0 ==> r is None && final(s)@ == old(s)@,
        old(s)@.len() > 0 ==> r == Some(old(s)@.last()) && final(s)@ == old(s)@.drop_last(),
{
    s.pop()
}

/// The text without its last character, if it has one.
pub open spec fn without_last(s: Seq<char>) -> Seq<char> {
    if s.len() > 0 { s.drop_last() } else { s }
}

/// The characters of `s` as a vector.
pub fn chars_of(s: &str) -> (v: Vec<char>)
    ensures
        v@ == s@,
{
    let n = s.unicode_len();
    let mut v: Vec<char> = Vec::new();
    let mut i: usize = 0;
    while i < n
        invariant
            n == s@.len(),
            i <= n,
            v@ == s@.take(i as int),
        decreases n - i,
    {
        let c = s.get_char(i);
        v.push(c);
        assert(s@.take(i + 1) =~= s@.take(i as int).push(c));
        i = i + 1;
    }
    assert(s@.take(n as int) =~= s@);
    v
}

/// The characters `v[from..to]` as a string.
pub fn string_from_range(v: &Vec<char>, from: usize, to: usize) -> (r: String)
    requires
        from <= to <= v.len(),
    ensures
        r@ == v@.subrange(from as int, to as int),
{
    let mut r = String::new();
    let mut i = from;
    while i < to
        invariant
            from <= i <= to <= v.len(),
            r@ == v@.subrange(from as int, i as int),
        decreases to - i,
    {
        push_char(&mut r, v[i]);
        assert(v@.subrange(from as int, i + 1) =~= v@.subrange(from as int, i as int).push(v@[i as int]));
        i = i + 1;
    }
    r
}

/// A new string holding `s`.
pub fn owned(s: &str) -> (r: String)
    ensures
        r@ == s@,
{
    String::from_str(s)
}

/// `a` followed by `b`.
pub fn concat2(a: &str, b: &str) -> (r: String)
    ensures
        r@ == a@ + b@,
{
    let mut r = String::from_str(a);
    r.append(b);
    r
}

/// `a`, `b` and `c` one after another.
pub fn concat3(a: &str, b: &str, c: &str) -> (r: String)
    ensures
        r@ == a@ + b@ + c@,
{
    let mut r = String::from_str(a);
    r.append(b);
    r.append(c);
    r
}

pub fn is_whitespace_char(c: char) -> (r: bool)
    ensures
        r == is_ws(c),
{
    let u = c as u32;
    (0x09 <= u && u <= 0x0D) || u == 0x20 || u == 0x85 || u == 0xA0 || u == 0x1680 || (0x2000
        <= u && u <= 0x200A) || u == 0x2028 || u == 0x2029 || u == 0x202F || u == 0x205F || u
        == 0x3000
}

pub fn is_ascii_alphabetic_char(c: char) -> (r: bool)
    ensures
        r == is_ascii_alpha(c),
{
    ('a' <= c && c <= 'z') || ('A' <= c && c <= 'Z')
}

fn ascii_fold_code(c: char) -> (r: u32)
    ensures
        r == ascii_fold(c),
{
    if 'A' <= c && c <= 'Z' {
        c as u32 + 32
    } else {
        c as u32
    }
}

proof fn lemma_trim_start_front(s: Seq<char>)
    ensures
        trim_start(s).len() == 0 || !is_ws(trim_start(s)[0]),
    decreases s.len(),
{
    if s.len() > 0 && is_ws(s[0]) {
        lemma_trim_start_front(s.drop_first());
    }
}

proof fn lemma_trim_end_prefix(s: Seq<char>)
    ensures
        trim_end(s).len() <= s.len(),
        trim_end(s) == s.take(trim_end(s).len() as int),
        trim_end(s).len() == 0 || !is_ws(trim_end(s).last()),
    decreases s.len(),
{
    if s.len() > 0 && is_ws(s.last()) {
        lemma_trim_end_prefix(s.drop_last());
        assert(s.drop_last().take(trim_end(s).len() as int) =~= s.take(trim_end(s).len() as int));
    } else {
        assert(s.take(s.len() as int) =~= s);
    }
}

/// Trimming twice is trimming once.
pub proof fn lemma_trim_idempotent(s: Seq<char>)
    ensures
        trim(trim(s)) == trim(s),
{
    let a = trim_start(s);
    let t = trim_end(a);
    lemma_trim_start_front(s);
    lemma_trim_end_prefix(a);
    if t.len() > 0 {
        assert(t[0] == a[0]);
    }
    assert(trim_start(t) == t);
    assert(trim_end(t) == t) by {
        if t.len() > 0 {
            assert(!is_ws(t.last()));
        }
    }
}

proof fn lemma_trim_start_skip(s: Seq<char>, i: int)
    requires
        0 <= i < s.len(),
        is_ws(s[i]),
    ensures
        trim_start(s.subrange(i, s.len() as int)) == trim_start(s.subrange(i + 1, s.len() as int)),
{
    let t = s.subrange(i, s.len() as int);
    assert(t.drop_first() =~= s.subrange(i + 1, s.len() as int));
}

proof fn lemma_trim_end_skip(s: Seq<char>, j: int)
    requires
        0 < j <= s.len(),
        is_ws(s[j - 1]),
    ensures
        trim_end(s.subrange(0, j)) == trim_end(s.subrange(0, j - 1)),
{
    let t = s.subrange(0, j);
    assert(t.drop_last() =~= s.subrange(0, j - 1));
}

/// The start and end positions of the trimmed part of `v`.
pub fn trim_bounds(v: &Vec<char>) -> (r: (usize, usize))
    ensures
        r.0 <= r.1 <= v.len(),
        v@.subrange(r.0 as int, r.1 as int) == trim(v@),
{
    let n = v.len();
    let mut i: usize = 0;
    assert(v@.subrange(0, n as int) =~= v@);
    while i < n && is_whitespace_char(v[i])
        invariant
            i <= n == v.len(),
            trim_start(v@) == trim_start(v@.subrange(i as int, n as int)),
        decreases n - i,
    {
        proof {
            lemma_trim_start_skip(v@, i as int);
        }
        i = i + 1;
    }
    let ghost left = v@.subrange(i as int, n as int);
    assert(trim_start(left) == left);
    let mut j: usize = n;
    assert(left.subrange(0, (n - i) as int) =~= left);
    while j > i && is_whitespace_char(v[j - 1])
        invariant
            i <= j <= n == v.len(),
            left == v@.subrange(i as int, n as int),
            trim_end(left) == trim_end(v@.subrange(i as int, j as int)),
        decreases j,
    {
        proof {
            lemma_trim_end_skip(left, (j - i) as int);
            assert(left.subrange(0, (j - i) as int) =~= v@.subrange(i as int, j as int));
            assert(left.subrange(0, (j - i - 1) as int) =~= v@.subrange(i as int, j - 1));
        }
        j = j - 1;
    }
    let ghost mid = v@.subrange(i as int, j as int);
    assert(trim_end(mid) == mid);
    (i, j)
}

/// `s` with leading and trailing whitespace removed.
pub fn trimmed(s: &str) -> (r: String)
    ensures
        r@ == trim(s@),
{
    let v = chars_of(s);
    let (i, j) = trim_bounds(&v);
    string_from_range(&v, i, j)
}

/// Whether `s` is empty or only whitespace.
pub fn is_blank(s: &str) -> (r: bool)
    ensures
        r == (trim(s@).len() == 0),
{
    let v = chars_of(s);
    let (i, j) = trim_bounds(&v);
    i == j
}

/// The key under which two terms count as the same word: the term trimmed of
/// surrounding whitespace, then lowercased.
pub fn normalize_term(term: &str) -> (r: String)
    ensures
        r@ == lowercase_text(trim(term@)),
        trim(term@).len() > 0 ==> r@.len() > 0,
{
    let t = trimmed(term);
    lowercase(t.as_str())
}

/// The key under which two topics count as the same topic: the topic trimmed
/// of surrounding whitespace, then lowercased.
pub fn normalize_topic(topic: &str) -> (r: String)
    ensures
        r@ == lowercase_text(trim(topic@)),
        trim(topic@).len() > 0 ==> r@.len() > 0,
{
    let t = trimmed(topic);
    lowercase(t.as_str())
}

/// Whether the two texts are equal up to ASCII case.
pub fn eq_ignore_ascii_case(a: &str, b: &str) -> (r: bool)
    ensures
        r == eq_ignore_ascii(a@, b@),
{
    let x = chars_of(a);
    let y = chars_of(b);
    if x.len() != y.len() {
        return false;
    }
    let mut i: usize = 0;
    while i < x.len()
        invariant
            x@ == a@,
            y@ == b@,
            x.len() == y.len(),
            i <= x.len(),
            forall|k: int| 0 <= k < i ==> #[trigger] ascii_fold(x@[k]) == ascii_fold(y@[k]),
        decreases x.len() - i,
    {
        if ascii_fold_code(x[i]) != ascii_fold_code(y[i]) {
            return false;
        }
        i = i + 1;
    }
    true
}

/// `text` without line feeds and carriage returns.
pub fn strip_newlines(text: &str) -> (r: String)
    ensures
        r@ == without_newlines(text@),
{
    let v = chars_of(text);
    let mut r = String::new();
    let mut i: usize = 0;
    while i < v.len()
        invariant
            v@ == text@,
            i <= v.len(),
            r@ == without_newlines(v@.take(i as int)),
        decreases v.len() - i,
    {
        let c = v[i];
        assert(v@.take(i + 1).drop_last() =~= v@.take(i as int));
        if c != '\n' && c != '\r' {
            push_char(&mut r, c);
        }
        i = i + 1;
    }
    assert(v@.take(v.len() as int) =~= v@);
    r
}

/// The spelling hint shown for a term.
pub fn mask_term(term: &str) -> (r: String)
    ensures
        r@ == masked(term@),
{
    let chars = chars_of(term);
    if chars.len() <= 2 {
        let r = String::from_str("__");
        proof {
            reveal_strlit("__");
            assert(r@ =~= seq!['_', '_']);
        }
        return r;
    }
    let mut out = String::new();
    let n = chars.len();
    let mut idx: usize = 0;
    while idx < n
        invariant
            chars@ == term@,
            n == chars.len() > 2,
            idx <= n,
            out@ =~= masked(term@).take(idx as int),
        decreases n - idx,
    {
        let ch = chars[idx];
        if idx == 0 || idx + 1 == n {
            push_char(&mut out, ch);
        } else if is_ascii_alphabetic_char(ch) {
            push_char(&mut out, '_');
        } else {
            push_char(&mut out, ch);
        }
        idx = idx + 1;
    }
    out
}

/// Text with its line breaks dropped holds no line break, and dropping them
/// again changes nothing.
pub proof fn law_strip_newlines(s: Seq<char>)
    ensures
        forall|i: int|
            0 <= i < without_newlines(s).len() ==> #[trigger] without_newlines(s)[i] != '\n'
                && without_newlines(s)[i] != '\r',
        without_newlines(without_newlines(s)) == without_newlines(s),
        without_newlines(s).len() <= s.len(),
    decreases s.len(),
{
    if s.len() > 0 {
        law_strip_newlines(s.drop_last());
        let rest = without_newlines(s.drop_last());
        if s.last() != '\n' && s.last() != '\r' {
            assert(rest.push(s.last()).drop_last() =~= rest);
        }
    }
}

/// The spelling hint of a term longer than two characters has its length
/// and keeps its first and last characters.
pub proof fn law_mask_keeps_ends(s: Seq<char>)
    requires
        s.len() > 2,
    ensures
        masked(s).len() == s.len(),
        masked(s)[0] == s[0],
        masked(s)[s.len() - 1] == s[s.len() - 1],
{
}

fn digit_of(d: u64) -> (c: char)
    requires
        d < 10,
    ensures
        c == digit_char(d as nat),
{
    if d == 0 { '0' }
    else if d == 1 { '1' }
    else if d == 2 { '2' }
    else if d == 3 { '3' }
    else if d == 4 { '4' }
    else if d == 5 { '5' }
    else if d == 6 { '6' }
    else if d == 7 { '7' }
    else if d == 8 { '8' }
    else { '9' }
}

/// `n` written in decimal.
pub fn decimal_string(n: u64) -> (r: String)
    ensures
        r@ == decimal(n as nat),
    decreases n,
{
    if n < 10 {
        let mut r = String::new();
        push_char(&mut r, digit_of(n));
        assert(r@ =~= seq![digit_char(n as nat)]);
        r
    } else {
        let mut r = decimal_string(n / 10);
        push_char(&mut r, digit_of(n % 10));
        r
    }
}

} // verus!
