//! Character classification and small text utilities shared by the lexers and
//! parsers: Unicode character classes, comparisons between character buffers
//! and string literals, and decimal rendering of counters for diagnostics.

use vstd::prelude::*;

verus! {

/// The Unicode `White_Space` property, written out in full. This is the exact
/// set that `char::is_whitespace` recognizes.
pub open spec fn is_space_char(c: char) -> bool {
    ||| c == ' '
    ||| c == '\t'
    ||| c == '\n'
    ||| c == '\u{0B}'
    ||| c == '\u{0C}'
    ||| c == '\r'
    ||| c == '\u{85}'
    ||| c == '\u{A0}'
    ||| c == '\u{1680}'
    ||| ('\u{2000}' <= c && c <= '\u{200A}')
    ||| c == '\u{2028}'
    ||| c == '\u{2029}'
    ||| c == '\u{202F}'
    ||| c == '\u{205F}'
    ||| c == '\u{3000}'
}

/// Whether `c` has the Unicode `Alphabetic` property. The set is too large to
/// write out; `char_is_alphabetic` is the only source of truth about it.
pub uninterp spec fn is_alpha_char(c: char) -> bool;

/// Whether `c` is numeric in the Unicode sense (general categories Nd, Nl,
/// No). The set is too large to write out; `char_is_numeric` is the only
/// source of truth about it.
pub uninterp spec fn is_numeric_char(c: char) -> bool;

/// Relies on `char::is_alphabetic`: the result depends on the character alone.
#[verifier::external_body]
pub fn char_is_alphabetic(c: char) -> (r: bool)
    ensures
        r == is_alpha_char(c),
{
    c.is_alphabetic()
}

/// Relies on `char::is_numeric`: the result depends on the character alone.
#[verifier::external_body]
pub fn char_is_numeric(c: char) -> (r: bool)
    ensures
        r == is_numeric_char(c),
{
    c.is_numeric()
}

/// Relies on `char::is_alphanumeric`, which std documents as the union of the
/// `Alphabetic` property and the numeric general categories.
#[verifier::external_body]
pub fn char_is_alphanumeric(c: char) -> (r: bool)
    ensures
        r == (is_alpha_char(c) || is_numeric_char(c)),
{
    c.is_alphanumeric()
}

/// `char::is_whitespace`, computed directly from the written-out set.
pub fn char_is_space(c: char) -> (r: bool)
    ensures
        r == is_space_char(c),
{
    c == ' ' || c == '\t' || c == '\n' || c == '\u{0B}' || c == '\u{0C}' || c == '\r'
        || c == '\u{85}' || c == '\u{A0}' || c == '\u{1680}' || ('\u{2000}' <= c && c
        <= '\u{200A}') || c == '\u{2028}' || c == '\u{2029}' || c == '\u{202F}' || c == '\u{205F}'
        || c == '\u{3000}'
}

/// ASCII decimal digit.
pub open spec fn is_digit_char(c: char) -> bool {
    '0' <= c && c <= '9'
}

pub fn char_is_digit(c: char) -> (r: bool)
    ensures
        r == is_digit_char(c),
{
    '0' <= c && c <= '9'
}

/// Numeric value of an ASCII decimal digit.
pub open spec fn digit_value(c: char) -> nat {
    (c as nat - '0' as nat) as nat
}

pub fn char_digit_value(c: char) -> (v: u8)
    requires
        is_digit_char(c),
    ensures
        v == digit_value(c),
        v < 10,
{
    (c as u8) - ('0' as u8)
}

/// The ASCII digit character for a value below ten.
pub open spec fn digit_char(d: nat) -> char
    recommends
        d < 10,
{
    if d == 0 {
        '0'
    } else if d == 1 {
        '1'
    } else if d == 2 {
        '2'
    } else if d == 3 {
        '3'
    } else if d == 4 {
        '4'
    } else if d == 5 {
        '5'
    } else if d == 6 {
        '6'
    } else if d == 7 {
        '7'
    } else if d == 8 {
        '8'
    } else {
        '9'
    }
}

/// Decimal rendering of a natural number, most significant digit first.
pub open spec fn dec_chars(n: nat) -> Seq<char>
    decreases n,
{
    if n < 10 {
        seq![digit_char(n)]
    } else {
        dec_chars(n / 10).push(digit_char(n % 10))
    }
}

fn digit_to_char(d: u64) -> (c: char)
    requires
        d < 10,
    ensures
        c == digit_char(d as nat),
{
    if d == 0 {
        '0'
    } else if d == 1 {
        '1'
    } else if d == 2 {
        '2'
    } else if d == 3 {
        '3'
    } else if d == 4 {
        '4'
    } else if d == 5 {
        '5'
    } else if d == 6 {
        '6'
    } else if d == 7 {
        '7'
    } else if d == 8 {
        '8'
    } else {
        '9'
    }
}

/// Renders `n` in decimal.
pub fn u64_to_chars(n: u64) -> (r: Vec<char>)
    ensures
        r@ == dec_chars(n as nat),
    decreases n,
{
    if n < 10 {
        let mut v: Vec<char> = Vec::new();
        v.push(digit_to_char(n));
        assert(v@ =~= dec_chars(n as nat));
        v
    } else {
        let mut v = u64_to_chars(n / 10);
        v.push(digit_to_char(n % 10));
        assert(v@ =~= dec_chars(n as nat));
        v
    }
}

/// True when the character buffer `v` holds exactly the text of `s`.
pub fn chars_eq_str(v: &[char], s: &str) -> (r: bool)
    ensures
        r == (v@ == s@),
{
    let n = s.unicode_len();
    if v.len() != n {
        return false;
    }
    for i in 0..n
        invariant
            n == s@.len(),
            v@.len() == n,
            forall|j: int| 0 <= j < i ==> v@[j] == s@[j],
    {
        if v[i] != s.get_char(i) {
            return false;
        }
    }
    proof {
        assert(v@ =~= s@);
    }
    true
}

/// The characters of `s`, as an owned buffer.
pub fn str_to_chars(s: &str) -> (r: Vec<char>)
    ensures
        r@ == s@,
{
    let n = s.unicode_len();
    let mut r: Vec<char> = Vec::new();
    for i in 0..n
        invariant
            n == s@.len(),
            r@ =~= s@.subrange(0, i as int),
    {
        r.push(s.get_char(i));
    }
    proof {
        assert(r@ =~= s@);
    }
    r
}

/// Appends the text of `s` to `dest`.
pub fn push_str_chars(dest: &mut Vec<char>, s: &str)
    ensures
        final(dest)@ == old(dest)@ + s@,
{
    let n = s.unicode_len();
    for i in 0..n
        invariant
            n == s@.len(),
            dest@ =~= old(dest)@ + s@.subrange(0, i as int),
    {
        dest.push(s.get_char(i));
    }
    proof {
        assert(dest@ =~= old(dest)@ + s@);
    }
}

/// Appends a copy of the span `[from, to)` of `src` to `dest`.
pub fn push_span(dest: &mut Vec<char>, src: &[char], from: usize, to: usize)
    requires
        from <= to <= src@.len(),
    ensures
        final(dest)@ == old(dest)@ + src@.subrange(from as int, to as int),
{
    for i in from..to
        invariant
            from <= i <= to <= src@.len(),
            dest@ =~= old(dest)@ + src@.subrange(from as int, i as int),
    {
        dest.push(src[i]);
    }
    proof {
        assert(dest@ =~= old(dest)@ + src@.subrange(from as int, to as int));
    }
}

/// The first position at or after `from` holding the character `c`, or the
/// length of `s` when no such position exists.
pub open spec fn scan_to_char(s: Seq<char>, from: int, c: char) -> int
    decreases s.len() - from,
{
    if from < 0 || from >= s.len() {
        s.len() as int
    } else if s[from] == c {
        from
    } else {
        scan_to_char(s, from + 1, c)
    }
}

/// Position and bracketing facts about `scan_to_char`.
pub proof fn lemma_scan_to_char(s: Seq<char>, from: int, c: char)
    requires
        0 <= from <= s.len(),
    ensures
        from <= scan_to_char(s, from, c) <= s.len(),
        scan_to_char(s, from, c) < s.len() ==> s[scan_to_char(s, from, c)] == c,
        forall|k: int| from <= k < scan_to_char(s, from, c) ==> s[k] != c,
    decreases s.len() - from,
{
    if from < s.len() && s[from] != c {
        lemma_scan_to_char(s, from + 1, c);
    }
}

/// Finds the first occurrence of `c` in `s` at or after `from`.
pub fn find_char(s: &[char], from: usize, c: char) -> (r: usize)
    requires
        from <= s@.len(),
    ensures
        r == scan_to_char(s@, from as int, c),
        from <= r <= s@.len(),
{
    let mut i = from;
    while i < s.len() && s[i] != c
        invariant
            from <= i <= s@.len(),
            scan_to_char(s@, from as int, c) == scan_to_char(s@, i as int, c),
        decreases s@.len() - i,
    {
        i = i + 1;
    }
    i
}

/// The first position at or after `from` holding a character that is not
/// Unicode white space, or the length of `s`.
pub open spec fn skip_spaces(s: Seq<char>, from: int) -> int
    decreases s.len() - from,
{
    if from < 0 || from >= s.len() {
        s.len() as int
    } else if is_space_char(s[from]) {
        skip_spaces(s, from + 1)
    } else {
        from
    }
}

/// Position and bracketing facts about `skip_spaces`.
pub proof fn lemma_skip_spaces(s: Seq<char>, from: int)
    requires
        0 <= from <= s.len(),
    ensures
        from <= skip_spaces(s, from) <= s.len(),
        skip_spaces(s, from) < s.len() ==> !is_space_char(s[skip_spaces(s, from)]),
        forall|k: int| from <= k < skip_spaces(s, from) ==> is_space_char(s[k]),
    decreases s.len() - from,
{
    if from < s.len() && is_space_char(s[from]) {
        lemma_skip_spaces(s, from + 1);
    }
}

/// The first position at or after `from` whose character fails `p`, or the
/// length of `s`.
pub open spec fn scan_while(s: Seq<char>, from: int, p: spec_fn(char) -> bool) -> int
    decreases s.len() - from,
{
    if from < 0 || from >= s.len() {
        s.len() as int
    } else if p(s[from]) {
        scan_while(s, from + 1, p)
    } else {
        from
    }
}

/// Scanning backward from `from`: the least position `b <= from` such that
/// every character in `[b, from)` satisfies `p` and `b` is either 0 or
/// preceded by a character failing `p`.
pub open spec fn scan_back_while(s: Seq<char>, from: int, p: spec_fn(char) -> bool) -> int
    decreases from,
{
    if from <= 0 {
        0
    } else if p(s[from - 1]) {
        scan_back_while(s, from - 1, p)
    } else {
        from
    }
}

/// `s` with matching characters removed from both ends, as `str::trim_matches`
/// does for the predicate `p`.
pub open spec fn spec_trim(s: Seq<char>, p: spec_fn(char) -> bool) -> Seq<char> {
    let a = scan_while(s, 0, p);
    let b = scan_back_while(s, s.len() as int, p);
    if a <= b {
        s.subrange(a, b)
    } else {
        Seq::empty()
    }
}

/// `s` with matching characters removed from the end only, as
/// `str::trim_end_matches` does.
pub open spec fn spec_trim_end(s: Seq<char>, p: spec_fn(char) -> bool) -> Seq<char> {
    s.subrange(0, scan_back_while(s, s.len() as int, p))
}

/// `s` with every space character removed (only `' '`, as
/// `str::replace(' ', "")` does).
pub open spec fn strip_blanks(s: Seq<char>) -> Seq<char>
    decreases s.len(),
{
    if s.len() == 0 {
        s
    } else {
        let p = strip_blanks(s.drop_last());
        if s.last() == ' ' {
            p
        } else {
            p.push(s.last())
        }
    }
}

/// A copy of `s` with every `' '` removed.
pub fn strip_blanks_vec(s: &[char]) -> (r: Vec<char>)
    ensures
        r@ == strip_blanks(s@),
{
    let mut r: Vec<char> = Vec::new();
    let n = s.len();
    proof {
        assert(s@.subrange(0, 0) =~= Seq::<char>::empty());
    }
    for i in 0..n
        invariant
            n == s@.len(),
            r@ == strip_blanks(s@.subrange(0, i as int)),
    {
        let ghost prefix = s@.subrange(0, i as int);
        let ghost prefix2 = s@.subrange(0, i + 1);
        proof {
            assert(prefix2.drop_last() =~= prefix);
            assert(prefix2.last() == s@[i as int]);
        }
        if s[i] != ' ' {
            r.push(s[i]);
        }
    }
    proof {
        assert(s@.subrange(0, n as int) =~= s@);
    }
    r
}

/// A copy of `s` with white space trimmed from both ends.
pub fn trim_spaces_vec(s: &[char]) -> (r: Vec<char>)
    ensures
        r@ == spec_trim(s@, |c: char| is_space_char(c)),
{
    let n = s.len();
    let mut a: usize = 0;
    while a < n && char_is_space(s[a])
        invariant
            a <= n,
            n == s@.len(),
            scan_while(s@, 0, |c: char| is_space_char(c)) == scan_while(
                s@,
                a as int,
                |c: char| is_space_char(c),
            ),
        decreases n - a,
    {
        a = a + 1;
    }
    let mut b = n;
    while b > 0 && char_is_space(s[b - 1])
        invariant
            b <= n,
            n == s@.len(),
            scan_back_while(s@, n as int, |c: char| is_space_char(c)) == scan_back_while(
                s@,
                b as int,
                |c: char| is_space_char(c),
            ),
        decreases b,
    {
        b = b - 1;
    }
    if a <= b {
        span_to_vec(s, a, b)
    } else {
        let r: Vec<char> = Vec::new();
        proof {
            assert(r@ =~= spec_trim(s@, |c: char| is_space_char(c)));
        }
        r
    }
}

/// The pieces of `s` between occurrences of `c`, scanning from `from`: the
/// split keeps empty pieces and yields one more piece than there are
/// separators, as `str::split` does.
pub open spec fn split_from(s: Seq<char>, from: int, c: char) -> Seq<Seq<char>>
    decreases s.len() - from,
    when 0 <= from <= s.len()
    via split_from_dec
{
    let i = scan_to_char(s, from, c);
    if i >= s.len() {
        seq![s.subrange(from, s.len() as int)]
    } else {
        seq![s.subrange(from, i)] + split_from(s, i + 1, c)
    }
}

#[via_fn]
proof fn split_from_dec(s: Seq<char>, from: int, c: char) {
    lemma_scan_to_char(s, from, c);
}

/// Splits `s` on `c`, as `str::split` does.
pub fn split_char(s: &[char], c: char) -> (r: Vec<Vec<char>>)
    ensures
        r@.map_values(|p: Vec<char>| p@) == split_from(s@, 0, c),
{
    let mut pieces: Vec<Vec<char>> = Vec::new();
    let mut cur: usize = 0;
    proof {
        assert(pieces@.map_values(|p: Vec<char>| p@) =~= Seq::<Seq<char>>::empty());
        assert(Seq::<Seq<char>>::empty() + split_from(s@, 0, c) =~= split_from(s@, 0, c));
    }
    loop
        invariant
            cur <= s@.len(),
            pieces@.map_values(|p: Vec<char>| p@) + split_from(s@, cur as int, c) == split_from(
                s@,
                0,
                c,
            ),
        decreases s@.len() - cur,
    {
        let ghost accv = pieces@.map_values(|p: Vec<char>| p@);
        let i = find_char(s, cur, c);
        proof {
            lemma_scan_to_char(s@, cur as int, c);
        }
        if i == s.len() {
            pieces.push(span_to_vec(s, cur, s.len()));
            proof {
                assert(pieces@.map_values(|p: Vec<char>| p@) =~= accv.push(
                    s@.subrange(cur as int, s@.len() as int),
                ));
                assert(split_from(s@, cur as int, c) =~= seq![
                    s@.subrange(cur as int, s@.len() as int)
                ]);
                assert(accv.push(s@.subrange(cur as int, s@.len() as int)) =~= accv + seq![
                    s@.subrange(cur as int, s@.len() as int)
                ]);
                assert(pieces@.map_values(|p: Vec<char>| p@) + Seq::<Seq<char>>::empty()
                    =~= pieces@.map_values(|p: Vec<char>| p@));
            }
            return pieces;
        }
        pieces.push(span_to_vec(s, cur, i));
        proof {
            assert(pieces@.map_values(|p: Vec<char>| p@) =~= accv.push(
                s@.subrange(cur as int, i as int),
            ));
            assert(accv.push(s@.subrange(cur as int, i as int)) =~= accv + seq![
                s@.subrange(cur as int, i as int)
            ]);
            assert(split_from(s@, cur as int, c) == seq![s@.subrange(cur as int, i as int)]
                + split_from(s@, i + 1, c));
            assert((accv + seq![s@.subrange(cur as int, i as int)]) + split_from(s@, i + 1, c)
                =~= accv + split_from(s@, cur as int, c));
        }
        cur = i + 1;
    }
}

/// The first position at or after `from` holding white space, or the length
/// of `s`.
pub open spec fn nonspace_end(s: Seq<char>, from: int) -> int
    decreases s.len() - from,
{
    if from < 0 || from >= s.len() {
        s.len() as int
    } else if is_space_char(s[from]) {
        from
    } else {
        nonspace_end(s, from + 1)
    }
}

pub proof fn lemma_nonspace_end(s: Seq<char>, from: int)
    requires
        0 <= from <= s.len(),
    ensures
        from <= nonspace_end(s, from) <= s.len(),
    decreases s.len() - from,
{
    if from < s.len() && !is_space_char(s[from]) {
        lemma_nonspace_end(s, from + 1);
    }
}

/// The white-space-separated words of `s` from `from` on, with no empty
/// pieces, as `str::split_whitespace` yields them.
pub open spec fn split_spaces_from(s: Seq<char>, from: int) -> Seq<Seq<char>>
    decreases s.len() - from,
    when 0 <= from <= s.len()
    via split_spaces_from_dec
{
    let a = skip_spaces(s, from);
    if a >= s.len() {
        Seq::empty()
    } else {
        let b = nonspace_end(s, a);
        seq![s.subrange(a, b)] + split_spaces_from(s, b)
    }
}

#[via_fn]
proof fn split_spaces_from_dec(s: Seq<char>, from: int) {
    lemma_skip_spaces(s, from);
    let a = skip_spaces(s, from);
    if a < s.len() {
        lemma_nonspace_end(s, a + 1);
        assert(nonspace_end(s, a) == nonspace_end(s, a + 1));
    }
}

/// Splits `s` into its white-space-separated words.
pub fn split_whitespace(s: &[char]) -> (r: Vec<Vec<char>>)
    ensures
        r@.map_values(|p: Vec<char>| p@) == split_spaces_from(s@, 0),
{
    let mut pieces: Vec<Vec<char>> = Vec::new();
    let mut cur: usize = 0;
    proof {
        assert(pieces@.map_values(|p: Vec<char>| p@) =~= Seq::<Seq<char>>::empty());
        assert(Seq::<Seq<char>>::empty() + split_spaces_from(s@, 0) =~= split_spaces_from(s@, 0));
    }
    loop
        invariant
            cur <= s@.len(),
            pieces@.map_values(|p: Vec<char>| p@) + split_spaces_from(s@, cur as int)
                == split_spaces_from(s@, 0),
        decreases s@.len() - cur + 1,
    {
        let ghost accv = pieces@.map_values(|p: Vec<char>| p@);
        // skip leading white space
        let mut a = cur;
        while a < s.len() && char_is_space(s[a])
            invariant
                cur <= a <= s@.len(),
                skip_spaces(s@, cur as int) == skip_spaces(s@, a as int),
            decreases s@.len() - a,
        {
            a = a + 1;
        }
        if a == s.len() {
            proof {
                assert(split_spaces_from(s@, cur as int) =~= Seq::<Seq<char>>::empty());
                assert(accv + Seq::<Seq<char>>::empty() =~= accv);
            }
            return pieces;
        }
        let mut b = a;
        while b < s.len() && !char_is_space(s[b])
            invariant
                a <= b <= s@.len(),
                nonspace_end(s@, a as int) == nonspace_end(s@, b as int),
            decreases s@.len() - b,
        {
            b = b + 1;
        }
        pieces.push(span_to_vec(s, a, b));
        proof {
            assert(pieces@.map_values(|p: Vec<char>| p@) =~= accv.push(
                s@.subrange(a as int, b as int),
            ));
            assert(accv.push(s@.subrange(a as int, b as int)) =~= accv + seq![
                s@.subrange(a as int, b as int)
            ]);
            assert(split_spaces_from(s@, cur as int) == seq![s@.subrange(a as int, b as int)]
                + split_spaces_from(s@, b as int));
            assert((accv + seq![s@.subrange(a as int, b as int)]) + split_spaces_from(
                s@,
                b as int,
            ) =~= accv + split_spaces_from(s@, cur as int));
        }
        cur = b;
    }
}

/// Whether `v` begins with the text of `prefix`.
pub open spec fn spec_starts_with(s: Seq<char>, prefix: Seq<char>) -> bool {
    s.len() >= prefix.len() && s.subrange(0, prefix.len() as int) == prefix
}

/// Whether `v` begins with the text of the literal `prefix`.
pub fn starts_with_str(v: &[char], prefix: &str) -> (r: bool)
    ensures
        r == spec_starts_with(v@, prefix@),
{
    let n = prefix.unicode_len();
    if v.len() < n {
        return false;
    }
    for i in 0..n
        invariant
            n == prefix@.len(),
            n <= v@.len(),
            forall|j: int| 0 <= j < i ==> v@[j] == prefix@[j],
    {
        if v[i] != prefix.get_char(i) {
            proof {
                assert(v@.subrange(0, n as int)[i as int] != prefix@[i as int]);
            }
            return false;
        }
    }
    proof {
        assert(v@.subrange(0, n as int) =~= prefix@);
    }
    true
}

/// Appends all of `src` to `dest`.
pub fn append_chars(dest: &mut Vec<char>, src: &[char])
    ensures
        final(dest)@ == old(dest)@ + src@,
{
    let n = src.len();
    for i in 0..n
        invariant
            n == src@.len(),
            dest@ =~= old(dest)@ + src@.subrange(0, i as int),
    {
        dest.push(src[i]);
    }
    proof {
        assert(dest@ =~= old(dest)@ + src@);
    }
}

/// A copy of the span `[from, to)` of `src`.
pub fn span_to_vec(src: &[char], from: usize, to: usize) -> (r: Vec<char>)
    requires
        from <= to <= src@.len(),
    ensures
        r@ == src@.subrange(from as int, to as int),
{
    let mut r: Vec<char> = Vec::new();
    push_span(&mut r, src, from, to);
    r
}

} // verus!
