//! Character and substring utilities shared by the text-processing
//! functions of the library: whitespace trimming, substring search,
//! and ASCII-case-insensitive matching.

use vstd::prelude::*;

verus! {

/// The whitespace characters recognized when trimming.
pub open spec fn is_space_char(c: char) -> bool {
    c == ' ' || c == '\t' || c == '\n' || c == '\r'
}

/// Whitespace test, executable form.
pub fn char_is_space(c: char) -> (r: bool)
    ensures
        r == is_space_char(c),
{
    c == ' ' || c == '\t' || c == '\n' || c == '\r'
}

/// Every character is whitespace (an all-blank or empty text).
pub open spec fn spec_all_space(s: Seq<char>) -> bool {
    forall|i: int| 0 <= i < s.len() ==> is_space_char(#[trigger] s[i])
}

/// Whether the text holds nothing but whitespace.
pub fn str_all_space(s: &str) -> (r: bool)
    ensures
        r == spec_all_space(s@),
{
    let n = s.unicode_len();
    let mut i: usize = 0;
    while i < n
        invariant
            i <= n,
            n == s@.len(),
            forall|j: int| 0 <= j < i ==> is_space_char(#[trigger] s@[j]),
        decreases n - i,
    {
        if !char_is_space(s.get_char(i)) {
            return false;
        }
        i = i + 1;
    }
    true
}

/// The text with leading and trailing whitespace removed.
pub open spec fn spec_trim(s: Seq<char>) -> Seq<char>
    decreases s.len(),
{
    if s.len() == 0 {
        s
    } else if is_space_char(s[0]) {
        spec_trim(s.drop_first())
    } else if is_space_char(s.last()) {
        spec_trim(s.drop_last())
    } else {
        s
    }
}

/// A trim is exactly the subrange left after skipping whitespace on
/// both ends.
proof fn lemma_trim_is_subrange(s: Seq<char>, a: int, b: int)
    requires
        0 <= a <= b <= s.len(),
        forall|i: int| 0 <= i < a ==> is_space_char(#[trigger] s[i]),
        forall|i: int| b <= i < s.len() ==> is_space_char(#[trigger] s[i]),
        a < b ==> !is_space_char(s[a]) && !is_space_char(s[b - 1]),
    ensures
        spec_trim(s) == s.subrange(a, b),
    decreases s.len(),
{
    if s.len() == 0 {
        assert(spec_trim(s) =~= s.subrange(a, b));
    } else if is_space_char(s[0]) {
        let t = s.drop_first();
        if a == b {
            if a > 0 {
                lemma_trim_is_subrange(t, a - 1, b - 1);
                assert(t.subrange(a - 1, b - 1) =~= s.subrange(a, b));
            } else {
                lemma_trim_is_subrange(t, 0, 0);
                assert(t.subrange(0, 0) =~= s.subrange(a, b));
            }
        } else {
            assert(a > 0);
            lemma_trim_is_subrange(t, a - 1, b - 1);
            assert(t.subrange(a - 1, b - 1) =~= s.subrange(a, b));
        }
    } else if is_space_char(s.last()) {
        let t = s.drop_last();
        assert(b < s.len());
        lemma_trim_is_subrange(t, a, b);
        assert(t.subrange(a, b) =~= s.subrange(a, b));
    } else {
        assert(a == 0 && b == s.len());
        assert(spec_trim(s) =~= s.subrange(a, b));
    }
}

/// The text with leading and trailing whitespace removed.
pub fn str_trim(s: &str) -> (r: &str)
    ensures
        r@ == spec_trim(s@),
{
    let n = s.unicode_len();
    let mut a: usize = 0;
    while a < n && char_is_space(s.get_char(a))
        invariant
            a <= n,
            n == s@.len(),
            forall|j: int| 0 <= j < a ==> is_space_char(#[trigger] s@[j]),
        decreases n - a,
    {
        a = a + 1;
    }
    if a == n {
        let r = s.substring_char(a, n);
        proof {
            lemma_trim_is_subrange(s@, a as int, n as int);
        }
        return r;
    }
    let mut b: usize = n;
    while b > a && char_is_space(s.get_char(b - 1))
        invariant
            a <= b <= n,
            n == s@.len(),
            forall|j: int| b <= j < n ==> is_space_char(#[trigger] s@[j]),
        decreases b,
    {
        b = b - 1;
    }
    proof {
        assert(!is_space_char(s@[a as int]));
        assert(b > a);
        assert(!is_space_char(s@[b - 1]));
        lemma_trim_is_subrange(s@, a as int, b as int);
    }
    s.substring_char(a, b)
}

/// The needle stands at position `i` of the haystack.
pub open spec fn matches_at(s: Seq<char>, i: int, pat: Seq<char>) -> bool {
    0 <= i && i + pat.len() <= s.len() && s.subrange(i, i + pat.len()) == pat
}

/// The first position at or after `pos` where the needle stands, if
/// any.
pub open spec fn first_match_from(s: Seq<char>, pos: int, pat: Seq<char>) -> Option<int>
    decreases s.len() - pos + 1,
{
    if pos < 0 || pos + pat.len() > s.len() {
        Option::None
    } else if matches_at(s, pos, pat) {
        Option::Some(pos)
    } else {
        first_match_from(s, pos + 1, pat)
    }
}

/// Check one candidate position.
fn matches_here(s: &str, i: usize, pat: &str) -> (r: bool)
    requires
        i + pat@.len() <= s@.len(),
    ensures
        r == matches_at(s@, i as int, pat@),
{
    let n = s.unicode_len();
    let m = pat.unicode_len();
    let mut k: usize = 0;
    while k < m
        invariant
            k <= m,
            n == s@.len(),
            m == pat@.len(),
            i + m <= n,
            forall|j: int| 0 <= j < k ==> s@[i + j] == pat@[j],
        decreases m - k,
    {
        if s.get_char(i + k) != pat.get_char(k) {
            assert(s@.subrange(i as int, i + m) != pat@) by {
                assert(s@.subrange(i as int, i + m)[k as int] != pat@[k as int]);
            }
            return false;
        }
        k = k + 1;
    }
    proof {
        assert(s@.subrange(i as int, i + m) =~= pat@);
    }
    true
}

/// Find the needle, scanning left to right from `from`.
pub fn find_from(s: &str, from: usize, pat: &str) -> (r: Option<usize>)
    ensures
        ({
            let expect = first_match_from(s@, from as int, pat@);
            match r {
                Option::Some(i) => expect == Option::Some(i as int),
                Option::None => expect is None,
            }
        }),
{
    let n = s.unicode_len();
    let m = pat.unicode_len();
    if from > n || m > n - from {
        return None;
    }
    if m == 0 {
        proof {
            assert(s@.subrange(from as int, from as int) =~= pat@);
        }
        return Some(from);
    }
    let mut i: usize = from;
    while i <= n - m
        invariant
            from <= i,
            i <= n - m + 1,
            1 <= m,
            m <= n,
            n == s@.len(),
            m == pat@.len(),
            first_match_from(s@, from as int, pat@) == first_match_from(s@, i as int, pat@),
        decreases n - i,
    {
        if matches_here(s, i, pat) {
            return Some(i);
        }
        i = i + 1;
    }
    None
}

/// Whether the needle occurs anywhere in the haystack.
pub fn contains_substring(s: &str, pat: &str) -> (r: bool)
    ensures
        r == (exists|i: int| matches_at(s@, i, pat@)),
{
    let r = find_from(s, 0, pat);
    proof {
        lemma_first_match_correct(s@, 0, pat@);
    }
    match r {
        Some(i) => {
            proof {
                assert(matches_at(s@, i as int, pat@));
            }
            true
        },
        None => {
            proof {
                assert forall|i: int| !matches_at(s@, i, pat@) by {
                    if i >= 0 {
                        lemma_none_no_match_at(s@, 0, pat@, i);
                    }
                }
            }
            false
        },
    }
}

/// A found position really matches, and nothing before it does.
pub proof fn lemma_first_match_correct(s: Seq<char>, pos: int, pat: Seq<char>)
    requires
        pos >= 0,
    ensures
        (first_match_from(s, pos, pat) matches Option::Some(i) ==> pos <= i && matches_at(
            s,
            i,
            pat,
        ) && forall|j: int| pos <= j < i ==> !matches_at(s, j, pat)),
        (first_match_from(s, pos, pat) is None ==> forall|j: int|
            j >= pos ==> !matches_at(s, j, pat)),
    decreases s.len() - pos + 1,
{
    if pos + pat.len() > s.len() {
    } else if matches_at(s, pos, pat) {
    } else {
        lemma_first_match_correct(s, pos + 1, pat);
    }
}

/// If the scan from `pos` found nothing, no position at or after
/// `pos` matches.
proof fn lemma_none_no_match_at(s: Seq<char>, pos: int, pat: Seq<char>, i: int)
    requires
        pos >= 0,
        i >= pos,
        first_match_from(s, pos, pat) is None,
    ensures
        !matches_at(s, i, pat),
    decreases i - pos,
{
    if pos + pat.len() > s.len() {
        assert(i + pat.len() > s.len());
    } else if i > pos {
        lemma_none_no_match_at(s, pos + 1, pat, i);
    }
}


/// An upper-case ASCII letter folded to lower case; anything else
/// unchanged.
pub open spec fn lower_char(c: char) -> char {
    if 'A' <= c && c <= 'Z' {
        (((c as u8) + 32) as u8) as char
    } else {
        c
    }
}

/// Case folding, executable form.
pub fn char_lower(c: char) -> (r: char)
    ensures
        r == lower_char(c),
{
    if c >= 'A' && c <= 'Z' {
        ((c as u8) + 32) as char
    } else {
        c
    }
}

/// The needle (given in lower case) stands at position `i` of the
/// haystack, comparing ASCII letters without regard to case.
pub open spec fn matches_ci_at(s: Seq<char>, i: int, pat: Seq<char>) -> bool {
    &&& 0 <= i
    &&& i + pat.len() <= s.len()
    &&& forall|k: int| 0 <= k < pat.len() ==> lower_char(s[i + k]) == pat[k]
}

/// The first position at or after `pos` where the needle stands,
/// case-insensitively, if any.
pub open spec fn first_ci_match_from(s: Seq<char>, pos: int, pat: Seq<char>) -> Option<int>
    decreases s.len() - pos + 1,
{
    if pos < 0 || pos + pat.len() > s.len() {
        Option::None
    } else if matches_ci_at(s, pos, pat) {
        Option::Some(pos)
    } else {
        first_ci_match_from(s, pos + 1, pat)
    }
}

/// Check one candidate position, case-insensitively.
fn matches_ci_here(s: &str, i: usize, pat: &str) -> (r: bool)
    requires
        i + pat@.len() <= s@.len(),
    ensures
        r == matches_ci_at(s@, i as int, pat@),
{
    let n = s.unicode_len();
    let m = pat.unicode_len();
    let mut k: usize = 0;
    while k < m
        invariant
            k <= m,
            n == s@.len(),
            m == pat@.len(),
            i + m <= n,
            forall|j: int| 0 <= j < k ==> lower_char(s@[i + j]) == pat@[j],
        decreases m - k,
    {
        if char_lower(s.get_char(i + k)) != pat.get_char(k) {
            return false;
        }
        k = k + 1;
    }
    true
}

/// Find the needle case-insensitively, scanning from `from`.
pub fn find_ci_from(s: &str, from: usize, pat: &str) -> (r: Option<usize>)
    ensures
        ({
            let expect = first_ci_match_from(s@, from as int, pat@);
            match r {
                Option::Some(i) => expect == Option::Some(i as int),
                Option::None => expect is None,
            }
        }),
{
    let n = s.unicode_len();
    let m = pat.unicode_len();
    if from > n || m > n - from {
        return None;
    }
    if m == 0 {
        return Some(from);
    }
    let mut i: usize = from;
    while i <= n - m
        invariant
            from <= i,
            i <= n - m + 1,
            1 <= m,
            m <= n,
            n == s@.len(),
            m == pat@.len(),
            first_ci_match_from(s@, from as int, pat@) == first_ci_match_from(s@, i as int, pat@),
        decreases n - i,
    {
        if matches_ci_here(s, i, pat) {
            return Some(i);
        }
        i = i + 1;
    }
    None
}

/// A found position really matches, case-insensitively, and nothing
/// before it does.
pub proof fn lemma_first_ci_match_correct(s: Seq<char>, pos: int, pat: Seq<char>)
    requires
        pos >= 0,
    ensures
        (first_ci_match_from(s, pos, pat) matches Option::Some(i) ==> pos <= i && matches_ci_at(
            s,
            i,
            pat,
        ) && forall|j: int| pos <= j < i ==> !matches_ci_at(s, j, pat)),
        (first_ci_match_from(s, pos, pat) is None ==> forall|j: int|
            j >= pos ==> !matches_ci_at(s, j, pat)),
    decreases s.len() - pos + 1,
{
    if pos + pat.len() > s.len() {
        assert forall|j: int| j >= pos implies !matches_ci_at(s, j, pat) by {}
    } else if matches_ci_at(s, pos, pat) {
    } else {
        lemma_first_ci_match_correct(s, pos + 1, pat);
    }
}


/// Trimming leaves nothing exactly when the text is all whitespace.
pub proof fn lemma_trim_empty_iff_all_space(s: Seq<char>)
    ensures
        (spec_trim(s).len() == 0) <==> spec_all_space(s),
    decreases s.len(),
{
    if s.len() == 0 {
    } else if is_space_char(s[0]) {
        lemma_trim_empty_iff_all_space(s.drop_first());
        assert(spec_all_space(s.drop_first()) ==> spec_all_space(s)) by {
            if spec_all_space(s.drop_first()) {
                assert forall|i: int| 0 <= i < s.len() implies is_space_char(#[trigger] s[i]) by {
                    if i > 0 {
                        assert(s.drop_first()[i - 1] == s[i]);
                    }
                }
            }
        }
        assert(spec_all_space(s) ==> spec_all_space(s.drop_first()));
    } else if is_space_char(s.last()) {
        lemma_trim_empty_iff_all_space(s.drop_last());
        assert(spec_all_space(s.drop_last()) ==> spec_all_space(s)) by {
            if spec_all_space(s.drop_last()) {
                assert forall|i: int| 0 <= i < s.len() implies is_space_char(#[trigger] s[i]) by {
                    if i < s.len() - 1 {
                        assert(s.drop_last()[i] == s[i]);
                    }
                }
            }
        }
        assert(spec_all_space(s) ==> spec_all_space(s.drop_last()));
    } else {
        assert(!is_space_char(s[0]));
    }
}

/// One character of the shell-quoting escape: a single quote becomes
/// quote, backslash-quote, quote; anything else stands as itself.
pub open spec fn escaped_quote_char(c: char) -> Seq<char> {
    if c == '\'' {
        seq!['\'', '\\', '\'', '\'']
    } else {
        seq![c]
    }
}

/// The text with every single quote replaced by the shell-safe
/// quote-backslash-quote-quote form.
pub open spec fn spec_escape_single_quotes(s: Seq<char>) -> Seq<char>
    decreases s.len(),
{
    if s.len() == 0 {
        Seq::empty()
    } else {
        escaped_quote_char(s[0]) + spec_escape_single_quotes(s.drop_first())
    }
}

proof fn lemma_escape_snoc(s: Seq<char>, c: char)
    ensures
        spec_escape_single_quotes(s.push(c)) == spec_escape_single_quotes(s) + escaped_quote_char(
            c,
        ),
    decreases s.len(),
{
    if s.len() == 0 {
        assert(s.push(c)[0] == c);
        assert(s.push(c).drop_first() =~= Seq::<char>::empty());
        assert(spec_escape_single_quotes(Seq::<char>::empty()) =~= Seq::<char>::empty());
        assert(spec_escape_single_quotes(s.push(c)) =~= escaped_quote_char(c) + Seq::<
            char,
        >::empty());
        assert(escaped_quote_char(c) + Seq::<char>::empty() =~= escaped_quote_char(c));
        assert(spec_escape_single_quotes(s) + escaped_quote_char(c) =~= escaped_quote_char(c));
    } else {
        assert(s.push(c)[0] == s[0]);
        assert(s.push(c).drop_first() =~= s.drop_first().push(c));
        lemma_escape_snoc(s.drop_first(), c);
        assert(escaped_quote_char(s[0]) + (spec_escape_single_quotes(s.drop_first())
            + escaped_quote_char(c)) =~= (escaped_quote_char(s[0]) + spec_escape_single_quotes(
            s.drop_first(),
        )) + escaped_quote_char(c));
    }
}

/// Escape single quotes for embedding in a shell-quoted string.
pub fn escape_single_quotes(value: &str) -> (r: String)
    ensures
        r@ == spec_escape_single_quotes(value@),
{
    let n = value.unicode_len();
    let mut out = String::new();
    let mut i: usize = 0;
    proof {
        assert(value@.take(0) =~= Seq::<char>::empty());
    }
    while i < n
        invariant
            i <= n,
            n == value@.len(),
            out@ == spec_escape_single_quotes(value@.take(i as int)),
        decreases n - i,
    {
        let c = value.get_char(i);
        if c == '\'' {
            out.append("'\\''");
            proof {
                reveal_strlit("'\\''");
            }
        } else {
            let piece = value.substring_char(i, i + 1);
            out.append(piece);
            proof {
                assert(piece@ =~= seq![value@[i as int]]);
            }
        }
        proof {
            lemma_escape_snoc(value@.take(i as int), value@[i as int]);
            assert(value@.take(i + 1) =~= value@.take(i as int).push(value@[i as int]));
            assert(out@ =~= spec_escape_single_quotes(value@.take(i + 1)));
        }
        i = i + 1;
    }
    proof {
        assert(value@.take(n as int) =~= value@);
    }
    out
}

} // verus!
