//! Verified character-level string utilities.
//!
//! All reasoning is over `Seq<char>` views; the executable functions walk
//! strings with the character-indexed accessors from vstd.

use vstd::prelude::*;

verus! {

/// The needle occurs in the haystack starting at character position `i`.
pub open spec fn seq_matches_at(hay: Seq<char>, needle: Seq<char>, i: int) -> bool {
    &&& 0 <= i
    &&& i + needle.len() <= hay.len()
    &&& hay.subrange(i, i + needle.len() as int) == needle
}

/// The needle occurs somewhere in the haystack.
pub open spec fn contains_seq(hay: Seq<char>, needle: Seq<char>) -> bool {
    exists|i: int| seq_matches_at(hay, needle, i)
}

/// Whether the needle occurs at exactly position `i` of the haystack.
fn matches_at(hay: &str, needle: &str, i: usize) -> (r: bool)
    requires
        i + needle@.len() <= hay@.len(),
    ensures
        r == seq_matches_at(hay@, needle@, i as int),
{
    let n = needle.unicode_len();
    let hn = hay.unicode_len();
    let mut j: usize = 0;
    while j < n
        invariant
            n == needle@.len(),
            hn == hay@.len(),
            i + n <= hn,
            j <= n,
            forall|k: int| 0 <= k < j ==> hay@[i + k] == needle@[k],
        decreases n - j,
    {
        if hay.get_char(i + j) != needle.get_char(j) {
            assert(hay@.subrange(i as int, i + needle@.len() as int)[j as int] == hay@[i + j]);
            return false;
        }
        j = j + 1;
    }
    assert(hay@.subrange(i as int, i + needle@.len() as int) =~= needle@);
    true
}

/// First character position where the needle occurs, if any.
pub fn find_sub(hay: &str, needle: &str) -> (r: Option<usize>)
    ensures
        match r {
            Some(i) => seq_matches_at(hay@, needle@, i as int) && forall|k: int|
                0 <= k < i ==> !seq_matches_at(hay@, needle@, k),
            None => !contains_seq(hay@, needle@),
        },
{
    let hn = hay.unicode_len();
    let nn = needle.unicode_len();
    if nn > hn {
        assert(!contains_seq(hay@, needle@));
        return None;
    }
    if nn == 0 {
        assert(hay@.subrange(0, 0) =~= needle@);
        return Some(0);
    }
    let mut i: usize = 0;
    while i <= hn - nn
        invariant
            hn == hay@.len(),
            nn == needle@.len(),
            0 < nn <= hn,
            i <= hn - nn + 1,
            forall|k: int| 0 <= k < i ==> !seq_matches_at(hay@, needle@, k),
        decreases hn - nn + 1 - i,
    {
        if matches_at(hay, needle, i) {
            return Some(i);
        }
        i = i + 1;
    }
    assert(forall|k: int| seq_matches_at(hay@, needle@, k) ==> 0 <= k <= hn - nn);
    None
}

/// Whether the needle occurs anywhere in the haystack.
pub fn contains_str(hay: &str, needle: &str) -> (r: bool)
    ensures
        r == contains_seq(hay@, needle@),
{
    match find_sub(hay, needle) {
        Some(_) => true,
        None => false,
    }
}

/// Character-for-character equality of two string slices.
pub fn str_eq(a: &str, b: &str) -> (r: bool)
    ensures
        r == (a@ == b@),
{
    let an = a.unicode_len();
    let bn = b.unicode_len();
    if an != bn {
        return false;
    }
    let mut i: usize = 0;
    while i < an
        invariant
            an == a@.len(),
            an == b@.len(),
            i <= an,
            forall|k: int| 0 <= k < i ==> a@[k] == b@[k],
        decreases an - i,
    {
        if a.get_char(i) != b.get_char(i) {
            return false;
        }
        i = i + 1;
    }
    assert(a@ =~= b@);
    true
}

/// Strict lexicographic order on character sequences, by code point.
pub open spec fn seq_lt(a: Seq<char>, b: Seq<char>) -> bool
    decreases a.len(),
{
    if b.len() == 0 {
        false
    } else if a.len() == 0 {
        true
    } else if a[0] == b[0] {
        seq_lt(a.drop_first(), b.drop_first())
    } else {
        a[0] < b[0]
    }
}

/// Lexicographic order on character sequences, by code point.
pub open spec fn seq_le(a: Seq<char>, b: Seq<char>) -> bool {
    seq_lt(a, b) || a == b
}

/// Any two character sequences are ordered one way or the other.
pub proof fn lemma_seq_le_total(a: Seq<char>, b: Seq<char>)
    ensures
        seq_le(a, b) || seq_le(b, a),
    decreases a.len(),
{
    if a.len() == 0 && b.len() == 0 {
        assert(a =~= b);
    } else if a.len() > 0 && b.len() > 0 && a[0] == b[0] {
        lemma_seq_le_total(a.drop_first(), b.drop_first());
        if a.drop_first() == b.drop_first() {
            assert(a.drop_first().len() == a.len() - 1);
            assert(b.drop_first().len() == b.len() - 1);
            assert forall|i: int| 0 <= i < a.len() implies a[i] == b[i] by {
                if i > 0 {
                    assert(a.drop_first()[i - 1] == b.drop_first()[i - 1]);
                }
            }
            assert(a =~= b);
        }
    }
}

/// `seq_lt` is asymmetric.
pub proof fn lemma_seq_lt_asymmetric(a: Seq<char>, b: Seq<char>)
    requires
        seq_lt(a, b),
    ensures
        !seq_lt(b, a),
    decreases a.len(),
{
    if a.len() > 0 {
        if a[0] == b[0] {
            lemma_seq_lt_asymmetric(a.drop_first(), b.drop_first());
        }
    }
}

/// `seq_le` is antisymmetric: mutual order means equality.
pub proof fn lemma_seq_le_antisymmetric(a: Seq<char>, b: Seq<char>)
    requires
        seq_le(a, b),
        seq_le(b, a),
    ensures
        a == b,
{
    if a != b {
        lemma_seq_lt_asymmetric(a, b);
    }
}

/// `seq_lt` is transitive.
pub proof fn lemma_seq_lt_transitive(a: Seq<char>, b: Seq<char>, c: Seq<char>)
    requires
        seq_lt(a, b),
        seq_lt(b, c),
    ensures
        seq_lt(a, c),
    decreases a.len(),
{
    if a.len() == 0 {
        assert(seq_lt(a, c));
    } else {
        if a[0] == b[0] && b[0] == c[0] {
            lemma_seq_lt_transitive(a.drop_first(), b.drop_first(), c.drop_first());
            assert(seq_lt(a, c));
        } else {
            assert(seq_lt(a, c));
        }
    }
}

/// `seq_le` is transitive.
pub proof fn lemma_seq_le_transitive(a: Seq<char>, b: Seq<char>, c: Seq<char>)
    requires
        seq_le(a, b),
        seq_le(b, c),
    ensures
        seq_le(a, c),
{
    if a != b && b != c {
        lemma_seq_lt_transitive(a, b, c);
    }
}

/// Skipping a common prefix does not change the relative order.
proof fn lemma_seq_lt_skip(a: Seq<char>, b: Seq<char>, i: int)
    requires
        0 <= i <= a.len(),
        i <= b.len(),
        forall|k: int| 0 <= k < i ==> a[k] == b[k],
    ensures
        seq_lt(a, b) == seq_lt(a.skip(i), b.skip(i)),
    decreases i,
{
    if i > 0 {
        assert(a.len() > 0 && b.len() > 0 && a[0] == b[0]);
        lemma_seq_lt_skip(a.drop_first(), b.drop_first(), i - 1);
        assert(a.drop_first().skip(i - 1) =~= a.skip(i));
        assert(b.drop_first().skip(i - 1) =~= b.skip(i));
    } else {
        assert(a.skip(0) =~= a);
        assert(b.skip(0) =~= b);
    }
}

/// Executable lexicographic comparison of two string slices.
pub fn str_le(a: &str, b: &str) -> (r: bool)
    ensures
        r == seq_le(a@, b@),
{
    let an = a.unicode_len();
    let bn = b.unicode_len();
    let n = if an < bn {
        an
    } else {
        bn
    };
    let mut i: usize = 0;
    while i < n
        invariant
            an == a@.len(),
            bn == b@.len(),
            n == if an < bn {
                an
            } else {
                bn
            },
            i <= n,
            forall|k: int| 0 <= k < i ==> a@[k] == b@[k],
        decreases n - i,
    {
        let ca = a.get_char(i);
        let cb = b.get_char(i);
        if ca != cb {
            proof {
                lemma_seq_lt_skip(a@, b@, i as int);
                if a@ == b@ {
                    assert(a@[i as int] == b@[i as int]);
                }
            }
            return ca < cb;
        }
        assert(a@[i as int] == b@[i as int]);
        i = i + 1;
    }
    proof {
        lemma_seq_lt_skip(a@, b@, n as int);
        if an == bn {
            assert(a@ =~= b@);
        } else if an < bn {
            assert(a@.skip(n as int).len() == 0);
            assert(b@.skip(n as int).len() > 0);
        } else {
            assert(b@.skip(n as int).len() == 0);
            if a@ == b@ {
                assert(a@.len() == b@.len());
            }
        }
    }
    an <= bn
}

/// The blank characters recognised by trimming, word splitting and
/// truncation break points: the Unicode white-space code points, the set
/// `char::is_whitespace` recognises.
pub open spec fn is_space(c: char) -> bool {
    ||| ('\u{9}' <= c && c <= '\u{d}')
    ||| c == ' '
    ||| c == '\u{85}'
    ||| c == '\u{a0}'
    ||| c == '\u{1680}'
    ||| ('\u{2000}' <= c && c <= '\u{200a}')
    ||| c == '\u{2028}'
    ||| c == '\u{2029}'
    ||| c == '\u{202f}'
    ||| c == '\u{205f}'
    ||| c == '\u{3000}'
}

/// Executable test for `is_space`.
pub fn is_space_char(c: char) -> (r: bool)
    ensures
        r == is_space(c),
{
    ('\u{9}' <= c && c <= '\u{d}') || c == ' ' || c == '\u{85}' || c == '\u{a0}' || c
        == '\u{1680}' || ('\u{2000}' <= c && c <= '\u{200a}') || c == '\u{2028}' || c
        == '\u{2029}' || c == '\u{202f}' || c == '\u{205f}' || c == '\u{3000}'
}

/// The decimal digit character for a value below 10.
pub open spec fn dec_digit(d: int) -> char {
    if d == 0 {
        '0'
    } else if d == 1 {
        '1'
    } else if d == 2 {
        '2'
    } else if d == 3 {
        '3'
    } else if d == 4 {
        '4'
    } else if d == 5 {
        '5'
    } else if d == 6 {
        '6'
    } else if d == 7 {
        '7'
    } else if d == 8 {
        '8'
    } else {
        '9'
    }
}

/// The decimal rendering of a non-negative integer, without sign or
/// padding.
pub open spec fn dec_str(n: int) -> Seq<char>
    decreases n,
{
    if n < 10 {
        seq![dec_digit(n)]
    } else {
        dec_str(n / 10).push(dec_digit(n % 10))
    }
}

/// Executable decimal digit for a value below 10.
pub fn dec_digit_char(d: u64) -> (r: char)
    requires
        d < 10,
    ensures
        r == dec_digit(d as int),
{
    if d == 0 {
        '0'
    } else if d == 1 {
        '1'
    } else if d == 2 {
        '2'
    } else if d == 3 {
        '3'
    } else if d == 4 {
        '4'
    } else if d == 5 {
        '5'
    } else if d == 6 {
        '6'
    } else if d == 7 {
        '7'
    } else if d == 8 {
        '8'
    } else {
        '9'
    }
}

/// Render a non-negative integer in decimal.
pub fn u64_dec(n: u64) -> (r: String)
    ensures
        r@ == dec_str(n as int),
    decreases n,
{
    if n < 10 {
        let mut out = String::new();
        push_char(&mut out, dec_digit_char(n));
        proof {
            assert(out@ =~= dec_str(n as int));
        }
        out
    } else {
        let mut out = u64_dec(n / 10);
        push_char(&mut out, dec_digit_char(n % 10));
        out
    }
}


/// The first position of the needle, scanning from the left.
pub open spec fn find_sub_spec(hay: Seq<char>, needle: Seq<char>) -> Option<int>
    decreases hay.len(),
{
    if hay.len() < needle.len() {
        None
    } else if hay.subrange(0, needle.len() as int) == needle {
        Some(0)
    } else if hay.len() == 0 {
        None
    } else {
        match find_sub_spec(hay.drop_first(), needle) {
            Some(i) => Some(i + 1),
            None => None,
        }
    }
}

/// The least-match characterisation pins `find_sub_spec` down.
pub proof fn lemma_find_sub_spec_at(hay: Seq<char>, needle: Seq<char>, i: int)
    requires
        seq_matches_at(hay, needle, i),
        forall|k: int| 0 <= k < i ==> !seq_matches_at(hay, needle, k),
    ensures
        find_sub_spec(hay, needle) == Some(i),
    decreases hay.len(),
{
    if i == 0 {
        assert(hay.subrange(0, needle.len() as int) == needle);
    } else {
        assert(!seq_matches_at(hay, needle, 0));
        if hay.subrange(0, needle.len() as int) == needle {
            assert(seq_matches_at(hay, needle, 0));
        }
        assert(seq_matches_at(hay.drop_first(), needle, i - 1)) by {
            assert(hay.drop_first().subrange(i - 1, i - 1 + needle.len() as int) =~= hay.subrange(
                i,
                i + needle.len() as int,
            ));
        }
        assert forall|k: int| 0 <= k < i - 1 implies !seq_matches_at(
            hay.drop_first(),
            needle,
            k,
        ) by {
            if seq_matches_at(hay.drop_first(), needle, k) {
                assert(hay.subrange(k + 1, k + 1 + needle.len() as int) =~= hay.drop_first()
                    .subrange(k, k + needle.len() as int));
                assert(seq_matches_at(hay, needle, k + 1));
            }
        }
        lemma_find_sub_spec_at(hay.drop_first(), needle, i - 1);
    }
}

/// When the needle occurs nowhere, `find_sub_spec` finds nothing.
pub proof fn lemma_find_sub_spec_none(hay: Seq<char>, needle: Seq<char>)
    requires
        !contains_seq(hay, needle),
    ensures
        find_sub_spec(hay, needle) == None::<int>,
    decreases hay.len(),
{
    if hay.len() >= needle.len() {
        if hay.subrange(0, needle.len() as int) == needle {
            assert(seq_matches_at(hay, needle, 0));
        }
        if hay.len() > 0 {
            assert forall|k: int| !seq_matches_at(hay.drop_first(), needle, k) by {
                if seq_matches_at(hay.drop_first(), needle, k) {
                    assert(hay.subrange(k + 1, k + 1 + needle.len() as int) =~= hay.drop_first()
                        .subrange(k, k + needle.len() as int));
                    assert(seq_matches_at(hay, needle, k + 1));
                }
            }
            lemma_find_sub_spec_none(hay.drop_first(), needle);
        }
    }
}

/// First occurrence of the needle, as `find_sub_spec` describes it.
pub fn find_first(hay: &str, needle: &str) -> (r: Option<usize>)
    ensures
        match r {
            Some(i) => find_sub_spec(hay@, needle@) == Some(i as int) && seq_matches_at(
                hay@,
                needle@,
                i as int,
            ),
            None => find_sub_spec(hay@, needle@) == None::<int>,
        },
{
    let r = find_sub(hay, needle);
    proof {
        match r {
            Some(i) => lemma_find_sub_spec_at(hay@, needle@, i as int),
            None => lemma_find_sub_spec_none(hay@, needle@),
        }
    }
    r
}

/// The first position of the character, scanning from the left.
pub open spec fn find_char_spec(s: Seq<char>, c: char) -> Option<int>
    decreases s.len(),
{
    if s.len() == 0 {
        None
    } else if s[0] == c {
        Some(0)
    } else {
        match find_char_spec(s.drop_first(), c) {
            Some(i) => Some(i + 1),
            None => None,
        }
    }
}

/// First occurrence of a character.
pub fn find_char(s: &str, c: char) -> (r: Option<usize>)
    ensures
        match r {
            Some(i) => find_char_spec(s@, c) == Some(i as int) && i < s@.len() && s@[i as int]
                == c,
            None => find_char_spec(s@, c) == None::<int>,
        },
{
    let n = s.unicode_len();
    let mut i: usize = 0;
    proof {
        assert(s@.skip(0) =~= s@);
    }
    while i < n
        invariant
            n == s@.len(),
            i <= n,
            find_char_spec(s@, c) == (match find_char_spec(s@.skip(i as int), c) {
                Some(k) => Some(k + i),
                None => None::<int>,
            }),
        decreases n - i,
    {
        proof {
            assert(s@.skip(i as int)[0] == s@[i as int]);
            assert(s@.skip(i as int).drop_first() =~= s@.skip(i as int + 1));
        }
        if s.get_char(i) == c {
            return Some(i);
        }
        i = i + 1;
    }
    proof {
        assert(s@.skip(n as int).len() == 0);
    }
    None
}

/// The sequence with leading blanks removed.
pub open spec fn trim_start_spec(s: Seq<char>) -> Seq<char>
    decreases s.len(),
{
    if s.len() > 0 && is_space(s[0]) {
        trim_start_spec(s.drop_first())
    } else {
        s
    }
}

/// The sequence with trailing blanks removed.
pub open spec fn trim_end_spec(s: Seq<char>) -> Seq<char>
    decreases s.len(),
{
    if s.len() > 0 && is_space(s.last()) {
        trim_end_spec(s.drop_last())
    } else {
        s
    }
}

/// The sequence with leading and trailing blanks removed.
pub open spec fn trim_spec(s: Seq<char>) -> Seq<char> {
    trim_end_spec(trim_start_spec(s))
}

/// Skipping leading blanks is what `trim_start_spec` does.
proof fn lemma_trim_start_skip(s: Seq<char>, i: int)
    requires
        0 <= i <= s.len(),
        forall|k: int| 0 <= k < i ==> is_space(s[k]),
    ensures
        trim_start_spec(s) == trim_start_spec(s.skip(i)),
    decreases i,
{
    if i == 0 {
        assert(s.skip(0) =~= s);
    } else {
        assert(s.len() > 0 && is_space(s[0]));
        lemma_trim_start_skip(s.drop_first(), i - 1);
        assert(s.drop_first().skip(i - 1) =~= s.skip(i));
    }
}

/// Dropping trailing blanks is what `trim_end_spec` does.
proof fn lemma_trim_end_take(s: Seq<char>, j: int)
    requires
        0 <= j <= s.len(),
        forall|k: int| j <= k < s.len() ==> is_space(s[k]),
    ensures
        trim_end_spec(s) == trim_end_spec(s.take(j)),
    decreases s.len() - j,
{
    if j == s.len() {
        assert(s.take(j) =~= s);
    } else {
        assert(is_space(s.last()));
        assert(s.drop_last() =~= s.take(s.len() - 1));
        lemma_trim_end_take(s.take(s.len() - 1), j);
        assert(s.take(s.len() - 1).take(j) =~= s.take(j));
    }
}

/// Remove leading and trailing blanks.
pub fn trim_str<'a>(s: &'a str) -> (r: &'a str)
    ensures
        r@ == trim_spec(s@),
{
    let n = s.unicode_len();
    let mut i: usize = 0;
    while i < n && is_space_char(s.get_char(i))
        invariant
            n == s@.len(),
            i <= n,
            forall|k: int| 0 <= k < i ==> is_space(s@[k]),
        decreases n - i,
    {
        i = i + 1;
    }
    let mut j: usize = n;
    while j > i && is_space_char(s.get_char(j - 1))
        invariant
            n == s@.len(),
            i <= j <= n,
            forall|k: int| j <= k < n ==> is_space(s@[k]),
        decreases j,
    {
        j = j - 1;
    }
    proof {
        lemma_trim_start_skip(s@, i as int);
        let t = s@.skip(i as int);
        if i < n && !is_space(s@[i as int]) {
            assert(t[0] == s@[i as int]);
            assert(trim_start_spec(t) == t);
        } else {
            assert(i == j);
            assert(t.len() == n - i);
            if t.len() > 0 {
                assert(t[0] == s@[i as int]);
            }
            assert(trim_start_spec(t) == t);
        }
        // now trim the end of t
        assert forall|k: int| j - i <= k < t.len() implies is_space(t[k]) by {
            assert(t[k] == s@[k + i]);
        }
        lemma_trim_end_take(t, j - i);
        let u = t.take(j - i);
        if j > i {
            assert(u.last() == t[j - i - 1]);
            assert(t[j - i - 1] == s@[j - 1]);
            assert(!is_space(u.last()));
            assert(trim_end_spec(u) == u);
        } else {
            assert(u.len() == 0);
            assert(trim_end_spec(u) == u);
        }
        assert(s@.subrange(i as int, j as int) =~= u);
    }
    s.substring_char(i, j)
}

/// What `str::to_lowercase` returns: a pure function of the characters
/// alone.
pub uninterp spec fn lower_of(s: Seq<char>) -> Seq<char>;

/// Relies on str::to_lowercase: the Unicode lowercase of the string, a
/// function of the characters alone; an empty string stays empty.
#[verifier::external_body]
pub(crate) fn lowercase(s: &str) -> (r: String)
    ensures
        r@ == lower_of(s@),
        s@.len() == 0 ==> r@.len() == 0,
{
    s.to_lowercase()
}

/// Whitespace-separated words, left to right: `cur` is the word being read
/// and `acc` the words already read.
pub open spec fn words_acc(s: Seq<char>, cur: Seq<char>, acc: Seq<Seq<char>>) -> Seq<Seq<char>>
    decreases s.len(),
{
    if s.len() == 0 {
        if cur.len() > 0 {
            acc.push(cur)
        } else {
            acc
        }
    } else if is_space(s[0]) {
        words_acc(
            s.drop_first(),
            Seq::empty(),
            if cur.len() > 0 {
                acc.push(cur)
            } else {
                acc
            },
        )
    } else {
        words_acc(s.drop_first(), cur.push(s[0]), acc)
    }
}

/// The whitespace-separated words of a sequence.
pub open spec fn words_of(s: Seq<char>) -> Seq<Seq<char>> {
    words_acc(s, Seq::empty(), Seq::empty())
}

/// A vector's deep view after a push is the old deep view plus the new
/// element's.
pub proof fn lemma_deep_view_push<T: DeepView>(v: Vec<T>, prev: Seq<T>, x: T)
    requires
        v@ == prev.push(x),
    ensures
        v.deep_view() =~= Seq::new(prev.len(), |i: int| prev[i].deep_view()).push(x.deep_view()),
{
    assert forall|k: int| 0 <= k < v@.len() implies v.deep_view()[k] == Seq::new(
        prev.len(),
        |i: int| prev[i].deep_view(),
    ).push(x.deep_view())[k] by {
        assert(v.deep_view()[k] == v@[k].deep_view());
        if k < prev.len() {
            assert(v@[k] == prev[k]);
        } else {
            assert(v@[k] == x);
        }
    }
}

/// Split a string into its whitespace-separated words.
pub fn split_words(s: &str) -> (r: Vec<String>)
    ensures
        r.deep_view() == words_of(s@),
{
    let n = s.unicode_len();
    let mut out: Vec<String> = Vec::new();
    let mut cur = String::new();
    let mut i: usize = 0;
    proof {
        assert(s@.skip(0) =~= s@);
        assert(out.deep_view() =~= Seq::<Seq<char>>::empty());
    }
    while i < n
        invariant
            n == s@.len(),
            i <= n,
            words_of(s@) == words_acc(s@.skip(i as int), cur@, out.deep_view()),
        decreases n - i,
    {
        proof {
            assert(s@.skip(i as int)[0] == s@[i as int]);
            assert(s@.skip(i as int).drop_first() =~= s@.skip(i as int + 1));
        }
        let c = s.get_char(i);
        if is_space_char(c) {
            if cur.unicode_len() > 0 {
                let ghost prev = out@;
                let ghost prev_dv = out.deep_view();
                let ghost old_cur = cur@;
                let finished = cur;
                out.push(finished);
                cur = String::new();
                proof {
                    lemma_deep_view_push(out, prev, out@[prev.len() as int]);
                    assert(Seq::new(prev.len(), |k: int| prev[k].deep_view()) =~= prev_dv);
                    assert(out.deep_view() =~= prev_dv.push(old_cur));
                    assert(cur@ =~= Seq::<char>::empty());
                }
            } else {
                proof {
                    assert(cur@ =~= Seq::<char>::empty());
                }
            }
        } else {
            push_char(&mut cur, c);
        }
        i = i + 1;
    }
    proof {
        assert(s@.skip(n as int).len() == 0);
    }
    if cur.unicode_len() > 0 {
        let ghost prev = out@;
        let ghost prev_dv = out.deep_view();
        let ghost old_cur = cur@;
        out.push(cur);
        proof {
            lemma_deep_view_push(out, prev, out@[prev.len() as int]);
            assert(Seq::new(prev.len(), |k: int| prev[k].deep_view()) =~= prev_dv);
            assert(out.deep_view() =~= prev_dv.push(old_cur));
        }
    } else {
        proof {
            assert(cur@ =~= Seq::<char>::empty());
        }
    }
    out
}


/// The string with every occurrence of `from` replaced by `to`, scanning
/// left to right without overlap.
pub open spec fn replace_spec(s: Seq<char>, from: Seq<char>, to: Seq<char>) -> Seq<char>
    decreases s.len(),
{
    if from.len() == 0 {
        s
    } else if s.len() < from.len() {
        s
    } else if s.subrange(0, from.len() as int) == from {
        to + replace_spec(s.skip(from.len() as int), from, to)
    } else {
        seq![s[0]] + replace_spec(s.drop_first(), from, to)
    }
}

/// Replace every occurrence of `from` by `to`, scanning left to right.
pub fn replace_str(s: &str, from: &str, to: &str) -> (r: String)
    requires
        from@.len() > 0,
    ensures
        r@ == replace_spec(s@, from@, to@),
{
    let n = s.unicode_len();
    let flen = from.unicode_len();
    let mut out = String::new();
    let mut i: usize = 0;
    proof {
        assert(s@.skip(0) =~= s@);
        assert(out@ + replace_spec(s@, from@, to@) =~= replace_spec(s@, from@, to@));
    }
    while i < n
        invariant
            n == s@.len(),
            flen == from@.len(),
            flen > 0,
            i <= n,
            replace_spec(s@, from@, to@) == out@ + replace_spec(s@.skip(i as int), from@, to@),
        decreases n - i,
    {
        let ghost rem = s@.skip(i as int);
        if flen <= n - i && matches_at(s, from, i) {
            proof {
                assert(rem.subrange(0, flen as int) =~= s@.subrange(i as int, i + flen));
                assert(rem.skip(flen as int) =~= s@.skip(i + flen));
            }
            out.append(to);
            i = i + flen;
        } else {
            proof {
                if flen <= n - i {
                    assert(rem.subrange(0, flen as int) =~= s@.subrange(i as int, i + flen));
                    if rem.subrange(0, flen as int) == from@ {
                        assert(seq_matches_at(s@, from@, i as int));
                    }
                    assert(rem.drop_first() =~= s@.skip(i as int + 1));
                    assert(replace_spec(rem, from@, to@) == seq![s@[i as int]] + replace_spec(
                        s@.skip(i as int + 1),
                        from@,
                        to@,
                    ));
                } else {
                    assert(rem.len() < flen);
                    assert(replace_spec(rem, from@, to@) == rem);
                    assert(s@.skip(i as int + 1).len() < flen);
                    assert(replace_spec(s@.skip(i as int + 1), from@, to@) == s@.skip(
                        i as int + 1,
                    ));
                    assert(rem =~= seq![s@[i as int]] + s@.skip(i as int + 1));
                }
            }
            push_char(&mut out, s.get_char(i));
            i = i + 1;
        }
    }
    proof {
        assert(s@.skip(n as int).len() == 0);
        assert(replace_spec(s@.skip(n as int), from@, to@) =~= Seq::<char>::empty());
        assert(out@ =~= out@ + Seq::<char>::empty());
    }
    out
}


/// The lines of a text, split on newlines; a final empty piece (from a
/// trailing newline or an empty text) is dropped, as `str::lines` drops it.
pub open spec fn lines_acc(s: Seq<char>, cur: Seq<char>, acc: Seq<Seq<char>>) -> Seq<Seq<char>>
    decreases s.len(),
{
    if s.len() == 0 {
        if cur.len() > 0 {
            acc.push(cur)
        } else {
            acc
        }
    } else if s[0] == '\n' {
        lines_acc(s.drop_first(), Seq::empty(), acc.push(cur))
    } else {
        lines_acc(s.drop_first(), cur.push(s[0]), acc)
    }
}

/// The lines of a text.
pub open spec fn lines_of(s: Seq<char>) -> Seq<Seq<char>> {
    lines_acc(s, Seq::empty(), Seq::empty())
}

/// Split a string into its lines.
pub fn split_lines(s: &str) -> (r: Vec<String>)
    ensures
        r.deep_view() == lines_of(s@),
{
    let n = s.unicode_len();
    let mut out: Vec<String> = Vec::new();
    let mut cur = String::new();
    let mut i: usize = 0;
    proof {
        assert(s@.skip(0) =~= s@);
        assert(out.deep_view() =~= Seq::<Seq<char>>::empty());
    }
    while i < n
        invariant
            n == s@.len(),
            i <= n,
            lines_of(s@) == lines_acc(s@.skip(i as int), cur@, out.deep_view()),
        decreases n - i,
    {
        proof {
            assert(s@.skip(i as int)[0] == s@[i as int]);
            assert(s@.skip(i as int).drop_first() =~= s@.skip(i as int + 1));
        }
        let c = s.get_char(i);
        if c == '\n' {
            let ghost prev = out@;
            let ghost prev_dv = out.deep_view();
            let ghost old_cur = cur@;
            let finished = cur;
            out.push(finished);
            cur = String::new();
            proof {
                lemma_deep_view_push(out, prev, out@[prev.len() as int]);
                assert(Seq::new(prev.len(), |k: int| prev[k].deep_view()) =~= prev_dv);
                assert(out.deep_view() =~= prev_dv.push(old_cur));
                assert(cur@ =~= Seq::<char>::empty());
            }
        } else {
            push_char(&mut cur, c);
        }
        i = i + 1;
    }
    proof {
        assert(s@.skip(n as int).len() == 0);
    }
    if cur.unicode_len() > 0 {
        let ghost prev = out@;
        let ghost prev_dv = out.deep_view();
        let ghost old_cur = cur@;
        out.push(cur);
        proof {
            lemma_deep_view_push(out, prev, out@[prev.len() as int]);
            assert(Seq::new(prev.len(), |k: int| prev[k].deep_view()) =~= prev_dv);
            assert(out.deep_view() =~= prev_dv.push(old_cur));
        }
    } else {
        proof {
            assert(cur@ =~= Seq::<char>::empty());
        }
    }
    out
}

/// The pieces of a text split on a separator character, all of them, as
/// `str::split` yields them: an empty text gives one empty piece.
pub open spec fn split_acc(s: Seq<char>, sep: char, cur: Seq<char>, acc: Seq<Seq<char>>) -> Seq<
    Seq<char>,
>
    decreases s.len(),
{
    if s.len() == 0 {
        acc.push(cur)
    } else if s[0] == sep {
        split_acc(s.drop_first(), sep, Seq::empty(), acc.push(cur))
    } else {
        split_acc(s.drop_first(), sep, cur.push(s[0]), acc)
    }
}

/// The pieces of a text split on a separator character.
pub open spec fn split_on(s: Seq<char>, sep: char) -> Seq<Seq<char>> {
    split_acc(s, sep, Seq::empty(), Seq::empty())
}

/// Split a string on a separator character, keeping empty pieces.
pub fn split_on_char(s: &str, sep: char) -> (r: Vec<String>)
    ensures
        r.deep_view() == split_on(s@, sep),
{
    let n = s.unicode_len();
    let mut out: Vec<String> = Vec::new();
    let mut cur = String::new();
    let mut i: usize = 0;
    proof {
        assert(s@.skip(0) =~= s@);
        assert(out.deep_view() =~= Seq::<Seq<char>>::empty());
    }
    while i < n
        invariant
            n == s@.len(),
            i <= n,
            split_on(s@, sep) == split_acc(s@.skip(i as int), sep, cur@, out.deep_view()),
        decreases n - i,
    {
        proof {
            assert(s@.skip(i as int)[0] == s@[i as int]);
            assert(s@.skip(i as int).drop_first() =~= s@.skip(i as int + 1));
        }
        let c = s.get_char(i);
        if c == sep {
            let ghost prev = out@;
            let ghost prev_dv = out.deep_view();
            let ghost old_cur = cur@;
            let finished = cur;
            out.push(finished);
            cur = String::new();
            proof {
                lemma_deep_view_push(out, prev, out@[prev.len() as int]);
                assert(Seq::new(prev.len(), |k: int| prev[k].deep_view()) =~= prev_dv);
                assert(out.deep_view() =~= prev_dv.push(old_cur));
                assert(cur@ =~= Seq::<char>::empty());
            }
        } else {
            push_char(&mut cur, c);
        }
        i = i + 1;
    }
    proof {
        assert(s@.skip(n as int).len() == 0);
    }
    let ghost prev = out@;
    let ghost prev_dv = out.deep_view();
    let ghost old_cur = cur@;
    out.push(cur);
    proof {
        lemma_deep_view_push(out, prev, out@[prev.len() as int]);
        assert(Seq::new(prev.len(), |k: int| prev[k].deep_view()) =~= prev_dv);
        assert(out.deep_view() =~= prev_dv.push(old_cur));
    }
    out
}

/// The sequence with leading occurrences of one character removed.
pub open spec fn trim_char_start(s: Seq<char>, c: char) -> Seq<char>
    decreases s.len(),
{
    if s.len() > 0 && s[0] == c {
        trim_char_start(s.drop_first(), c)
    } else {
        s
    }
}

/// The sequence with trailing occurrences of one character removed.
pub open spec fn trim_char_end(s: Seq<char>, c: char) -> Seq<char>
    decreases s.len(),
{
    if s.len() > 0 && s.last() == c {
        trim_char_end(s.drop_last(), c)
    } else {
        s
    }
}

/// The sequence with leading and trailing occurrences of one character
/// removed, as `str::trim_matches` does.
pub open spec fn trim_char_spec(s: Seq<char>, c: char) -> Seq<char> {
    trim_char_end(trim_char_start(s, c), c)
}

/// Skipping leading occurrences is what `trim_char_start` does.
proof fn lemma_trim_char_start_skip(s: Seq<char>, c: char, i: int)
    requires
        0 <= i <= s.len(),
        forall|k: int| 0 <= k < i ==> s[k] == c,
    ensures
        trim_char_start(s, c) == trim_char_start(s.skip(i), c),
    decreases i,
{
    if i == 0 {
        assert(s.skip(0) =~= s);
    } else {
        assert(s.len() > 0 && s[0] == c);
        lemma_trim_char_start_skip(s.drop_first(), c, i - 1);
        assert(s.drop_first().skip(i - 1) =~= s.skip(i));
    }
}

/// Dropping trailing occurrences is what `trim_char_end` does.
proof fn lemma_trim_char_end_take(s: Seq<char>, c: char, j: int)
    requires
        0 <= j <= s.len(),
        forall|k: int| j <= k < s.len() ==> s[k] == c,
    ensures
        trim_char_end(s, c) == trim_char_end(s.take(j), c),
    decreases s.len() - j,
{
    if j == s.len() {
        assert(s.take(j) =~= s);
    } else {
        assert(s.last() == c);
        assert(s.drop_last() =~= s.take(s.len() - 1));
        lemma_trim_char_end_take(s.take(s.len() - 1), c, j);
        assert(s.take(s.len() - 1).take(j) =~= s.take(j));
    }
}

/// Remove leading and trailing occurrences of one character.
pub fn trim_char<'a>(s: &'a str, c: char) -> (r: &'a str)
    ensures
        r@ == trim_char_spec(s@, c),
{
    let n = s.unicode_len();
    let mut i: usize = 0;
    while i < n && s.get_char(i) == c
        invariant
            n == s@.len(),
            i <= n,
            forall|k: int| 0 <= k < i ==> s@[k] == c,
        decreases n - i,
    {
        i = i + 1;
    }
    let mut j: usize = n;
    while j > i && s.get_char(j - 1) == c
        invariant
            n == s@.len(),
            i <= j <= n,
            forall|k: int| j <= k < n ==> s@[k] == c,
        decreases j,
    {
        j = j - 1;
    }
    proof {
        lemma_trim_char_start_skip(s@, c, i as int);
        let t = s@.skip(i as int);
        if i < n && s@[i as int] != c {
            assert(t[0] == s@[i as int]);
            assert(trim_char_start(t, c) == t);
        } else {
            assert(i == j);
            assert(t.len() == n - i);
            if t.len() > 0 {
                assert(t[0] == s@[i as int]);
            }
            assert(trim_char_start(t, c) == t);
        }
        assert forall|k: int| j - i <= k < t.len() implies t[k] == c by {
            assert(t[k] == s@[k + i]);
        }
        lemma_trim_char_end_take(t, c, j - i);
        let u = t.take(j - i);
        if j > i {
            assert(u.last() == t[j - i - 1]);
            assert(t[j - i - 1] == s@[j - 1]);
            assert(u.last() != c);
            assert(trim_char_end(u, c) == u);
        } else {
            assert(u.len() == 0);
            assert(trim_char_end(u, c) == u);
        }
        assert(s@.subrange(i as int, j as int) =~= u);
    }
    s.substring_char(i, j)
}

/// Whether the string starts with the prefix.
pub fn starts_with_str(s: &str, prefix: &str) -> (r: bool)
    ensures
        r == (prefix@.len() <= s@.len() && s@.subrange(0, prefix@.len() as int) == prefix@),
{
    let n = s.unicode_len();
    let pn = prefix.unicode_len();
    if pn > n {
        return false;
    }
    match crate::strutil::find_sub(s, prefix) {
        Some(i) => {
            if i == 0 {
                assert(seq_matches_at(s@, prefix@, 0));
                true
            } else {
                proof {
                    if s@.subrange(0, prefix@.len() as int) == prefix@ {
                        assert(seq_matches_at(s@, prefix@, 0));
                    }
                }
                false
            }
        },
        None => {
            proof {
                if s@.subrange(0, prefix@.len() as int) == prefix@ {
                    assert(seq_matches_at(s@, prefix@, 0));
                }
            }
            false
        },
    }
}

/// Relies on String::push: appends the given character to the end of the
/// string.
#[verifier::external_body]
pub(crate) fn push_char(s: &mut String, c: char)
    ensures
        final(s)@ == old(s)@.push(c),
{
    s.push(c);
}

} // verus!
