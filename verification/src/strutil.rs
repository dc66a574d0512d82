//! Verified string helpers: ASCII case folding, comparison, searching and
//! splitting, stated over the character sequences of the inputs.

use vstd::prelude::*;
use vstd::string::StrSliceExecFns;

verus! {

/// One character folded to lower case, ASCII letters only.
pub open spec fn lower_char(c: char) -> char {
    if 'A' <= c && c <= 'Z' {
        ((c as u8) + 32) as char
    } else {
        c
    }
}

/// A character sequence folded to lower case, ASCII letters only. The fixed
/// configuration vocabulary (layout words, binding words, scale modes) is
/// ASCII, so this fold decides it outright.
pub open spec fn lower_seq(s: Seq<char>) -> Seq<char> {
    s.map_values(|c: char| lower_char(c))
}

/// What full case folding makes of a character sequence: a function of the
/// characters alone, named rather than spelled out.
pub uninterp spec fn lower_of(s: Seq<char>) -> Seq<char>;

/// Relies on str::to_lowercase: the result depends on the characters alone.
#[verifier::external_body]
pub(crate) fn unicode_lower(s: &str) -> (folded: String)
    ensures
        folded@ == lower_of(s@),
{
    s.to_lowercase()
}

/// Relies on String::push: appends exactly the one character.
#[verifier::external_body]
pub(crate) fn push_char(s: &mut String, c: char)
    ensures
        final(s)@ == old(s)@.push(c),
{
    s.push(c);
}

/// One character folded to lower case, ASCII letters only.
pub fn lower_char_exec(c: char) -> (l: char)
    ensures
        l == lower_char(c),
{
    if c >= 'A' && c <= 'Z' {
        ((c as u8) + 32) as char
    } else {
        c
    }
}

/// The string folded to lower case, ASCII letters only.
pub fn to_lower(s: &str) -> (l: String)
    ensures
        l@ == lower_seq(s@),
{
    let n = s.unicode_len();
    let mut out = String::new();
    let mut i: usize = 0;
    while i < n
        invariant
            i <= n,
            n == s@.len(),
            out@ == lower_seq(s@.subrange(0, i as int)),
        decreases n - i,
    {
        let c = s.get_char(i);
        push_char(&mut out, lower_char_exec(c));
        proof {
            assert(lower_seq(s@.subrange(0, i + 1)) =~= lower_seq(s@.subrange(0, i as int)).push(
                lower_char(s@[i as int]),
            ));
        }
        i = i + 1;
    }
    proof {
        assert(s@.subrange(0, n as int) =~= s@);
    }
    out
}

/// Whether two strings hold the same characters.
pub fn str_eq(a: &str, b: &str) -> (same: bool)
    ensures
        same == (a@ == b@),
{
    let n = a.unicode_len();
    if n != b.unicode_len() {
        return false;
    }
    let mut i: usize = 0;
    while i < n
        invariant
            i <= n,
            n == a@.len(),
            n == b@.len(),
            forall|j: int| 0 <= j < i ==> a@[j] == b@[j],
        decreases n - i,
    {
        if a.get_char(i) != b.get_char(i) {
            assert(a@[i as int] != b@[i as int]);
            return false;
        }
        i = i + 1;
    }
    proof {
        assert(a@ =~= b@);
    }
    true
}

/// Whether two strings hold the same characters once both are folded to
/// lower case.
pub fn eq_ignore_case(a: &str, b: &str) -> (same: bool)
    ensures
        same == (lower_seq(a@) == lower_seq(b@)),
{
    let n = a.unicode_len();
    if n != b.unicode_len() {
        proof {
            assert(lower_seq(a@).len() == a@.len());
            assert(lower_seq(b@).len() == b@.len());
        }
        return false;
    }
    let mut i: usize = 0;
    while i < n
        invariant
            i <= n,
            n == a@.len(),
            n == b@.len(),
            forall|j: int| 0 <= j < i ==> lower_char(a@[j]) == lower_char(b@[j]),
        decreases n - i,
    {
        let ca = lower_char_exec(a.get_char(i));
        let cb = lower_char_exec(b.get_char(i));
        if ca != cb {
            assert(lower_seq(a@)[i as int] != lower_seq(b@)[i as int]);
            return false;
        }
        i = i + 1;
    }
    proof {
        assert forall|j: int| 0 <= j < n implies lower_seq(a@)[j] == lower_seq(b@)[j] by {}
        assert(lower_seq(a@) =~= lower_seq(b@));
    }
    true
}

/// Whether `prefix` is how `s` begins.
pub open spec fn is_prefix(s: Seq<char>, prefix: Seq<char>) -> bool {
    prefix.len() <= s.len() && s.subrange(0, prefix.len() as int) == prefix
}

/// Whether the string begins with the prefix.
pub fn starts_with_str(s: &str, prefix: &str) -> (r: bool)
    ensures
        r == is_prefix(s@, prefix@),
{
    let n = prefix.unicode_len();
    if n > s.unicode_len() {
        return false;
    }
    let mut i: usize = 0;
    while i < n
        invariant
            i <= n,
            n == prefix@.len(),
            n <= s@.len(),
            forall|j: int| 0 <= j < i ==> s@[j] == prefix@[j],
        decreases n - i,
    {
        if s.get_char(i) != prefix.get_char(i) {
            assert(s@.subrange(0, n as int)[i as int] != prefix@[i as int]);
            return false;
        }
        i = i + 1;
    }
    proof {
        assert(s@.subrange(0, n as int) =~= prefix@);
    }
    true
}

/// Whether `needle` occurs in `s` starting at `k`.
pub open spec fn occurs_at(s: Seq<char>, needle: Seq<char>, k: int) -> bool {
    0 <= k && k + needle.len() <= s.len() && s.subrange(k, k + needle.len()) == needle
}

/// Whether `needle` occurs anywhere in `s`.
pub open spec fn seq_contains(s: Seq<char>, needle: Seq<char>) -> bool {
    exists|k: int| occurs_at(s, needle, k)
}

/// Whether the needle occurs anywhere in the string.
pub fn contains_str(s: &str, needle: &str) -> (r: bool)
    ensures
        r == seq_contains(s@, needle@),
{
    let n = s.unicode_len();
    let m = needle.unicode_len();
    if m > n {
        return false;
    }
    if m == 0 {
        proof {
            assert(s@.subrange(0, 0) =~= needle@);
            assert(occurs_at(s@, needle@, 0));
        }
        return true;
    }
    let mut k: usize = 0;
    while k <= n - m
        invariant
            m <= n,
            n == s@.len(),
            m == needle@.len(),
            k <= n - m + 1,
            1 <= m,
            forall|k2: int| 0 <= k2 < k ==> !occurs_at(s@, needle@, k2),
        decreases n + 1 - m - k,
    {
        let mut j: usize = 0;
        let mut all_match = true;
        while j < m && all_match
            invariant
                j <= m,
                k + m <= n,
                n == s@.len(),
                m == needle@.len(),
                all_match ==> forall|j2: int| 0 <= j2 < j ==> s@[k + j2] == needle@[j2],
                !all_match ==> !occurs_at(s@, needle@, k as int),
            decreases m - j, (if all_match { 1int } else { 0int }),
        {
            if s.get_char(k + j) != needle.get_char(j) {
                all_match = false;
                proof {
                    assert(s@.subrange(k as int, k + m as int)[j as int] != needle@[j as int]);
                }
            } else {
                j = j + 1;
            }
        }
        if all_match {
            proof {
                assert(s@.subrange(k as int, k + m as int) =~= needle@);
                assert(occurs_at(s@, needle@, k as int));
            }
            return true;
        }
        k = k + 1;
    }
    proof {
        assert forall|k2: int| 0 <= k2 implies !occurs_at(s@, needle@, k2) by {
            if occurs_at(s@, needle@, k2) {
                assert(k2 <= n - m);
            }
        }
    }
    false
}

/// The pieces of `s` after `cur` between occurrences of `sep`: the scan
/// carries the piece built so far, closes it at each separator, and closes
/// the last piece at the end. Splitting keeps empty pieces.
pub open spec fn split_acc(s: Seq<char>, sep: char, cur: Seq<char>) -> Seq<Seq<char>>
    decreases s.len(),
{
    if s.len() == 0 {
        seq![cur]
    } else if s.first() == sep {
        seq![cur] + split_acc(s.drop_first(), sep, Seq::empty())
    } else {
        split_acc(s.drop_first(), sep, cur.push(s.first()))
    }
}

/// The pieces of `s` between occurrences of `sep`, empty pieces kept; a
/// string without the separator is one piece.
pub open spec fn split_seq(s: Seq<char>, sep: char) -> Seq<Seq<char>> {
    split_acc(s, sep, Seq::empty())
}

/// Split the string at every separator, keeping empty pieces.
pub fn split_str(s: &str, sep: char) -> (pieces: Vec<String>)
    ensures
        pieces@.len() == split_seq(s@, sep).len(),
        forall|i: int| 0 <= i < pieces@.len() ==> pieces@[i]@ == split_seq(s@, sep)[i],
{
    let n = s.unicode_len();
    proof {
        assert(s@.subrange(0, n as int) =~= s@);
    }
    let mut pieces: Vec<String> = Vec::new();
    let mut cur = String::new();
    let mut i: usize = 0;
    while i < n
        invariant
            i <= n,
            n == s@.len(),
            split_seq(s@, sep).len() == pieces@.len() + split_acc(
                s@.subrange(i as int, n as int),
                sep,
                cur@,
            ).len(),
            forall|j: int| 0 <= j < pieces@.len() ==> split_seq(s@, sep)[j] == pieces@[j]@,
            forall|j: int| 0 <= j < split_acc(s@.subrange(i as int, n as int), sep, cur@).len()
                ==> split_seq(s@, sep)[pieces@.len() + j] == split_acc(
                    s@.subrange(i as int, n as int),
                    sep,
                    cur@,
                )[j],
        decreases n - i,
    {
        let c = s.get_char(i);
        let ghost pre_pieces = pieces@;
        let ghost pre_cur = cur@;
        let ghost rest = s@.subrange(i as int, n as int);
        proof {
            assert(rest.first() == s@[i as int]);
            assert(rest.drop_first() =~= s@.subrange(i + 1, n as int));
        }
        if c == sep {
            let done = cur;
            cur = String::new();
            pieces.push(done);
            proof {
                let full = split_seq(s@, sep);
                let tail = split_acc(rest.drop_first(), sep, Seq::empty());
                assert(split_acc(rest, sep, pre_cur) == seq![pre_cur] + tail);
                assert forall|j: int| 0 <= j < pieces@.len()
                    implies full[j] == pieces@[j]@ by {
                    if j < pre_pieces.len() {
                    } else {
                        assert(full[pre_pieces.len() as int] == split_acc(rest, sep, pre_cur)[0]);
                        assert(split_acc(rest, sep, pre_cur)[0] == pre_cur);
                    }
                }
                assert forall|j: int| 0 <= j < tail.len()
                    implies full[pieces@.len() + j] == tail[j] by {
                    assert(full[pre_pieces.len() + j + 1] == split_acc(rest, sep, pre_cur)[j
                        + 1]);
                    assert(split_acc(rest, sep, pre_cur)[j + 1] == tail[j]);
                }
            }
        } else {
            push_char(&mut cur, c);
            proof {
                assert(cur@ == pre_cur.push(s@[i as int]));
                assert(split_acc(rest, sep, pre_cur) == split_acc(
                    rest.drop_first(),
                    sep,
                    cur@,
                ));
            }
        }
        i = i + 1;
    }
    let ghost last_piece = cur@;
    let ghost pre_pieces = pieces@;
    pieces.push(cur);
    proof {
        let full = split_seq(s@, sep);
        let rest = s@.subrange(n as int, n as int);
        assert(rest =~= Seq::<char>::empty());
        assert(split_acc(rest, sep, last_piece) == seq![last_piece]);
        assert forall|j: int| 0 <= j < pieces@.len() implies pieces@[j]@ == full[j] by {
            if j < pre_pieces.len() {
            } else {
                assert(full[pre_pieces.len() as int] == split_acc(rest, sep, last_piece)[0]);
            }
        }
    }
    pieces
}

/// An owned copy of an owned string.
pub fn clone_string(s: &String) -> (out: String)
    ensures
        out@ == s@,
{
    s.clone()
}

/// The string with leading and trailing spaces and tabs removed.
pub open spec fn is_blank(c: char) -> bool {
    c == ' ' || c == '\t' || c == '\r'
}

/// Index of the first character that is not blank.
pub open spec fn first_non_blank(s: Seq<char>) -> int
    decreases s.len(),
{
    if s.len() == 0 {
        0
    } else if is_blank(s.first()) {
        1 + first_non_blank(s.drop_first())
    } else {
        0
    }
}

/// Index one past the last character that is not blank.
pub open spec fn last_non_blank(s: Seq<char>) -> int
    decreases s.len(),
{
    if s.len() == 0 {
        0
    } else if is_blank(s.last()) {
        last_non_blank(s.drop_last())
    } else {
        s.len() as int
    }
}

/// The trimmed span of `s`: what remains when blanks are removed at both
/// ends (empty when `s` is all blank).
pub open spec fn trimmed(s: Seq<char>) -> Seq<char> {
    let a = first_non_blank(s);
    let b = last_non_blank(s);
    if a < b {
        s.subrange(a, b)
    } else {
        Seq::empty()
    }
}

/// Counting blanks from the front finds the first mark.
proof fn lemma_mark_first(s: Seq<char>, a: int)
    requires
        0 <= a <= s.len(),
        forall|j: int| 0 <= j < a ==> is_blank(s[j]),
        a < s.len() ==> !is_blank(s[a]),
    ensures
        first_non_blank(s) == a,
    decreases s.len(),
{
    if s.len() == 0 {
    } else if a == 0 {
    } else {
        assert(is_blank(s.first()));
        assert forall|j: int| 0 <= j < a - 1 implies is_blank(s.drop_first()[j]) by {
            assert(s.drop_first()[j] == s[j + 1]);
        }
        assert(a - 1 < s.drop_first().len() ==> !is_blank(s.drop_first()[a - 1]));
        lemma_mark_first(s.drop_first(), a - 1);
    }
}

/// Counting blanks from the back finds the last mark.
proof fn lemma_mark_last(s: Seq<char>, b: int)
    requires
        0 <= b <= s.len(),
        forall|j: int| b <= j < s.len() ==> is_blank(s[j]),
        b > 0 ==> !is_blank(s[b - 1]),
    ensures
        last_non_blank(s) == b,
    decreases s.len(),
{
    if s.len() == 0 {
    } else if b == s.len() {
        assert(!is_blank(s.last()));
    } else {
        assert(is_blank(s.last()));
        assert forall|j: int| b <= j < s.drop_last().len() implies is_blank(s.drop_last()[j]) by {
            assert(s.drop_last()[j] == s[j]);
        }
        lemma_mark_last(s.drop_last(), b);
    }
}

/// The string with blanks removed from both ends.
pub fn trim_str(s: &str) -> (out: String)
    ensures
        out@ == trimmed(s@),
{
    let n = s.unicode_len();
    let mut a: usize = 0;
    let mut scanning = true;
    while a < n && scanning
        invariant
            a <= n,
            n == s@.len(),
            forall|j: int| 0 <= j < a ==> is_blank(s@[j]),
            !scanning ==> a < n && !is_blank(s@[a as int]),
        decreases n - a, (if scanning { 1int } else { 0int }),
    {
        let c = s.get_char(a);
        if c == ' ' || c == '\t' || c == '\r' {
            a = a + 1;
        } else {
            scanning = false;
        }
    }
    let mut b: usize = n;
    let mut scanning_back = true;
    while b > a && scanning_back
        invariant
            a <= b <= n,
            n == s@.len(),
            forall|j: int| b <= j < n ==> is_blank(s@[j]),
            !scanning_back ==> b > a && !is_blank(s@[b - 1]),
        decreases b, (if scanning_back { 1int } else { 0int }),
    {
        let c = s.get_char(b - 1);
        if c == ' ' || c == '\t' || c == '\r' {
            b = b - 1;
        } else {
            scanning_back = false;
        }
    }
    let mut out = String::new();
    let mut i: usize = a;
    while i < b
        invariant
            a <= i <= b <= n,
            n == s@.len(),
            out@ == s@.subrange(a as int, i as int),
        decreases b - i,
    {
        push_char(&mut out, s.get_char(i));
        proof {
            assert(s@.subrange(a as int, i + 1) =~= s@.subrange(a as int, i as int).push(
                s@[i as int],
            ));
        }
        i = i + 1;
    }
    proof {
        lemma_mark_first(s@, a as int);
        if b > a {
            lemma_mark_last(s@, b as int);
            assert(out@ == trimmed(s@));
        } else {
            // the whole string is blank: both scans met, the trim is empty
            assert(a == n);
            lemma_mark_last(s@, 0int);
            assert(out@ =~= Seq::<char>::empty());
            assert(trimmed(s@) =~= Seq::<char>::empty());
        }
    }
    out
}

/// Index of the first occurrence of a character.
pub open spec fn char_position(s: Seq<char>, c: char) -> Option<int>
    decreases s.len(),
{
    if s.len() == 0 {
        None
    } else if s.first() == c {
        Some(0int)
    } else {
        match char_position(s.drop_first(), c) {
            Some(i) => Some(i + 1),
            None => None,
        }
    }
}

/// `char_position` finds exactly the first matching index.
proof fn lemma_char_position(s: Seq<char>, c: char, i: int)
    requires
        0 <= i <= s.len(),
        forall|j: int| 0 <= j < i ==> s[j] != c,
        i < s.len() ==> s[i] == c,
    ensures
        char_position(s, c) == if i < s.len() { Some(i) } else { None::<int> },
    decreases i + 1, s.len(),
{
    if s.len() == 0 {
    } else if i == 0 {
        if s.first() != c {
            assert(s[0] != c);
            lemma_char_position(s.drop_first(), c, 0);
        }
    } else {
        assert(s.first() != c);
        assert forall|j: int| 0 <= j < i - 1 implies s.drop_first()[j] != c by {
            assert(s.drop_first()[j] == s[j + 1]);
        }
        assert(i - 1 < s.drop_first().len() ==> s.drop_first()[i - 1] == c);
        lemma_char_position(s.drop_first(), c, i - 1);
    }
}

/// Index of the first occurrence of the character, or nothing.
pub fn position_of_char(s: &str, c: char) -> (found: Option<usize>)
    ensures
        match found {
            Some(i) => char_position(s@, c) == Some(i as int) && i < s@.len(),
            None => char_position(s@, c) is None,
        },
{
    let n = s.unicode_len();
    let mut i: usize = 0;
    while i < n
        invariant
            i <= n,
            n == s@.len(),
            forall|j: int| 0 <= j < i ==> s@[j] != c,
        decreases n - i,
    {
        if s.get_char(i) == c {
            proof {
                lemma_char_position(s@, c, i as int);
            }
            return Some(i);
        }
        i = i + 1;
    }
    proof {
        lemma_char_position(s@, c, n as int);
    }
    None
}

} // verus!
