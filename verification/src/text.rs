//! Verified text handling for queries: ASCII case folding, whitespace
//! trimming and substring containment over sequences of characters.
//!
//! Search terms and category filters are normalized with these functions, so
//! the matching policy of the catalog is stated here once, as spec functions,
//! and the executable code is proved against it.

use vstd::prelude::*;
use vstd::string::StrSliceExecFns;

verus! {

/// An ASCII capital letter.
pub open spec fn is_ascii_upper(c: char) -> bool {
    'A' as u32 <= c as u32 && c as u32 <= 'Z' as u32
}

/// ASCII case folding of one character: capitals map to the corresponding
/// small letter, every other character is unchanged.
pub open spec fn lower_char(c: char) -> char {
    if is_ascii_upper(c) {
        ((c as u32) + 32) as char
    } else {
        c
    }
}

/// ASCII case folding of a whole sequence.
pub open spec fn lower_seq(s: Seq<char>) -> Seq<char> {
    s.map_values(|c: char| lower_char(c))
}

/// The whitespace characters stripped from the ends of a query.
pub open spec fn is_space(c: char) -> bool {
    c == ' ' || c == '\t' || c == '\n' || c == '\r'
}

/// The sequence without its leading whitespace.
pub open spec fn trim_start_spec(s: Seq<char>) -> Seq<char>
    decreases s.len(),
{
    if s.len() > 0 && is_space(s[0]) {
        trim_start_spec(s.drop_first())
    } else {
        s
    }
}

/// The sequence without its trailing whitespace.
pub open spec fn trim_end_spec(s: Seq<char>) -> Seq<char>
    decreases s.len(),
{
    if s.len() > 0 && is_space(s.last()) {
        trim_end_spec(s.drop_last())
    } else {
        s
    }
}

/// The sequence without leading and trailing whitespace.
pub open spec fn trim_spec(s: Seq<char>) -> Seq<char> {
    trim_end_spec(trim_start_spec(s))
}

/// `needle` occurs in `hay` starting at position `i`.
pub open spec fn matches_at(hay: Seq<char>, needle: Seq<char>, i: int) -> bool {
    &&& 0 <= i
    &&& i + needle.len() <= hay.len()
    &&& hay.subrange(i, i + needle.len() as int) == needle
}

/// `needle` occurs somewhere in `hay`.
pub open spec fn contains_seq(hay: Seq<char>, needle: Seq<char>) -> bool {
    exists|i: int| matches_at(hay, needle, i)
}

/// The characters of a string slice, as a vector.
pub fn chars_vec(s: &str) -> (r: Vec<char>)
    ensures
        r@ == s@,
{
    let n: usize = s.unicode_len();
    let mut r: Vec<char> = Vec::new();
    let mut i: usize = 0;
    while i < n
        invariant
            i <= n,
            n == s@.len(),
            r@ == s@.take(i as int),
        decreases n - i,
    {
        let c = s.get_char(i);
        r.push(c);
        proof {
            s@.lemma_take_succ_push(i as int);
        }
        i = i + 1;
    }
    proof {
        assert(r@ =~= s@);
    }
    r
}

/// ASCII case folding of one character, executable.
pub fn char_to_lower(c: char) -> (r: char)
    ensures
        r == lower_char(c),
{
    let u = c as u32;
    if 65 <= u && u <= 90 {
        let b = (c as u8) + 32;
        b as char
    } else {
        c
    }
}

/// ASCII case folding of a character vector.
pub fn to_lower_vec(s: &Vec<char>) -> (r: Vec<char>)
    ensures
        r@ == lower_seq(s@),
{
    let mut r: Vec<char> = Vec::new();
    let n = s.len();
    let mut i: usize = 0;
    while i < n
        invariant
            i <= n,
            n == s@.len(),
            r@.len() == i,
            forall|k: int| 0 <= k < i ==> r@[k] == lower_char(s@[k]),
        decreases n - i,
    {
        let c = char_to_lower(s[i]);
        r.push(c);
        i = i + 1;
    }
    proof {
        assert(r@ =~= lower_seq(s@));
    }
    r
}

/// Whitespace test, executable.
pub fn char_is_space(c: char) -> (r: bool)
    ensures
        r == is_space(c),
{
    c == ' ' || c == '\t' || c == '\n' || c == '\r'
}

/// Dropping leading whitespace one character at a time reaches the first
/// non-space position.
proof fn lemma_trim_start_at(s: Seq<char>, i: int)
    requires
        0 <= i <= s.len(),
        forall|k: int| 0 <= k < i ==> is_space(s[k]),
        i < s.len() ==> !is_space(s[i]),
    ensures
        trim_start_spec(s) == s.subrange(i, s.len() as int),
    decreases i,
{
    if i == 0 {
        if s.len() > 0 && is_space(s[0]) {
            assert(false);
        }
        assert(s.subrange(0, s.len() as int) =~= s);
    } else {
        assert(is_space(s[0]));
        let t = s.drop_first();
        assert(t =~= s.subrange(1, s.len() as int));
        lemma_trim_start_at(t, i - 1);
        assert(t.subrange(i - 1, t.len() as int) =~= s.subrange(i, s.len() as int));
    }
}

/// Dropping trailing whitespace one character at a time reaches the last
/// non-space position.
proof fn lemma_trim_end_at(s: Seq<char>, j: int)
    requires
        0 <= j <= s.len(),
        forall|k: int| j <= k < s.len() ==> is_space(s[k]),
        j > 0 ==> !is_space(s[j - 1]),
    ensures
        trim_end_spec(s) == s.subrange(0, j),
    decreases s.len() - j,
{
    if j == s.len() {
        if s.len() > 0 && is_space(s.last()) {
            assert(false);
        }
        assert(s.subrange(0, s.len() as int) =~= s);
    } else {
        assert(is_space(s.last()));
        let t = s.drop_last();
        assert(t =~= s.subrange(0, s.len() - 1));
        lemma_trim_end_at(t, j);
        assert(t.subrange(0, j) =~= s.subrange(0, j));
    }
}

/// The query with leading and trailing whitespace removed.
pub fn trim_vec(s: &Vec<char>) -> (r: Vec<char>)
    ensures
        r@ == trim_spec(s@),
{
    let n = s.len();
    let mut start: usize = 0;
    while start < n && char_is_space(s[start])
        invariant
            start <= n,
            n == s@.len(),
            forall|k: int| 0 <= k < start ==> is_space(s@[k]),
        decreases n - start,
    {
        start = start + 1;
    }
    proof {
        lemma_trim_start_at(s@, start as int);
    }
    let mut end: usize = n;
    while end > start && char_is_space(s[end - 1])
        invariant
            start <= end <= n,
            n == s@.len(),
            forall|k: int| end <= k < n ==> is_space(s@[k]),
        decreases end,
    {
        end = end - 1;
    }
    let ghost mid = s@.subrange(start as int, n as int);
    proof {
        lemma_trim_end_at(mid, end - start);
        assert forall|k: int| (end - start) <= k < mid.len() implies is_space(mid[k]) by {
            assert(mid[k] == s@[k + start]);
        }
    }
    let mut r: Vec<char> = Vec::new();
    let mut i: usize = start;
    while i < end
        invariant
            start <= i <= end <= n,
            n == s@.len(),
            r@ == s@.subrange(start as int, i as int),
        decreases end - i,
    {
        let c = s[i];
        r.push(c);
        proof {
            assert(s@.subrange(start as int, i + 1) =~= s@.subrange(start as int, i as int).push(
                s@[i as int]));
        }
        i = i + 1;
    }
    proof {
        assert(mid.subrange(0, end - start) =~= s@.subrange(start as int, end as int));
        assert(r@ == trim_spec(s@));
    }
    r
}

/// Whether `needle` occurs in `hay` as a contiguous run.
pub fn contains_chars(hay: &Vec<char>, needle: &Vec<char>) -> (r: bool)
    ensures
        r == contains_seq(hay@, needle@),
{
    let m = needle.len();
    let n = hay.len();
    if m > n {
        proof {
            assert forall|i: int| !matches_at(hay@, needle@, i) by {}
        }
        return false;
    }
    if m == 0 {
        proof {
            assert(hay@.subrange(0, 0) =~= needle@);
            assert(matches_at(hay@, needle@, 0));
        }
        return true;
    }
    let mut i: usize = 0;
    while i <= n - m
        invariant
            0 < m <= n,
            m == needle@.len(),
            n == hay@.len(),
            i <= n - m + 1,
            forall|k: int| 0 <= k < i ==> !matches_at(hay@, needle@, k),
        decreases n - m + 1 - i,
    {
        let mut j: usize = 0;
        let mut all_eq = true;
        while j < m
            invariant
                m <= n,
                m == needle@.len(),
                n == hay@.len(),
                i <= n - m,
                j <= m,
                all_eq ==> forall|t: int| 0 <= t < j ==> hay@[i + t] == needle@[t],
                !all_eq ==> !matches_at(hay@, needle@, i as int),
            decreases m - j,
        {
            if hay[i + j] != needle[j] {
                proof {
                    if matches_at(hay@, needle@, i as int) {
                        assert(hay@.subrange(i as int, i + m as int)[j as int] == needle@[
                            j as int]);
                    }
                }
                all_eq = false;
            }
            j = j + 1;
        }
        if all_eq {
            proof {
                assert(hay@.subrange(i as int, i + m as int) =~= needle@);
                assert(matches_at(hay@, needle@, i as int));
            }
            return true;
        }
        i = i + 1;
    }
    proof {
        assert forall|k: int| !matches_at(hay@, needle@, k) by {
            if 0 <= k && k + needle@.len() <= hay@.len() {
                assert(k < i);
            }
        }
    }
    false
}

/// Case folding maps no character onto a capital or a space, and folding
/// twice is folding once.
proof fn lemma_lower_char_props(c: char)
    ensures
        !is_ascii_upper(lower_char(c)),
        is_space(lower_char(c)) == is_space(c),
        lower_char(lower_char(c)) == lower_char(c),
{
    if is_ascii_upper(c) {
        let u = (c as u32) + 32;
        assert((u as char) as u32 == u) by {
            vstd::utf8::char_u32_cast(u as char, (u as char) as u32);
        }
    }
}

/// Case folding is idempotent on whole sequences.
pub proof fn lemma_lower_idempotent(s: Seq<char>)
    ensures
        lower_seq(lower_seq(s)) == lower_seq(s),
{
    assert forall|i: int| 0 <= i < s.len() implies lower_seq(lower_seq(s))[i] == lower_seq(s)[i] by {
        lemma_lower_char_props(s[i]);
    }
    assert(lower_seq(lower_seq(s)) =~= lower_seq(s));
}

/// Trimming the start commutes with case folding.
proof fn lemma_trim_start_lower(s: Seq<char>)
    ensures
        trim_start_spec(lower_seq(s)) == lower_seq(trim_start_spec(s)),
    decreases s.len(),
{
    if s.len() > 0 {
        lemma_lower_char_props(s[0]);
        assert(lower_seq(s)[0] == lower_char(s[0]));
        if is_space(s[0]) {
            lemma_trim_start_lower(s.drop_first());
            assert(lower_seq(s).drop_first() =~= lower_seq(s.drop_first()));
        }
    }
}

/// Trimming the end commutes with case folding.
proof fn lemma_trim_end_lower(s: Seq<char>)
    ensures
        trim_end_spec(lower_seq(s)) == lower_seq(trim_end_spec(s)),
    decreases s.len(),
{
    if s.len() > 0 {
        lemma_lower_char_props(s.last());
        assert(lower_seq(s).last() == lower_char(s.last()));
        if is_space(s.last()) {
            lemma_trim_end_lower(s.drop_last());
            assert(lower_seq(s).drop_last() =~= lower_seq(s.drop_last()));
        }
    }
}

/// Trimming commutes with case folding: normalizing an already folded term
/// gives the folded form of the trimmed term.
pub proof fn lemma_trim_lower_commute(s: Seq<char>)
    ensures
        trim_spec(lower_seq(s)) == lower_seq(trim_spec(s)),
{
    lemma_trim_start_lower(s);
    lemma_trim_end_lower(trim_start_spec(s));
}

/// Whether a string is empty or whitespace-only.
pub fn is_blank(s: &str) -> (r: bool)
    ensures
        r == (trim_spec(s@).len() == 0),
{
    let cs = chars_vec(s);
    let t = trim_vec(&cs);
    t.len() == 0
}

/// Whether two character vectors hold the same characters.
pub fn eq_chars(a: &Vec<char>, b: &Vec<char>) -> (r: bool)
    ensures
        r == (a@ == b@),
{
    let n = a.len();
    if n != b.len() {
        return false;
    }
    let mut i: usize = 0;
    while i < n
        invariant
            i <= n,
            n == a@.len(),
            n == b@.len(),
            forall|k: int| 0 <= k < i ==> a@[k] == b@[k],
        decreases n - i,
    {
        if a[i] != b[i] {
            return false;
        }
        i = i + 1;
    }
    proof {
        assert(a@ =~= b@);
    }
    true
}

/// The characters of a string, folded to ASCII lower case.
pub fn lower_chars_of(s: &str) -> (r: Vec<char>)
    ensures
        r@ == lower_seq(s@),
{
    let cs = chars_vec(s);
    to_lower_vec(&cs)
}

} // verus!
