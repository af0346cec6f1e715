//! Character-sequence predicates and the small set of verified string
//! operations the manifest logic is built from.

use vstd::prelude::*;

verus! {

/// `p` is a prefix of `s`.
pub open spec fn starts_with(s: Seq<char>, p: Seq<char>) -> bool {
    p.len() <= s.len() && s.subrange(0, p.len() as int) == p
}

/// `p` is a suffix of `s`.
pub open spec fn ends_with(s: Seq<char>, p: Seq<char>) -> bool {
    p.len() <= s.len() && s.subrange(s.len() - p.len(), s.len() as int) == p
}

/// `p` occurs in `s` at position `i`.
pub open spec fn occurs_at(s: Seq<char>, p: Seq<char>, i: int) -> bool {
    0 <= i && i + p.len() <= s.len() && s.subrange(i, i + p.len() as int) == p
}

/// `p` occurs somewhere in `s`.
pub open spec fn contains_seq(s: Seq<char>, p: Seq<char>) -> bool {
    exists|i: int| occurs_at(s, p, i)
}

/// Equality test on string slices, by contents.
pub fn str_eq(a: &str, b: &str) -> (r: bool)
    ensures
        r == (a@ == b@),
{
    let alen = a.unicode_len();
    let blen = b.unicode_len();
    if alen != blen {
        assert(a@ != b@) by {
            assert(a@.len() != b@.len());
        }
        return false;
    }
    let mut i: usize = 0;
    while i < alen
        invariant
            alen == a@.len(),
            alen == b@.len(),
            0 <= i <= alen,
            forall|j: int| 0 <= j < i ==> a@[j] == b@[j],
        decreases alen - i,
    {
        if a.get_char(i) != b.get_char(i) {
            assert(a@ != b@);
            return false;
        }
        i += 1;
    }
    assert(a@ =~= b@);
    true
}

/// Prefix test.
pub fn str_starts_with(s: &str, p: &str) -> (r: bool)
    ensures
        r == starts_with(s@, p@),
{
    let slen = s.unicode_len();
    let plen = p.unicode_len();
    if plen > slen {
        return false;
    }
    let mut i: usize = 0;
    while i < plen
        invariant
            slen == s@.len(),
            plen == p@.len(),
            plen <= slen,
            0 <= i <= plen,
            forall|j: int| 0 <= j < i ==> s@[j] == p@[j],
        decreases plen - i,
    {
        if s.get_char(i) != p.get_char(i) {
            assert(!starts_with(s@, p@)) by {
                assert(s@.subrange(0, p@.len() as int)[i as int] == s@[i as int]);
            }
            return false;
        }
        i += 1;
    }
    assert(s@.subrange(0, p@.len() as int) =~= p@);
    true
}

/// Suffix test.
pub fn str_ends_with(s: &str, p: &str) -> (r: bool)
    ensures
        r == ends_with(s@, p@),
{
    let slen = s.unicode_len();
    let plen = p.unicode_len();
    if plen > slen {
        return false;
    }
    let base = slen - plen;
    let mut i: usize = 0;
    while i < plen
        invariant
            slen == s@.len(),
            plen == p@.len(),
            plen <= slen,
            base == slen - plen,
            0 <= i <= plen,
            forall|j: int| 0 <= j < i ==> s@[base + j] == p@[j],
        decreases plen - i,
    {
        if s.get_char(base + i) != p.get_char(i) {
            assert(!ends_with(s@, p@)) by {
                assert(s@.subrange(s@.len() - p@.len(), s@.len() as int)[i as int]
                    == s@[base + i]);
            }
            return false;
        }
        i += 1;
    }
    assert(s@.subrange(s@.len() - p@.len(), s@.len() as int) =~= p@);
    true
}

/// Whether `p` occurs at position `at` of `s`.
pub fn str_occurs_at(s: &str, p: &str, at: usize) -> (r: bool)
    requires
        at + p@.len() <= s@.len(),
    ensures
        r == occurs_at(s@, p@, at as int),
{
    let slen = s.unicode_len();
    let plen = p.unicode_len();
    assert(at + plen <= slen);
    let mut i: usize = 0;
    while i < plen
        invariant
            slen == s@.len(),
            plen == p@.len(),
            at + plen <= slen,
            0 <= i <= plen,
            forall|j: int| 0 <= j < i ==> s@[at + j] == p@[j],
        decreases plen - i,
    {
        if s.get_char(at + i) != p.get_char(i) {
            assert(!occurs_at(s@, p@, at as int)) by {
                assert(s@.subrange(at as int, at + p@.len() as int)[i as int]
                    == s@[at + i]);
            }
            return false;
        }
        i += 1;
    }
    assert(s@.subrange(at as int, at + p@.len() as int) =~= p@);
    true
}

/// Substring search.
pub fn str_contains(s: &str, p: &str) -> (r: bool)
    ensures
        r == contains_seq(s@, p@),
{
    let slen = s.unicode_len();
    let plen = p.unicode_len();
    if plen > slen {
        assert(!contains_seq(s@, p@));
        return false;
    }
    if plen == 0 {
        assert(occurs_at(s@, p@, 0)) by {
            assert(s@.subrange(0, 0) =~= p@);
        }
        return true;
    }
    let last = slen - plen;
    let mut at: usize = 0;
    loop
        invariant
            slen == s@.len(),
            plen == p@.len(),
            1 <= plen <= slen,
            last == slen - plen,
            0 <= at <= last + 1,
            forall|i: int| 0 <= i < at ==> !occurs_at(s@, p@, i),
        decreases last + 1 - at,
    {
        if at > last {
            assert(forall|i: int| occurs_at(s@, p@, i) ==> 0 <= i <= last);
            return false;
        }
        if str_occurs_at(s, p, at) {
            return true;
        }
        at += 1;
    }
}

/// The first index of `c` in `s`, if any, as a recursive definition.
pub open spec fn idx_of(s: Seq<char>, c: char) -> Option<int>
    decreases s.len(),
{
    if s.len() == 0 {
        None
    } else if s.first() == c {
        Some(0)
    } else {
        match idx_of(s.drop_first(), c) {
            Some(i) => Some(i + 1),
            None => None,
        }
    }
}

/// A first occurrence witnesses `idx_of`.
pub proof fn lemma_idx_of_found(s: Seq<char>, c: char, i: int)
    requires
        0 <= i < s.len(),
        s[i] == c,
        forall|j: int| 0 <= j < i ==> s[j] != c,
    ensures
        idx_of(s, c) == Some(i),
    decreases s.len(),
{
    if i > 0 {
        lemma_idx_of_found(s.drop_first(), c, i - 1);
    }
}

/// Absence of `c` means `idx_of` is `None`.
pub proof fn lemma_idx_of_none(s: Seq<char>, c: char)
    requires
        forall|j: int| 0 <= j < s.len() ==> s[j] != c,
    ensures
        idx_of(s, c) is None,
    decreases s.len(),
{
    if s.len() > 0 {
        lemma_idx_of_none(s.drop_first(), c);
    }
}

/// The last index of `c` in `s`, if any, as a recursive definition.
pub open spec fn last_idx_of(s: Seq<char>, c: char) -> Option<int>
    decreases s.len(),
{
    if s.len() == 0 {
        None
    } else if s.last() == c {
        Some(s.len() - 1)
    } else {
        last_idx_of(s.drop_last(), c)
    }
}

/// A last occurrence witnesses `last_idx_of`.
pub proof fn lemma_last_idx_of_found(s: Seq<char>, c: char, i: int)
    requires
        0 <= i < s.len(),
        s[i] == c,
        forall|j: int| i < j < s.len() ==> s[j] != c,
    ensures
        last_idx_of(s, c) == Some(i),
    decreases s.len(),
{
    if i < s.len() - 1 {
        lemma_last_idx_of_found(s.drop_last(), c, i);
    }
}

/// Absence of `c` means `last_idx_of` is `None`.
pub proof fn lemma_last_idx_of_none(s: Seq<char>, c: char)
    requires
        forall|j: int| 0 <= j < s.len() ==> s[j] != c,
    ensures
        last_idx_of(s, c) is None,
    decreases s.len(),
{
    if s.len() > 0 {
        lemma_last_idx_of_none(s.drop_last(), c);
    }
}

/// The last position of `c` in `s`, if any.
pub fn last_index_of(s: &str, c: char) -> (r: Option<usize>)
    ensures
        match r {
            Some(i) => i < s@.len() && s@[i as int] == c
                && forall|j: int| i < j < s@.len() ==> s@[j] != c,
            None => forall|j: int| 0 <= j < s@.len() ==> s@[j] != c,
        },
{
    let len = s.unicode_len();
    let mut i: usize = len;
    while i > 0
        invariant
            len == s@.len(),
            0 <= i <= len,
            forall|j: int| i <= j < len ==> s@[j] != c,
        decreases i,
    {
        i -= 1;
        if s.get_char(i) == c {
            return Some(i);
        }
    }
    None
}

/// The first position of `c` in `s`, if any.
pub fn first_index_of(s: &str, c: char) -> (r: Option<usize>)
    ensures
        match r {
            Some(i) => i < s@.len() && s@[i as int] == c
                && forall|j: int| 0 <= j < i ==> s@[j] != c,
            None => forall|j: int| 0 <= j < s@.len() ==> s@[j] != c,
        },
{
    let len = s.unicode_len();
    let mut i: usize = 0;
    while i < len
        invariant
            len == s@.len(),
            0 <= i <= len,
            forall|j: int| 0 <= j < i ==> s@[j] != c,
        decreases len - i,
    {
        if s.get_char(i) == c {
            return Some(i);
        }
        i += 1;
    }
    None
}

/// The ASCII-lowercased view of a string.
pub open spec fn lower_seq(s: Seq<char>) -> Seq<char> {
    s.map_values(|c: char| lower_char(c))
}

/// Whether lowered `p` occurs at `at` in lowered `s`.
fn occurs_at_ci(s: &str, p: &str, at: usize) -> (r: bool)
    requires
        at + p@.len() <= s@.len(),
    ensures
        r == occurs_at(lower_seq(s@), lower_seq(p@), at as int),
{
    let slen = s.unicode_len();
    let plen = p.unicode_len();
    assert(at + plen <= slen);
    let mut i: usize = 0;
    while i < plen
        invariant
            slen == s@.len(),
            plen == p@.len(),
            at + plen <= slen,
            0 <= i <= plen,
            forall|j: int| 0 <= j < i ==> lower_seq(s@)[at + j] == lower_seq(p@)[j],
        decreases plen - i,
    {
        if lower_char_exec(s.get_char(at + i)) != lower_char_exec(p.get_char(i)) {
            assert(!occurs_at(lower_seq(s@), lower_seq(p@), at as int)) by {
                assert(lower_seq(s@).subrange(at as int, at + lower_seq(p@).len() as int)[i as int]
                    == lower_seq(s@)[at + i]);
            }
            return false;
        }
        i += 1;
    }
    assert(lower_seq(s@).subrange(at as int, at + lower_seq(p@).len() as int) =~= lower_seq(p@));
    true
}

/// Case-insensitive (ASCII) substring search.
pub fn str_contains_ci(s: &str, p: &str) -> (r: bool)
    ensures
        r == contains_seq(lower_seq(s@), lower_seq(p@)),
{
    let slen = s.unicode_len();
    let plen = p.unicode_len();
    if plen > slen {
        assert(!contains_seq(lower_seq(s@), lower_seq(p@)));
        return false;
    }
    if plen == 0 {
        assert(occurs_at(lower_seq(s@), lower_seq(p@), 0)) by {
            assert(lower_seq(s@).subrange(0, 0) =~= lower_seq(p@));
        }
        return true;
    }
    let last = slen - plen;
    let mut at: usize = 0;
    loop
        invariant
            slen == s@.len(),
            plen == p@.len(),
            1 <= plen <= slen,
            last == slen - plen,
            0 <= at <= last + 1,
            forall|i: int| 0 <= i < at ==> !occurs_at(lower_seq(s@), lower_seq(p@), i),
        decreases last + 1 - at,
    {
        if at > last {
            assert(forall|i: int| occurs_at(lower_seq(s@), lower_seq(p@), i) ==> 0 <= i <= last);
            return false;
        }
        if occurs_at_ci(s, p, at) {
            return true;
        }
        at += 1;
    }
}

/// Any index `idx_of` yields is in range and hits `c`.
pub proof fn lemma_idx_of_range(s: Seq<char>, c: char)
    ensures
        match idx_of(s, c) {
            Some(i) => 0 <= i < s.len() && s[i] == c,
            None => true,
        },
    decreases s.len(),
{
    if s.len() > 0 && s.first() != c {
        lemma_idx_of_range(s.drop_first(), c);
    }
}

/// `s` split at every `c`, keeping empty pieces (so splitting `"a--b"`
/// at `-` yields three pieces).
pub open spec fn split_char_spec(s: Seq<char>, c: char) -> Seq<Seq<char>>
    decreases s.len(),
    via split_char_spec_dec
{
    match idx_of(s, c) {
        Some(i) => seq![s.subrange(0, i)] + split_char_spec(
            s.subrange(i + 1, s.len() as int),
            c,
        ),
        None => seq![s],
    }
}

#[via_fn]
proof fn split_char_spec_dec(s: Seq<char>, c: char) {
    lemma_idx_of_range(s, c);
}

/// Split `s` at every `c`.
pub fn split_char(s: &str, c: char) -> (r: Vec<String>)
    ensures
        r@.map_values(|x: String| x@) == split_char_spec(s@, c),
        r@.len() >= 1,
    decreases s@.len(),
{
    let len = s.unicode_len();
    match first_index_of(s, c) {
        Some(i) => {
            proof {
                lemma_idx_of_found(s@, c, i as int);
            }
            let head = s.substring_char(0, i).to_owned();
            let rest = s.substring_char(i + 1, len);
            let mut tail = split_char(rest, c);
            let ghost tail0 = tail@;
            tail.insert(0, head);
            assert(tail@.map_values(|x: String| x@) =~= seq![head@]
                + tail0.map_values(|x: String| x@));
            assert(tail@.map_values(|x: String| x@) =~= split_char_spec(s@, c));
            tail
        },
        None => {
            proof {
                lemma_idx_of_none(s@, c);
            }
            let mut r: Vec<String> = Vec::new();
            r.push(s.to_owned());
            assert(r@.map_values(|x: String| x@) =~= seq![s@]);
            r
        },
    }
}

/// The least index where `pat` occurs in `s`, if any.
pub open spec fn find_sub(s: Seq<char>, pat: Seq<char>) -> Option<int>
    decreases s.len(),
{
    if starts_with(s, pat) {
        Some(0)
    } else if s.len() == 0 {
        None
    } else {
        match find_sub(s.drop_first(), pat) {
            Some(i) => Some(i + 1),
            None => None,
        }
    }
}

/// Any index `find_sub` yields is in range and an occurrence, and no
/// earlier index is one.
pub proof fn lemma_find_sub_range(s: Seq<char>, pat: Seq<char>)
    ensures
        match find_sub(s, pat) {
            Some(i) => 0 <= i && i + pat.len() <= s.len() && occurs_at(s, pat, i)
                && forall|j: int| 0 <= j < i ==> !occurs_at(s, pat, j),
            None => forall|j: int| !occurs_at(s, pat, j),
        },
    decreases s.len(),
{
    if starts_with(s, pat) {
        assert(occurs_at(s, pat, 0)) by {
            assert(s.subrange(0, pat.len() as int) == pat);
        }
    } else if s.len() == 0 {
        assert forall|j: int| !occurs_at(s, pat, j) by {
            if occurs_at(s, pat, j) {
                assert(starts_with(s, pat) || pat.len() > 0);
            }
        }
    } else {
        lemma_find_sub_range(s.drop_first(), pat);
        match find_sub(s.drop_first(), pat) {
            Some(i) => {
                assert(occurs_at(s.drop_first(), pat, i));
                assert(occurs_at(s, pat, i + 1)) by {
                    assert(s.subrange(i + 1, i + 1 + pat.len() as int) =~= s.drop_first().subrange(
                        i,
                        i + pat.len() as int,
                    ));
                }
                assert forall|j: int| 0 <= j < i + 1 implies !occurs_at(s, pat, j) by {
                    if j == 0 {
                        if occurs_at(s, pat, 0) {
                            assert(s.subrange(0, pat.len() as int) == pat);
                            assert(starts_with(s, pat));
                        }
                    } else if occurs_at(s, pat, j) {
                        assert(occurs_at(s.drop_first(), pat, j - 1)) by {
                            assert(s.drop_first().subrange(j - 1, j - 1 + pat.len() as int)
                                =~= s.subrange(j, j + pat.len() as int));
                        }
                    }
                }
            },
            None => {
                assert forall|j: int| !occurs_at(s, pat, j) by {
                    if occurs_at(s, pat, j) {
                        if j == 0 {
                            assert(s.subrange(0, pat.len() as int) == pat);
                            assert(starts_with(s, pat));
                        } else {
                            assert(occurs_at(s.drop_first(), pat, j - 1)) by {
                                assert(s.drop_first().subrange(j - 1, j - 1 + pat.len() as int)
                                    =~= s.subrange(j, j + pat.len() as int));
                            }
                        }
                    }
                }
            },
        }
    }
}

/// `s` with every occurrence of `pat` replaced by `rep`, scanning left
/// to right (an empty pattern replaces nothing).
pub open spec fn replace_all_spec(s: Seq<char>, pat: Seq<char>, rep: Seq<char>) -> Seq<char>
    decreases s.len(),
    via replace_all_spec_dec
{
    if pat.len() == 0 {
        s
    } else {
        match find_sub(s, pat) {
            Some(i) => s.subrange(0, i) + rep + replace_all_spec(
                s.subrange(i + pat.len(), s.len() as int),
                pat,
                rep,
            ),
            None => s,
        }
    }
}

#[via_fn]
proof fn replace_all_spec_dec(s: Seq<char>, pat: Seq<char>, rep: Seq<char>) {
    lemma_find_sub_range(s, pat);
}

/// Find the least occurrence of `pat` in `s`.
pub fn str_find(s: &str, pat: &str) -> (r: Option<usize>)
    ensures
        match r {
            Some(i) => find_sub(s@, pat@) == Some(i as int),
            None => find_sub(s@, pat@) is None,
        },
{
    let slen = s.unicode_len();
    let plen = pat.unicode_len();
    if plen > slen {
        proof {
            lemma_find_sub_range(s@, pat@);
            if find_sub(s@, pat@) is Some {
                assert(occurs_at(s@, pat@, find_sub(s@, pat@)->0));
            }
        }
        return None;
    }
    let last = slen - plen;
    let mut at: usize = 0;
    loop
        invariant
            slen == s@.len(),
            plen == pat@.len(),
            plen <= slen,
            last == slen - plen,
            0 <= at <= last + 1,
            forall|i: int| 0 <= i < at ==> !occurs_at(s@, pat@, i),
        decreases last + 1 - at,
    {
        if at > last {
            proof {
                lemma_find_sub_range(s@, pat@);
                if find_sub(s@, pat@) is Some {
                    assert(occurs_at(s@, pat@, find_sub(s@, pat@)->0));
                }
            }
            return None;
        }
        if str_occurs_at(s, pat, at) {
            proof {
                lemma_find_sub_range(s@, pat@);
                if find_sub(s@, pat@) is Some {
                    assert(occurs_at(s@, pat@, find_sub(s@, pat@)->0));
                } else {
                    assert(!occurs_at(s@, pat@, at as int));
                }
                assert(find_sub(s@, pat@) == Some(at as int));
            }
            return Some(at);
        }
        if at == last {
            proof {
                lemma_find_sub_range(s@, pat@);
                if find_sub(s@, pat@) is Some {
                    assert(occurs_at(s@, pat@, find_sub(s@, pat@)->0));
                }
            }
            return None;
        }
        at += 1;
    }
}

/// Replace every occurrence of `pat` in `s` with `rep`.
pub fn replace_all(s: &str, pat: &str, rep: &str) -> (r: String)
    ensures
        r@ == replace_all_spec(s@, pat@, rep@),
    decreases s@.len(),
{
    let plen = pat.unicode_len();
    if plen == 0 {
        return s.to_owned();
    }
    let slen = s.unicode_len();
    match str_find(s, pat) {
        Some(i) => {
            proof {
                lemma_find_sub_range(s@, pat@);
            }
            let mut out = s.substring_char(0, i).to_owned();
            out.append(rep);
            let rest = replace_all(s.substring_char(i + plen, slen), pat, rep);
            out.append(rest.as_str());
            out
        },
        None => s.to_owned(),
    }
}

/// Append one character to a string.  Relies on std's `String::push`:
/// it appends the given character to the end of the string.
#[verifier::external_body]
pub fn push_char(s: &mut String, c: char)
    ensures
        final(s)@ == old(s)@ + seq![c],
{
    s.push(c);
}

/// ASCII lowercasing of one character.
pub open spec fn lower_char(c: char) -> char {
    if 'A' <= c <= 'Z' {
        ((c as int) + 32) as char
    } else {
        c
    }
}

/// Case-insensitive (ASCII) equality of two strings.
pub open spec fn eq_ignore_case(a: Seq<char>, b: Seq<char>) -> bool {
    a.map_values(|c: char| lower_char(c)) == b.map_values(|c: char| lower_char(c))
}

/// Executable ASCII lowercasing of one character.
pub fn lower_char_exec(c: char) -> (r: char)
    ensures
        r == lower_char(c),
{
    if 'A' <= c && c <= 'Z' {
        (((c as u32) + 32) as u8) as char
    } else {
        c
    }
}

/// Case-insensitive (ASCII) string comparison.
pub fn str_eq_ignore_case(a: &str, b: &str) -> (r: bool)
    ensures
        r == eq_ignore_case(a@, b@),
{
    let alen = a.unicode_len();
    let blen = b.unicode_len();
    if alen != blen {
        assert(a@.map_values(|c: char| lower_char(c)).len() != b@.map_values(
            |c: char| lower_char(c),
        ).len());
        return false;
    }
    let mut i: usize = 0;
    while i < alen
        invariant
            alen == a@.len(),
            alen == b@.len(),
            0 <= i <= alen,
            forall|j: int| 0 <= j < i ==> lower_char(a@[j]) == lower_char(b@[j]),
        decreases alen - i,
    {
        if lower_char_exec(a.get_char(i)) != lower_char_exec(b.get_char(i)) {
            assert(a@.map_values(|c: char| lower_char(c))[i as int] != b@.map_values(
                |c: char| lower_char(c),
            )[i as int]);
            return false;
        }
        i += 1;
    }
    assert(a@.map_values(|c: char| lower_char(c)) =~= b@.map_values(|c: char| lower_char(c)));
    true
}

/// `s` without any trailing `c` characters.
pub open spec fn trim_end_spec(s: Seq<char>, c: char) -> Seq<char>
    decreases s.len(),
{
    if s.len() > 0 && s.last() == c {
        trim_end_spec(s.drop_last(), c)
    } else {
        s
    }
}

/// `s` without any leading `c` characters.
pub open spec fn trim_start_spec(s: Seq<char>, c: char) -> Seq<char>
    decreases s.len(),
{
    if s.len() > 0 && s.first() == c {
        trim_start_spec(s.drop_first(), c)
    } else {
        s
    }
}

proof fn lemma_trim_end_cut(s: Seq<char>, c: char, cut: int)
    requires
        0 <= cut <= s.len(),
        forall|j: int| cut <= j < s.len() ==> s[j] == c,
        cut == 0 || s[cut - 1] != c,
    ensures
        trim_end_spec(s, c) == s.subrange(0, cut),
    decreases s.len(),
{
    if s.len() > 0 && s.last() == c {
        assert(cut < s.len());
        lemma_trim_end_cut(s.drop_last(), c, cut);
        assert(s.drop_last().subrange(0, cut) =~= s.subrange(0, cut));
    } else {
        assert(cut == s.len());
        assert(s.subrange(0, cut) =~= s);
    }
}

proof fn lemma_trim_start_cut(s: Seq<char>, c: char, cut: int)
    requires
        0 <= cut <= s.len(),
        forall|j: int| 0 <= j < cut ==> s[j] == c,
        cut == s.len() || s[cut] != c,
    ensures
        trim_start_spec(s, c) == s.subrange(cut, s.len() as int),
    decreases s.len(),
{
    if s.len() > 0 && s.first() == c {
        assert(cut > 0);
        lemma_trim_start_cut(s.drop_first(), c, cut - 1);
        assert(s.drop_first().subrange(cut - 1, s.drop_first().len() as int)
            =~= s.subrange(cut, s.len() as int));
    } else {
        assert(cut == 0);
        assert(s.subrange(0, s.len() as int) =~= s);
    }
}

/// Remove trailing `c` characters.
pub fn trim_end_char<'a>(s: &'a str, c: char) -> (r: &'a str)
    ensures
        r@ == trim_end_spec(s@, c),
{
    let len = s.unicode_len();
    let mut cut: usize = len;
    while cut > 0
        invariant
            len == s@.len(),
            0 <= cut <= len,
            forall|j: int| cut <= j < len ==> s@[j] == c,
        decreases cut,
    {
        if s.get_char(cut - 1) != c {
            proof {
                lemma_trim_end_cut(s@, c, cut as int);
            }
            return s.substring_char(0, cut);
        }
        cut -= 1;
    }
    proof {
        lemma_trim_end_cut(s@, c, 0);
    }
    s.substring_char(0, 0)
}

/// Remove leading `c` characters.
pub fn trim_start_char<'a>(s: &'a str, c: char) -> (r: &'a str)
    ensures
        r@ == trim_start_spec(s@, c),
{
    let len = s.unicode_len();
    let mut cut: usize = 0;
    while cut < len
        invariant
            len == s@.len(),
            0 <= cut <= len,
            forall|j: int| 0 <= j < cut ==> s@[j] == c,
        decreases len - cut,
    {
        if s.get_char(cut) != c {
            proof {
                lemma_trim_start_cut(s@, c, cut as int);
            }
            return s.substring_char(cut, len);
        }
        cut += 1;
    }
    proof {
        lemma_trim_start_cut(s@, c, len as int);
    }
    s.substring_char(len, len)
}

/// ASCII whitespace, as trimmed from tag payloads.
pub open spec fn is_space(c: char) -> bool {
    c == ' ' || c == '\t' || c == '\r' || c == '\n'
}

/// `s` without leading and trailing ASCII whitespace.
pub open spec fn trim_spec(s: Seq<char>) -> Seq<char>
    decreases s.len(),
{
    if s.len() > 0 && is_space(s.first()) {
        trim_spec(s.drop_first())
    } else if s.len() > 0 && is_space(s.last()) {
        trim_spec(s.drop_last())
    } else {
        s
    }
}

proof fn lemma_trim_cut(s: Seq<char>, lo: int, hi: int)
    requires
        0 <= lo <= hi <= s.len(),
        forall|j: int| 0 <= j < lo ==> is_space(s[j]),
        forall|j: int| hi <= j < s.len() ==> is_space(s[j]),
        lo == hi || (!is_space(s[lo]) && !is_space(s[hi - 1])),
    ensures
        trim_spec(s) == s.subrange(lo, hi),
    decreases s.len(),
{
    if s.len() > 0 && is_space(s.first()) {
        assert(lo > 0 || lo == hi);
        if lo == hi {
            if hi == s.len() {
                assert(forall|j: int| 0 <= j < s.len() ==> is_space(s[j]));
                lemma_trim_cut(s.drop_first(), 0, 0);
                assert(s.drop_first().subrange(0, 0) =~= s.subrange(lo, hi));
            } else {
                lemma_trim_cut(s.drop_first(), lo, lo);
                assert(s.drop_first().subrange(lo, lo) =~= s.subrange(lo, hi));
            }
        } else {
            lemma_trim_cut(s.drop_first(), lo - 1, hi - 1);
            assert(s.drop_first().subrange(lo - 1, hi - 1) =~= s.subrange(lo, hi));
        }
    } else if s.len() > 0 && is_space(s.last()) {
        assert(hi < s.len());
        lemma_trim_cut(s.drop_last(), lo, hi);
        assert(s.drop_last().subrange(lo, hi) =~= s.subrange(lo, hi));
    } else {
        assert(lo == 0 && hi == s.len());
        assert(s.subrange(0, s.len() as int) =~= s);
    }
}

/// Executable whitespace test.
pub fn is_space_char(c: char) -> (r: bool)
    ensures
        r == is_space(c),
{
    c == ' ' || c == '\t' || c == '\r' || c == '\n'
}

/// Remove leading and trailing ASCII whitespace.
pub fn trim<'a>(s: &'a str) -> (r: &'a str)
    ensures
        r@ == trim_spec(s@),
{
    let len = s.unicode_len();
    let mut lo: usize = 0;
    while lo < len && is_space_char(s.get_char(lo))
        invariant
            len == s@.len(),
            0 <= lo <= len,
            forall|j: int| 0 <= j < lo ==> is_space(s@[j]),
        decreases len - lo,
    {
        lo += 1;
    }
    let mut hi: usize = len;
    while hi > lo && is_space_char(s.get_char(hi - 1))
        invariant
            len == s@.len(),
            0 <= lo <= hi <= len,
            forall|j: int| 0 <= j < lo ==> is_space(s@[j]),
            lo == len || !is_space(s@[lo as int]),
            forall|j: int| hi <= j < len ==> is_space(s@[j]),
        decreases hi,
    {
        hi -= 1;
    }
    proof {
        lemma_trim_cut(s@, lo as int, hi as int);
    }
    s.substring_char(lo, hi)
}


} // verus!
