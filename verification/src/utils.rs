//! Hashing, tokenizing and text helpers shared by the filter parsers and matchers.
//!
//! All text handled by the library is viewed as a sequence of `char`s.

use vstd::prelude::*;

verus! {

/// Hash of a piece of text (a hostname, a token, a whole rule).
pub type Hash = u64;

/// Starting value of `fast_hash`.
pub const HASH_SEED: u64 = 5381;

/// One step of the multiplicative hash: `h * 33 ^ c`, wrapping on overflow.
pub open spec fn hash_step(h: u64, c: char) -> u64 {
    h.wrapping_mul(33) ^ (c as u64)
}

/// Hash of `s` folded from the left, starting at `seed`.
pub open spec fn hash_chars_from(seed: u64, s: Seq<char>) -> u64
    decreases s.len(),
{
    if s.len() == 0 {
        seed
    } else {
        hash_step(hash_chars_from(seed, s.drop_last()), s.last())
    }
}

/// The hash that `fast_hash` computes.
pub open spec fn spec_fast_hash(s: Seq<char>) -> u64 {
    hash_chars_from(HASH_SEED, s)
}

/// Hashes `s[start..end]`, continuing from `seed`.
pub fn hash_chars_range(seed: u64, s: &[char], start: usize, end: usize) -> (h: u64)
    requires
        start <= end <= s@.len(),
    ensures
        h == hash_chars_from(seed, s@.subrange(start as int, end as int)),
{
    let mut h = seed;
    let mut i = start;
    while i < end
        invariant
            start <= i <= end,
            end <= s@.len(),
            h == hash_chars_from(seed, s@.subrange(start as int, i as int)),
        decreases end - i,
    {
        proof {
            assert(s@.subrange(start as int, i + 1).drop_last() =~= s@.subrange(
                start as int,
                i as int,
            ));
        }
        let c = s[i];
        h = h.wrapping_mul(33) ^ (c as u64);
        i += 1;
    }
    h
}

/// Hash of a whole sequence of characters.
pub fn hash_chars(s: &[char]) -> (h: Hash)
    ensures
        h == spec_fast_hash(s@),
{
    proof {
        assert(s@.subrange(0, s@.len() as int) =~= s@);
    }
    hash_chars_range(HASH_SEED, s, 0, s.len())
}

/// Hash of a string, as used for hostnames, tokens and rule identifiers.
pub fn fast_hash(input: &str) -> (h: Hash)
    ensures
        h == spec_fast_hash(input@),
{
    let v = str_to_chars(input);
    hash_chars(v.as_slice())
}

/// The characters of `s`, in order.
pub fn str_to_chars(s: &str) -> (v: Vec<char>)
    ensures
        v@ == s@,
{
    let mut v: Vec<char> = Vec::new();
    for c in iter: s.chars()
        invariant
            iter.seq() == s@,
            v@ == s@.take(iter.index() as int),
    {
        proof {
            assert(s@.take(iter.index() + 1) =~= s@.take(iter.index() as int).push(c));
        }
        v.push(c);
    }
    proof {
        assert(s@.take(s@.len() as int) =~= s@);
    }
    v
}

/// Appends one character to a `String` (`String::push`).
#[verifier::external_body]
fn string_push(s: &mut String, c: char)
    ensures
        final(s)@ == old(s)@.push(c),
{
    s.push(c);
}

/// A new `String` holding `s[start..end]`.
pub fn chars_to_string(s: &[char], start: usize, end: usize) -> (r: String)
    requires
        start <= end <= s@.len(),
    ensures
        r@ == s@.subrange(start as int, end as int),
{
    let mut r = String::new();
    let mut i = start;
    while i < end
        invariant
            start <= i <= end,
            end <= s@.len(),
            r@ == s@.subrange(start as int, i as int),
        decreases end - i,
    {
        proof {
            assert(s@.subrange(start as int, i + 1) =~= s@.subrange(start as int, i as int).push(
                s@[i as int],
            ));
        }
        string_push(&mut r, s[i]);
        i += 1;
    }
    r
}

/// A new `String` holding all of `s`.
pub fn chars_to_string_all(s: &[char]) -> (r: String)
    ensures
        r@ == s@,
{
    proof {
        assert(s@.subrange(0, s@.len() as int) =~= s@);
    }
    chars_to_string(s, 0, s.len())
}

/// Whether `v` holds exactly the characters of `lit`.
pub fn eq_lit(v: &[char], lit: &str) -> (r: bool)
    ensures
        r == (v@ == lit@),
{
    let l = str_to_chars(lit);
    chars_eq(v, l.as_slice())
}

/// Whether two strings are equal.
pub fn str_eq(a: &str, b: &str) -> (r: bool)
    ensures
        r == (a@ == b@),
{
    let x = str_to_chars(a);
    let y = str_to_chars(b);
    chars_eq(x.as_slice(), y.as_slice())
}

/// `s.to_ascii_lowercase()` on a string.
pub fn str_ascii_lowercase(s: &str) -> (r: String)
    ensures
        r@ == spec_ascii_lowercase(s@),
{
    let v = str_to_chars(s);
    let l = ascii_lowercase(v.as_slice());
    chars_to_string_all(l.as_slice())
}

/// Whether `a` and `b` hold the same characters.
pub fn chars_eq(a: &[char], b: &[char]) -> (r: bool)
    ensures
        r == (a@ == b@),
{
    if a.len() != b.len() {
        return false;
    }
    let mut i: usize = 0;
    while i < a.len()
        invariant
            a@.len() == b@.len(),
            i <= a@.len(),
            forall|j: int| 0 <= j < i ==> a@[j] == b@[j],
        decreases a.len() - i,
    {
        if a[i] != b[i] {
            return false;
        }
        i += 1;
    }
    proof {
        assert(a@ =~= b@);
    }
    true
}

/// `p` occurs in `s` starting at index `i`.
pub open spec fn occurs_at(s: Seq<char>, p: Seq<char>, i: int) -> bool {
    0 <= i && i + p.len() <= s.len() && s.subrange(i, i + p.len()) == p
}

/// `s` starts with `p`.
pub open spec fn seq_starts_with(s: Seq<char>, p: Seq<char>) -> bool {
    occurs_at(s, p, 0)
}

/// `s` ends with `p`.
pub open spec fn seq_ends_with(s: Seq<char>, p: Seq<char>) -> bool {
    p.len() <= s.len() && occurs_at(s, p, s.len() - p.len())
}

/// `p` occurs somewhere in `s`.
pub open spec fn seq_contains_sub(s: Seq<char>, p: Seq<char>) -> bool {
    exists|i: int| occurs_at(s, p, i)
}

/// Index of the first occurrence of `p` in `s`, if any.
#[verifier::opaque]
pub open spec fn spec_find_sub(s: Seq<char>, p: Seq<char>) -> Option<int> {
    if seq_contains_sub(s, p) {
        Some(choose|i: int| occurs_at(s, p, i) && forall|j: int| 0 <= j < i ==> !occurs_at(s, p, j))
    } else {
        None
    }
}

/// The first occurrence found by `spec_find_sub` is an occurrence, and there is one exactly
/// when `p` occurs somewhere in `s`.
pub proof fn lemma_find_sub(s: Seq<char>, p: Seq<char>)
    ensures
        spec_find_sub(s, p) matches Some(i) ==> occurs_at(s, p, i) && forall|j: int|
            0 <= j < i ==> !occurs_at(s, p, j),
        spec_find_sub(s, p) is None <==> !seq_contains_sub(s, p),
{
    reveal(spec_find_sub);
    if seq_contains_sub(s, p) {
        let k = choose|k: int| occurs_at(s, p, k);
        lemma_min_occurrence(s, p, k);
    }
}

proof fn lemma_min_occurrence(s: Seq<char>, p: Seq<char>, k: int)
    requires
        occurs_at(s, p, k),
    ensures
        exists|i: int| occurs_at(s, p, i) && forall|j: int| 0 <= j < i ==> !occurs_at(s, p, j),
    decreases k,
{
    if exists|j: int| 0 <= j < k && occurs_at(s, p, j) {
        let j = choose|j: int| 0 <= j < k && occurs_at(s, p, j);
        lemma_min_occurrence(s, p, j);
    } else {
        assert(occurs_at(s, p, k) && forall|j: int| 0 <= j < k ==> !occurs_at(s, p, j));
    }
}

/// Whether `p` occurs in `s` at `start` (`s[start..].starts_with(p)`).
pub fn occurs_at_exec(s: &[char], p: &[char], start: usize) -> (r: bool)
    ensures
        r == occurs_at(s@, p@, start as int),
{
    if p.len() > s.len() || start > s.len() - p.len() {
        return false;
    }
    let mut i: usize = 0;
    while i < p.len()
        invariant
            start + p@.len() <= s@.len(),
            start + p.len() <= s.len(),
            i <= p@.len(),
            forall|j: int| 0 <= j < i ==> s@[start + j] == p@[j],
        decreases p.len() - i,
    {
        if s[start + i] != p[i] {
            proof {
                assert(s@.subrange(start as int, start + p@.len())[i as int] != p@[i as int]);
            }
            return false;
        }
        i += 1;
    }
    proof {
        assert(s@.subrange(start as int, start + p@.len()) =~= p@);
    }
    true
}

/// `s.starts_with(p)`.
pub fn starts_with(s: &[char], p: &[char]) -> (r: bool)
    ensures
        r == seq_starts_with(s@, p@),
{
    occurs_at_exec(s, p, 0)
}

/// `s.ends_with(p)`.
pub fn ends_with(s: &[char], p: &[char]) -> (r: bool)
    ensures
        r == seq_ends_with(s@, p@),
{
    if p.len() > s.len() {
        return false;
    }
    occurs_at_exec(s, p, s.len() - p.len())
}

/// Index of the first occurrence of `p` in `s` at or after `from`.
pub fn find_sub_from(s: &[char], p: &[char], from: usize) -> (r: Option<usize>)
    ensures
        match r {
            Some(i) => from <= i && occurs_at(s@, p@, i as int) && forall|j: int|
                from <= j < i ==> !occurs_at(s@, p@, j),
            None => forall|j: int| from <= j ==> !occurs_at(s@, p@, j),
        },
{
    if p.len() > s.len() {
        return None;
    }
    let last = s.len() - p.len();
    let mut i = from;
    while i <= last
        invariant
            last + p@.len() == s@.len(),
            from <= i,
            forall|j: int| from <= j < i ==> !occurs_at(s@, p@, j),
        decreases last + 1 - i,
    {
        if occurs_at_exec(s, p, i) {
            return Some(i);
        }
        if i == last {
            return None;
        }
        i += 1;
    }
    None
}

/// Index of the first occurrence of `p` in `s` (`memmem::find`).
pub fn find_sub(s: &[char], p: &[char]) -> (r: Option<usize>)
    ensures
        r matches Some(i) ==> Some(i as int) == spec_find_sub(s@, p@) && occurs_at(
            s@,
            p@,
            i as int,
        ),
        r is None ==> spec_find_sub(s@, p@) is None,
{
    let r = find_sub_from(s, p, 0);
    proof {
        reveal(spec_find_sub);
        match r {
            Some(i) => {
                assert(seq_contains_sub(s@, p@));
                let k = choose|k: int|
                    occurs_at(s@, p@, k) && forall|j: int| 0 <= j < k ==> !occurs_at(s@, p@, j);
                assert(k == i) by {
                    if k < i {
                        assert(!occurs_at(s@, p@, k));
                    }
                    if i < k {
                        assert(!occurs_at(s@, p@, i as int));
                    }
                }
            },
            None => {
                assert(!seq_contains_sub(s@, p@));
            },
        }
    }
    r
}

/// Whether `p` occurs anywhere in `s`.
pub fn contains_sub(s: &[char], p: &[char]) -> (r: bool)
    ensures
        r == seq_contains_sub(s@, p@),
{
    let r = find_sub_from(s, p, 0);
    r.is_some()
}

/// Index of the first `c` in `s` at or after `from`.
pub fn find_char_from(s: &[char], c: char, from: usize) -> (r: Option<usize>)
    ensures
        match r {
            Some(i) => from <= i < s@.len() && s@[i as int] == c && forall|j: int|
                from <= j < i ==> s@[j] != c,
            None => forall|j: int| from <= j < s@.len() ==> s@[j] != c,
        },
{
    let mut i = from;
    while i < s.len()
        invariant
            from <= i,
            forall|j: int| from <= j < i && j < s@.len() ==> s@[j] != c,
        decreases s.len() - i,
    {
        if s[i] == c {
            return Some(i);
        }
        i += 1;
    }
    None
}

/// Index of the last `c` in `s[..end]`.
pub fn rfind_char_before(s: &[char], c: char, end: usize) -> (r: Option<usize>)
    requires
        end <= s@.len(),
    ensures
        match r {
            Some(i) => i < end && s@[i as int] == c && forall|j: int| i < j < end ==> s@[j] != c,
            None => forall|j: int| 0 <= j < end ==> s@[j] != c,
        },
{
    let mut i = end;
    while i > 0
        invariant
            i <= end <= s@.len(),
            forall|j: int| i <= j < end ==> s@[j] != c,
        decreases i,
    {
        if s[i - 1] == c {
            return Some(i - 1);
        }
        i -= 1;
    }
    None
}

/// Whether `c` occurs in `s`.
pub fn contains_char(s: &[char], c: char) -> (r: bool)
    ensures
        r == s@.contains(c),
{
    let r = find_char_from(s, c, 0);
    proof {
        if let Some(i) = r {
            assert(s@[i as int] == c);
        }
    }
    r.is_some()
}

/// ASCII lowercase of one character.
pub open spec fn spec_ascii_lower(c: char) -> char {
    if 'A' <= c <= 'Z' {
        ((c as u32) + 32) as char
    } else {
        c
    }
}

/// ASCII lowercase of one character (`char::to_ascii_lowercase`).
pub fn ascii_lower(c: char) -> (r: char)
    ensures
        r == spec_ascii_lower(c),
{
    if 'A' <= c && c <= 'Z' {
        ((c as u8) + 32) as char
    } else {
        c
    }
}

/// ASCII lowercase of every character of `s`.
pub open spec fn spec_ascii_lowercase(s: Seq<char>) -> Seq<char> {
    s.map_values(|c: char| spec_ascii_lower(c))
}

/// `s.to_ascii_lowercase()`.
pub fn ascii_lowercase(s: &[char]) -> (r: Vec<char>)
    ensures
        r@ == spec_ascii_lowercase(s@),
{
    let mut r: Vec<char> = Vec::new();
    let mut i: usize = 0;
    while i < s.len()
        invariant
            i <= s@.len(),
            r@ =~= spec_ascii_lowercase(s@.take(i as int)),
        decreases s.len() - i,
    {
        let c = ascii_lower(s[i]);
        r.push(c);
        i += 1;
        proof {
            assert(spec_ascii_lowercase(s@.take(i as int)) =~= spec_ascii_lowercase(
                s@.take(i - 1),
            ).push(c));
        }
    }
    proof {
        assert(s@.take(s@.len() as int) =~= s@);
    }
    r
}

/// Whether every character of `s` is ASCII.
pub open spec fn spec_is_ascii(s: Seq<char>) -> bool {
    forall|i: int| 0 <= i < s.len() ==> (s[i] as u32) < 128
}

/// `s.is_ascii()`.
pub fn chars_is_ascii(s: &[char]) -> (r: bool)
    ensures
        r == spec_is_ascii(s@),
{
    let mut i: usize = 0;
    while i < s.len()
        invariant
            i <= s@.len(),
            forall|j: int| 0 <= j < i ==> (s@[j] as u32) < 128,
        decreases s.len() - i,
    {
        if (s[i] as u32) >= 128 {
            return false;
        }
        i += 1;
    }
    true
}


/// Characters that can be part of a token: ASCII letters and digits, `%`, and any non-ASCII
/// character.
pub open spec fn is_token_char(c: char) -> bool {
    ||| 'a' <= c <= 'z'
    ||| 'A' <= c <= 'Z'
    ||| '0' <= c <= '9'
    ||| c == '%'
    ||| (c as u32) >= 128
}

/// `is_token_char`, executable.
pub fn token_char(c: char) -> (r: bool)
    ensures
        r == is_token_char(c),
{
    ('a' <= c && c <= 'z') || ('A' <= c && c <= 'Z') || ('0' <= c && c <= '9') || c == '%' || (c
        as u32) >= 128
}

/// State of the tokenizer after reading a prefix of the input.
pub ghost struct TokState {
    pub tokens: Seq<u64>,
    pub inside: bool,
    pub start: int,
    pub preceding: Option<char>,
}

/// Tokenizer state after the first `n` characters of `p`.
///
/// A token is a maximal run of token characters. A finished token is kept when it is longer than
/// one character, is neither preceded nor followed by `*`, and (with `skip_first`) does not start
/// the input.
pub open spec fn tok_state(p: Seq<char>, n: int, skip_first: bool) -> TokState
    decreases n,
{
    if n <= 0 {
        TokState { tokens: Seq::empty(), inside: false, start: 0, preceding: None }
    } else {
        let st = tok_state(p, n - 1, skip_first);
        let i = n - 1;
        let c = p[i];
        if is_token_char(c) {
            if !st.inside {
                TokState { tokens: st.tokens, inside: true, start: i, preceding: st.preceding }
            } else {
                st
            }
        } else if st.inside {
            let keep = (st.start != 0 || !skip_first) && i - st.start > 1 && c != '*'
                && st.preceding != Some('*');
            TokState {
                tokens: if keep {
                    st.tokens.push(spec_fast_hash(p.subrange(st.start, i)))
                } else {
                    st.tokens
                },
                inside: false,
                start: st.start,
                preceding: Some(c),
            }
        } else {
            TokState { tokens: st.tokens, inside: st.inside, start: st.start, preceding: Some(c) }
        }
    }
}

/// Token hashes of a filter pattern; `skip_first` drops a token that starts the pattern and
/// `skip_last` drops a token that ends it.
pub open spec fn spec_tokenize_filter(p: Seq<char>, skip_first: bool, skip_last: bool) -> Seq<u64> {
    let st = tok_state(p, p.len() as int, skip_first);
    if !skip_last && st.inside && p.len() - st.start > 1 && st.preceding != Some('*') {
        st.tokens.push(spec_fast_hash(p.subrange(st.start, p.len() as int)))
    } else {
        st.tokens
    }
}

/// Token hashes of a URL or hostname.
pub open spec fn spec_tokenize(p: Seq<char>) -> Seq<u64> {
    spec_tokenize_filter(p, false, false)
}

proof fn lemma_tok_state_start(p: Seq<char>, n: int, skip_first: bool)
    requires
        0 <= n <= p.len(),
    ensures
        0 <= tok_state(p, n, skip_first).start <= n,
        tok_state(p, n, skip_first).inside ==> tok_state(p, n, skip_first).start < n,
    decreases n,
{
    if n > 0 {
        lemma_tok_state_start(p, n - 1, skip_first);
    }
}

/// Token hashes of `p` (see `spec_tokenize_filter`).
pub fn tokenize_filter_chars(p: &[char], skip_first: bool, skip_last: bool) -> (r: Vec<u64>)
    ensures
        r@ == spec_tokenize_filter(p@, skip_first, skip_last),
{
    let mut tokens: Vec<u64> = Vec::new();
    let mut inside = false;
    let mut start: usize = 0;
    let mut preceding: Option<char> = None;
    let mut i: usize = 0;
    while i < p.len()
        invariant
            i <= p@.len(),
            tokens@ == tok_state(p@, i as int, skip_first).tokens,
            inside == tok_state(p@, i as int, skip_first).inside,
            start == tok_state(p@, i as int, skip_first).start,
            preceding == tok_state(p@, i as int, skip_first).preceding,
        decreases p.len() - i,
    {
        proof {
            lemma_tok_state_start(p@, i as int, skip_first);
        }
        let c = p[i];
        if token_char(c) {
            if !inside {
                inside = true;
                start = i;
            }
        } else if inside {
            inside = false;
            if (start != 0 || !skip_first) && i - start > 1 && c != '*' && preceding != Some('*') {
                let h = hash_chars_range(HASH_SEED, p, start, i);
                tokens.push(h);
            }
            preceding = Some(c);
        } else {
            preceding = Some(c);
        }
        i += 1;
    }
    proof {
        lemma_tok_state_start(p@, p@.len() as int, skip_first);
    }
    if !skip_last && inside && p.len() - start > 1 && preceding != Some('*') {
        let h = hash_chars_range(HASH_SEED, p, start, p.len());
        tokens.push(h);
    }
    tokens
}

/// Token hashes of a URL or hostname.
pub fn tokenize(pattern: &str) -> (r: Vec<Hash>)
    ensures
        r@ == spec_tokenize(pattern@),
{
    let v = str_to_chars(pattern);
    tokenize_filter_chars(v.as_slice(), false, false)
}

/// Token hashes of a filter pattern.
pub fn tokenize_filter(pattern: &str, skip_first_token: bool, skip_last_token: bool) -> (r: Vec<
    Hash,
>)
    ensures
        r@ == spec_tokenize_filter(pattern@, skip_first_token, skip_last_token),
{
    let v = str_to_chars(pattern);
    tokenize_filter_chars(v.as_slice(), skip_first_token, skip_last_token)
}

/// `s` is in non-decreasing order.
pub open spec fn is_sorted(s: Seq<u64>) -> bool {
    forall|i: int, j: int| 0 <= i < j < s.len() ==> s[i] <= s[j]
}

/// Binary search of `elt` in the sorted `arr`.
pub fn bin_lookup(arr: &[Hash], elt: Hash) -> (r: bool)
    requires
        is_sorted(arr@),
    ensures
        r == arr@.contains(elt),
{
    let mut lo: usize = 0;
    let mut hi: usize = arr.len();
    while lo < hi
        invariant
            lo <= hi <= arr@.len(),
            is_sorted(arr@),
            forall|k: int| 0 <= k < lo ==> arr@[k] < elt,
            forall|k: int| hi <= k < arr@.len() ==> arr@[k] > elt,
        decreases hi - lo,
    {
        let mid = lo + (hi - lo) / 2;
        if arr[mid] == elt {
            return true;
        } else if arr[mid] < elt {
            lo = mid + 1;
        } else {
            hi = mid;
        }
    }
    proof {
        if arr@.contains(elt) {
            let k = choose|k: int| 0 <= k < arr@.len() && arr@[k] == elt;
            assert(arr@[k] == elt);
        }
    }
    false
}

/// Sorts `v` in place.
pub fn sort_hashes(v: &mut Vec<Hash>)
    ensures
        is_sorted(final(v)@),
        final(v)@.to_multiset() == old(v)@.to_multiset(),
{
    let mut out: Vec<Hash> = Vec::new();
    let mut i: usize = 0;
    proof {
        assert(out@ =~= v@.take(0));
    }
    while i < v.len()
        invariant
            i <= v@.len(),
            v@ == old(v)@,
            is_sorted(out@),
            out@.to_multiset() == v@.take(i as int).to_multiset(),
        decreases v.len() - i,
    {
        let x = v[i];
        let mut pos: usize = 0;
        while pos < out.len() && out[pos] <= x
            invariant
                pos <= out@.len(),
                forall|k: int| 0 <= k < pos ==> out@[k] <= x,
            decreases out.len() - pos,
        {
            pos += 1;
        }
        proof {
            broadcast use vstd::seq_lib::to_multiset_insert, vstd::seq_lib::to_multiset_build;

            assert(v@.take(i + 1) =~= v@.take(i as int).push(x));
        }
        let ghost old_out = out@;
        out.insert(pos, x);
        proof {
            assert forall|a: int, b: int| 0 <= a < b < out@.len() implies out@[a] <= out@[b] by {
                if b < pos {
                } else if b == pos {
                } else if a < pos {
                    assert(old_out[a] <= x);
                    assert(pos < old_out.len() ==> old_out[pos as int] > x);
                    assert(old_out[pos as int] <= old_out[b - 1]);
                } else if a == pos {
                    assert(old_out[pos as int] > x);
                    assert(old_out[pos as int] <= old_out[b - 1]);
                } else {
                }
            }
        }
        i += 1;
    }
    proof {
        assert(v@.take(v@.len() as int) =~= v@);
    }
    *v = out;
}

/// Index of the first `c` in `s`, if any.
pub open spec fn spec_index_of(s: Seq<char>, c: char) -> Option<int> {
    if s.contains(c) {
        Some(choose|i: int| 0 <= i < s.len() && s[i] == c && forall|j: int| 0 <= j < i ==> s[j] != c)
    } else {
        None
    }
}

/// The first `c` found by `spec_index_of` is a `c` within `s`, with no `c` before it.
pub proof fn lemma_index_of(s: Seq<char>, c: char)
    ensures
        spec_index_of(s, c) matches Some(k) ==> 0 <= k < s.len() && s[k] == c && forall|j: int|
            0 <= j < k ==> s[j] != c,
        spec_index_of(s, c) is None ==> !s.contains(c),
{
    if s.contains(c) {
        let k = choose|k: int| 0 <= k < s.len() && s[k] == c;
        lemma_first_char(s, c, k);
    }
}

proof fn lemma_first_char(s: Seq<char>, c: char, k: int)
    requires
        0 <= k < s.len(),
        s[k] == c,
    ensures
        exists|i: int| 0 <= i < s.len() && s[i] == c && forall|j: int| 0 <= j < i ==> s[j] != c,
    decreases k,
{
    if exists|j: int| 0 <= j < k && s[j] == c {
        let j = choose|j: int| 0 <= j < k && s[j] == c;
        lemma_first_char(s, c, j);
    } else {
        assert(0 <= k < s.len() && s[k] == c && forall|j: int| 0 <= j < k ==> s[j] != c);
    }
}

/// Index of the first `c` in `s` (`memchr`).
pub fn index_of(s: &[char], c: char) -> (r: Option<usize>)
    ensures
        match r {
            Some(i) => spec_index_of(s@, c) == Some(i as int) && i < s@.len() && s@[i as int] == c,
            None => spec_index_of(s@, c) is None,
        },
{
    let r = find_char_from(s, c, 0);
    proof {
        match r {
            Some(i) => {
                assert(s@.contains(c)) by {
                    assert(s@[i as int] == c);
                }
                let k = choose|k: int|
                    0 <= k < s@.len() && s@[k] == c && forall|j: int| 0 <= j < k ==> s@[j] != c;
                assert(k == i) by {
                    if k < i {
                        assert(s@[k] != c);
                    }
                    if i < k {
                        assert(s@[i as int] != c);
                    }
                }
            },
            None => {
                assert(!s@.contains(c));
            },
        }
    }
    r
}

/// Split state after the first `n` characters: finished pieces and start of the current piece.
pub open spec fn split_state(s: Seq<char>, c: char, n: int) -> (Seq<Seq<char>>, int)
    decreases n,
{
    if n <= 0 {
        (Seq::empty(), 0)
    } else {
        let (done, st) = split_state(s, c, n - 1);
        if s[n - 1] == c {
            (done.push(s.subrange(st, n - 1)), n)
        } else {
            (done, st)
        }
    }
}

/// `s.split(c)`: the pieces between occurrences of `c` (always at least one piece).
pub open spec fn spec_split(s: Seq<char>, c: char) -> Seq<Seq<char>> {
    let (done, st) = split_state(s, c, s.len() as int);
    done.push(s.subrange(st, s.len() as int))
}

proof fn lemma_split_state_start(s: Seq<char>, c: char, n: int)
    requires
        0 <= n <= s.len(),
    ensures
        0 <= split_state(s, c, n).1 <= n,
    decreases n,
{
    if n > 0 {
        lemma_split_state_start(s, c, n - 1);
    }
}

/// `s.split(c)`, each piece as its characters.
pub fn split_chars(s: &[char], c: char) -> (r: Vec<Vec<char>>)
    ensures
        r.deep_view() == spec_split(s@, c),
{
    let mut done: Vec<Vec<char>> = Vec::new();
    let mut cur: Vec<char> = Vec::new();
    let mut st: usize = 0;
    let mut i: usize = 0;
    while i < s.len()
        invariant
            i <= s@.len(),
            done.deep_view() == split_state(s@, c, i as int).0,
            st == split_state(s@, c, i as int).1,
            st <= i,
            cur@ == s@.subrange(st as int, i as int),
        decreases s.len() - i,
    {
        proof {
            lemma_split_state_start(s@, c, i as int);
        }
        if s[i] == c {
            let piece = cur;
            let ghost before = done.deep_view();
            proof {
                assert(piece.deep_view() =~= piece@);
            }
            done.push(piece);
            proof {
                assert(done.deep_view() =~= before.push(piece@));
            }
            cur = Vec::new();
            st = i + 1;
            proof {
                assert(cur@ =~= s@.subrange(st as int, i + 1));
            }
        } else {
            cur.push(s[i]);
            proof {
                assert(cur@ =~= s@.subrange(st as int, i + 1));
            }
        }
        i += 1;
    }
    let ghost before = done.deep_view();
    proof {
        assert(cur.deep_view() =~= cur@);
    }
    done.push(cur);
    proof {
        assert(done.deep_view() =~= before.push(s@.subrange(st as int, s@.len() as int)));
    }
    done
}

/// Number of leading characters equal to `c`, counted from `i`.
pub open spec fn trim_count(s: Seq<char>, c: char, i: int) -> int
    decreases s.len() - i,
{
    if 0 <= i < s.len() && s[i] == c {
        trim_count(s, c, i + 1)
    } else {
        i
    }
}

/// `s.trim_start_matches(c)`.
pub open spec fn spec_trim_start_char(s: Seq<char>, c: char) -> Seq<char> {
    s.subrange(trim_count(s, c, 0), s.len() as int)
}

/// `s.trim_start_matches(c)`.
pub fn trim_start_char(s: &[char], c: char) -> (r: Vec<char>)
    ensures
        r@ == spec_trim_start_char(s@, c),
{
    let mut i: usize = 0;
    while i < s.len() && s[i] == c
        invariant
            i <= s@.len(),
            trim_count(s@, c, 0) == trim_count(s@, c, i as int),
        decreases s.len() - i,
    {
        i += 1;
    }
    let mut r: Vec<char> = Vec::new();
    let mut j = i;
    while j < s.len()
        invariant
            i <= j <= s@.len(),
            r@ == s@.subrange(i as int, j as int),
        decreases s.len() - j,
    {
        r.push(s[j]);
        j += 1;
        proof {
            assert(r@ =~= s@.subrange(i as int, j as int));
        }
    }
    r
}

/// Index after stripping repeated copies of the non-empty prefix `p` from `s[i..]`.
pub open spec fn trim_prefix_count(s: Seq<char>, p: Seq<char>, i: int) -> int
    decreases s.len() - i,
{
    if p.len() > 0 && 0 <= i && occurs_at(s, p, i) {
        trim_prefix_count(s, p, i + p.len())
    } else {
        i
    }
}

/// `s.trim_start_matches(p)` for a string pattern `p`.
pub open spec fn spec_trim_start_seq(s: Seq<char>, p: Seq<char>) -> Seq<char> {
    s.subrange(trim_prefix_count(s, p, 0), s.len() as int)
}

proof fn lemma_trim_prefix_count_bound(s: Seq<char>, p: Seq<char>, i: int)
    requires
        0 <= i <= s.len(),
    ensures
        i <= trim_prefix_count(s, p, i) <= s.len(),
    decreases s.len() - i,
{
    if p.len() > 0 && occurs_at(s, p, i) {
        lemma_trim_prefix_count_bound(s, p, i + p.len());
    }
}

/// Copy of `s[start..end]`.
pub fn sub_chars(s: &[char], start: usize, end: usize) -> (r: Vec<char>)
    requires
        start <= end <= s@.len(),
    ensures
        r@ == s@.subrange(start as int, end as int),
{
    let mut r: Vec<char> = Vec::new();
    let mut j = start;
    while j < end
        invariant
            start <= j <= end <= s@.len(),
            r@ == s@.subrange(start as int, j as int),
        decreases end - j,
    {
        r.push(s[j]);
        j += 1;
        proof {
            assert(r@ =~= s@.subrange(start as int, j as int));
        }
    }
    r
}

/// `s.trim_start_matches(p)` for a string pattern `p`.
pub fn trim_start_seq(s: &[char], p: &[char]) -> (r: Vec<char>)
    ensures
        r@ == spec_trim_start_seq(s@, p@),
{
    let mut i: usize = 0;
    proof {
        lemma_trim_prefix_count_bound(s@, p@, 0);
    }
    while p.len() > 0 && occurs_at_exec(s, p, i)
        invariant
            i <= s@.len(),
            trim_prefix_count(s@, p@, 0) == trim_prefix_count(s@, p@, i as int),
        decreases s.len() - i,
    {
        i = i + p.len();
    }
    sub_chars(s, i, s.len())
}

/// The ASCII (punycode) form that `idna::domain_to_ascii` gives for a domain name, or `None`
/// when it rejects the name.
pub uninterp spec fn idna_to_ascii(domain: Seq<char>) -> Option<Seq<char>>;

/// Calls `idna::domain_to_ascii`. The contract only ties the result to the input through the
/// name `idna_to_ascii`; the UTS #46 mapping itself is not stated.
#[verifier::external_body]
pub(crate) fn domain_to_ascii(domain: &str) -> (r: Option<String>)
    ensures
        match r {
            Some(s) => idna_to_ascii(domain@) == Some(s@),
            None => idna_to_ascii(domain@) is None,
        },
{
    match idna::domain_to_ascii(domain) {
        Ok(s) => Some(s),
        Err(_) => None,
    }
}

/// `domain_to_ascii` on characters.
pub fn domain_to_ascii_chars(domain: &[char]) -> (r: Option<Vec<char>>)
    ensures
        match r {
            Some(s) => idna_to_ascii(domain@) == Some(s@),
            None => idna_to_ascii(domain@) is None,
        },
{
    let d = chars_to_string_all(domain);
    match domain_to_ascii(d.as_str()) {
        Some(s) => Some(str_to_chars(s.as_str())),
        None => None,
    }
}

/// Unicode white space (the `White_Space` property, as `char::is_whitespace` uses it).
pub open spec fn is_ws(c: char) -> bool {
    let u = c as u32;
    (9 <= u && u <= 13) || u == 32 || u == 0x85 || u == 0xA0 || u == 0x1680 || (0x2000 <= u && u
        <= 0x200A) || u == 0x2028 || u == 0x2029 || u == 0x202F || u == 0x205F || u == 0x3000
}

/// Whether `c` is white space (`char::is_whitespace`).
pub fn is_whitespace(c: char) -> (r: bool)
    ensures
        r == is_ws(c),
{
    let u = c as u32;
    (9 <= u && u <= 13) || u == 32 || u == 0x85 || u == 0xA0 || u == 0x1680 || (0x2000 <= u && u
        <= 0x200A) || u == 0x2028 || u == 0x2029 || u == 0x202F || u == 0x205F || u == 0x3000
}

/// Number of leading white-space characters of `s` from `i` on, plus `i`.
pub open spec fn ws_lead(s: Seq<char>, i: int) -> int
    decreases s.len() - i,
{
    if 0 <= i < s.len() && is_ws(s[i]) {
        ws_lead(s, i + 1)
    } else {
        i
    }
}

/// End of `s[..j]` without trailing white space, not going below `lo`.
pub open spec fn ws_trail(s: Seq<char>, lo: int, j: int) -> int
    decreases j - lo,
{
    if lo < j && j <= s.len() && is_ws(s[j - 1]) {
        ws_trail(s, lo, j - 1)
    } else {
        j
    }
}

/// `s` without leading and trailing white space (`str::trim`).
pub open spec fn spec_trim(s: Seq<char>) -> Seq<char> {
    let a = ws_lead(s, 0);
    s.subrange(a, ws_trail(s, a, s.len() as int))
}

/// Bounds (start, end) of `s` trimmed of white space.
pub fn trim_bounds(s: &[char]) -> (r: (usize, usize))
    ensures
        r.0 == ws_lead(s@, 0),
        r.1 == ws_trail(s@, r.0 as int, s@.len() as int),
        r.0 <= r.1 <= s@.len(),
{
    let mut a: usize = 0;
    while a < s.len() && is_whitespace(s[a])
        invariant
            a <= s@.len(),
            ws_lead(s@, 0) == ws_lead(s@, a as int),
        decreases s.len() - a,
    {
        a += 1;
    }
    let mut b: usize = s.len();
    while a < b && is_whitespace(s[b - 1])
        invariant
            a <= b <= s@.len(),
            ws_trail(s@, a as int, s@.len() as int) == ws_trail(s@, a as int, b as int),
        decreases b - a,
    {
        b -= 1;
    }
    (a, b)
}

/// `s` trimmed of white space.
pub fn trim_chars(s: &[char]) -> (r: Vec<char>)
    ensures
        r@ == spec_trim(s@),
{
    let (a, b) = trim_bounds(s);
    sub_chars(s, a, b)
}

} // verus!
