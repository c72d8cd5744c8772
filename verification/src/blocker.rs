//! Holds network filters and decides whether a request is blocked, excepted or redirected.
//!
//! Filters are filed in token buckets: each group of tokens of a filter puts the filter under
//! the least frequent token of the group, and a request looks up the buckets of its own tokens.

use std::collections::HashMap;

use vstd::prelude::*;

use crate::filters::network::{
    has_flag, spec_compute_filter_id, spec_get_tokens, spec_join, FilterPartView, NetworkFilter,
    NetworkFilterError, NetworkFilterView, BAD_FILTER, GENERIC_HIDE, IS_CSP, IS_EXCEPTION,
    IS_IMPORTANT, IS_REDIRECT,
};
use crate::filters::network_matchers::{check_options, check_pattern, spec_matches};
use crate::optimizer::{optimize, spec_optimize};
use crate::match_debug_stats::{record_checked, record_match, record_reject, MatchDebugStats, MatchStage};
use crate::redirect_resources::{RedirectResource, RedirectResourceStorage};
use crate::request::Request;
use crate::utils::{fast_hash, spec_fast_hash};

verus! {

broadcast use vstd::std_specs::hash::group_hash_axioms;

/// Errors of the blocker.
#[derive(Clone, Copy, Debug, PartialEq, Eq, Structural)]
pub enum BlockerError {
    SerializationError,
    DeserializationError,
    OptimizedFilterExistence,
    BadFilterAddUnsupported,
    FilterExists,
    BlockerFilterError(NetworkFilterError),
}

// ---------------------------------------------------------------------------------------------
// Token counting
// ---------------------------------------------------------------------------------------------

/// The tokens of all groups, in order.
pub open spec fn flatten(g: Seq<Seq<u64>>) -> Seq<u64>
    decreases g.len(),
{
    if g.len() == 0 {
        Seq::empty()
    } else {
        flatten(g.drop_last()) + g.last()
    }
}

/// The tokens of all groups of all entries, in order.
pub open spec fn all_tokens<T>(ft: Seq<(T, Vec<Vec<u64>>)>) -> Seq<u64>
    decreases ft.len(),
{
    if ft.len() == 0 {
        Seq::empty()
    } else {
        all_tokens(ft.drop_last()) + flatten(ft.last().1.deep_view())
    }
}

/// Number of occurrences of `t` in `s`.
pub open spec fn count_of(s: Seq<u64>, t: u64) -> nat
    decreases s.len(),
{
    if s.len() == 0 {
        0
    } else {
        count_of(s.drop_last(), t) + if s.last() == t {
            1nat
        } else {
            0nat
        }
    }
}

/// Tokens too common to be useful: `http`, `https`, `www` and `com`.
pub open spec fn is_bad_token(t: u64) -> bool {
    t == spec_fast_hash("http"@) || t == spec_fast_hash("https"@) || t == spec_fast_hash("www"@)
        || t == spec_fast_hash("com"@)
}

/// The histogram of `all`: each token with its number of occurrences, except that the common
/// tokens count as often as there are tokens in all.
pub open spec fn spec_histogram(all: Seq<u64>) -> Map<u64, u64> {
    Map::new(
        |t: u64| all.contains(t) || is_bad_token(t),
        |t: u64|
            if is_bad_token(t) {
                all.len() as u64
            } else {
                count_of(all, t) as u64
            },
    )
}

proof fn lemma_count_of_le(s: Seq<u64>, t: u64)
    ensures
        count_of(s, t) <= s.len(),
        count_of(s, t) > 0 <==> s.contains(t),
    decreases s.len(),
{
    if s.len() > 0 {
        lemma_count_of_le(s.drop_last(), t);
        if s.drop_last().contains(t) {
            let i = choose|i: int| 0 <= i < s.drop_last().len() && s.drop_last()[i] == t;
            assert(s[i] == t);
        }
        if s.contains(t) && s.last() != t {
            let i = choose|i: int| 0 <= i < s.len() && s[i] == t;
            assert(s.drop_last()[i] == t);
        }
    }
}

proof fn lemma_flatten_push(g: Seq<Seq<u64>>, x: Seq<u64>)
    ensures
        flatten(g.push(x)) == flatten(g) + x,
{
    assert(g.push(x).drop_last() =~= g);
}

/// Appends the tokens of all groups of `groups` to `out`.
fn append_groups(out: &mut Vec<u64>, groups: &Vec<Vec<u64>>)
    ensures
        final(out)@ == old(out)@ + flatten(groups.deep_view()),
{
    let ghost start = out@;
    let mut i: usize = 0;
    while i < groups.len()
        invariant
            i <= groups@.len(),
            out@ == start + flatten(groups.deep_view().subrange(0, i as int)),
        decreases groups.len() - i,
    {
        let g = &groups[i];
        let ghost before = out@;
        let mut j: usize = 0;
        while j < g.len()
            invariant
                j <= g@.len(),
                out@ == before + g@.subrange(0, j as int),
            decreases g.len() - j,
        {
            out.push(g[j]);
            j += 1;
            proof {
                assert(out@ =~= before + g@.subrange(0, j as int));
            }
        }
        proof {
            assert(g@.subrange(0, g@.len() as int) =~= g@);
            assert(groups.deep_view()[i as int] == g@);
            assert(groups.deep_view().subrange(0, i + 1) =~= groups.deep_view().subrange(
                0,
                i as int,
            ).push(g@));
            lemma_flatten_push(groups.deep_view().subrange(0, i as int), g@);
        }
        i += 1;
    }
    proof {
        assert(groups.deep_view().subrange(0, groups@.len() as int) =~= groups.deep_view());
    }
}

/// The tokens of all entries, flattened.
fn flatten_entries<T>(filter_tokens: &[(T, Vec<Vec<u64>>)]) -> (r: Vec<u64>)
    ensures
        r@ == all_tokens(filter_tokens@),
{
    let mut out: Vec<u64> = Vec::new();
    let mut i: usize = 0;
    while i < filter_tokens.len()
        invariant
            i <= filter_tokens@.len(),
            out@ == all_tokens(filter_tokens@.subrange(0, i as int)),
        decreases filter_tokens.len() - i,
    {
        append_groups(&mut out, &filter_tokens[i].1);
        i += 1;
        proof {
            assert(filter_tokens@.subrange(0, i as int).drop_last() =~= filter_tokens@.subrange(
                0,
                i - 1,
            ));
        }
    }
    proof {
        assert(filter_tokens@.subrange(0, filter_tokens@.len() as int) =~= filter_tokens@);
    }
    out
}

/// Counts the tokens of all entries: returns their number and a histogram in which the common
/// tokens (`http`, `https`, `www`, `com`) count as often as there are tokens.
pub fn token_histogram<T>(filter_tokens: &[(T, Vec<Vec<u64>>)]) -> (r: (u64, HashMap<u64, u64>))
    ensures
        r.0 == all_tokens(filter_tokens@).len(),
        r.1@ == spec_histogram(all_tokens(filter_tokens@)),
{
    let all = flatten_entries(filter_tokens);
    let n = all.len();
    let mut hist: HashMap<u64, u64> = HashMap::new();
    let mut i: usize = 0;
    while i < all.len()
        invariant
            i <= all@.len(),
            n == all@.len(),
            forall|t: u64| #[trigger]
                hist@.contains_key(t) <==> all@.subrange(0, i as int).contains(t),
            forall|t: u64| #[trigger]
                hist@.contains_key(t) ==> hist@[t] == count_of(all@.subrange(0, i as int), t),
        decreases all.len() - i,
    {
        let t = all[i];
        let ghost pre = all@.subrange(0, i as int);
        proof {
            assert(all@.subrange(0, i + 1) =~= pre.push(t));
            assert(pre.push(t).drop_last() =~= pre);
            lemma_count_of_le(pre, t);
        }
        let c: u64 = match hist.get(&t) {
            Some(c) => *c,
            None => 0,
        };
        hist.insert(t, c + 1);
        i += 1;
        proof {
            let now = all@.subrange(0, i as int);
            assert forall|u: u64| #[trigger] hist@.contains_key(u) <==> now.contains(u) by {
                if u != t {
                    if now.contains(u) {
                        let k = choose|k: int| 0 <= k < now.len() && now[k] == u;
                        assert(pre[k] == u);
                    }
                    if pre.contains(u) {
                        let k = choose|k: int| 0 <= k < pre.len() && pre[k] == u;
                        assert(now[k] == u);
                    }
                } else {
                    assert(now[now.len() - 1] == t);
                }
            }
            assert forall|u: u64| #[trigger] hist@.contains_key(u) implies hist@[u] == count_of(
                now,
                u,
            ) by {
                assert(now.drop_last() =~= pre);
                if u != t {
                } else {
                    if !pre.contains(t) {
                        lemma_count_of_le(pre, t);
                    }
                }
            }
        }
    }
    proof {
        assert(all@.subrange(0, all@.len() as int) =~= all@);
    }
    let total = all.len() as u64;
    let bad = [fast_hash("http"), fast_hash("https"), fast_hash("www"), fast_hash("com")];
    let mut k: usize = 0;
    while k < 4
        invariant
            k <= 4,
            total == all@.len(),
            bad@ == seq![
                spec_fast_hash("http"@),
                spec_fast_hash("https"@),
                spec_fast_hash("www"@),
                spec_fast_hash("com"@),
            ],
            forall|t: u64| #[trigger]
                hist@.contains_key(t) <==> (all@.contains(t) || bad@.subrange(0, k as int).contains(t)),
            forall|t: u64| #[trigger]
                hist@.contains_key(t) ==> hist@[t] == if bad@.subrange(0, k as int).contains(t) {
                    total as nat
                } else {
                    count_of(all@, t)
                },
        decreases 4 - k,
    {
        let ghost pre = bad@.subrange(0, k as int);
        hist.insert(bad[k], total);
        k += 1;
        proof {
            let now = bad@.subrange(0, k as int);
            assert(now =~= pre.push(bad@[k - 1]));
            assert forall|t: u64| #[trigger] hist@.contains_key(t) <==> (all@.contains(t)
                || now.contains(t)) by {
                if now.contains(t) && t != bad@[k - 1] {
                    let j = choose|j: int| 0 <= j < now.len() && now[j] == t;
                    assert(pre[j] == t);
                }
                if pre.contains(t) {
                    let j = choose|j: int| 0 <= j < pre.len() && pre[j] == t;
                    assert(now[j] == t);
                }
                if t == bad@[k - 1] {
                    assert(now[k - 1] == t);
                }
            }
            assert forall|t: u64| #[trigger] hist@.contains_key(t) implies hist@[t] == if now.contains(t) {
                total as nat
            } else {
                count_of(all@, t)
            } by {
                if now.contains(t) && t != bad@[k - 1] {
                    let j = choose|j: int| 0 <= j < now.len() && now[j] == t;
                    assert(pre[j] == t);
                }
                if pre.contains(t) {
                    let j = choose|j: int| 0 <= j < pre.len() && pre[j] == t;
                    assert(now[j] == t);
                }
                if t == bad@[k - 1] {
                    assert(now[k - 1] == t);
                }
            }
        }
    }
    proof {
        let b = bad@.subrange(0, 4);
        assert(b =~= bad@);
        assert forall|t: u64| b.contains(t) <==> is_bad_token(t) by {
            if is_bad_token(t) {
                if t == spec_fast_hash("http"@) {
                    assert(b[0] == t);
                } else if t == spec_fast_hash("https"@) {
                    assert(b[1] == t);
                } else if t == spec_fast_hash("www"@) {
                    assert(b[2] == t);
                } else {
                    assert(b[3] == t);
                }
            }
        }
        assert forall|t: u64| !is_bad_token(t) && all@.contains(t) implies count_of(all@, t)
            <= u64::MAX by {
            lemma_count_of_le(all@, t);
        }
        assert(hist@ =~= spec_histogram(all@));
    }
    (total, hist)
}

// ---------------------------------------------------------------------------------------------
// Filter lists
// ---------------------------------------------------------------------------------------------

/// Views of the filters of a bucket.
pub open spec fn bucket_view(v: Vec<NetworkFilter>) -> Seq<NetworkFilterView> {
    v@.map_values(|f: NetworkFilter| f@)
}

/// Network filters filed by token.
#[derive(Debug)]
pub struct NetworkFilterList {
    pub filter_map: HashMap<u64, Vec<NetworkFilter>>,
}

impl View for NetworkFilterList {
    type V = Map<u64, Seq<NetworkFilterView>>;

    open spec fn view(&self) -> Map<u64, Seq<NetworkFilterView>> {
        self.filter_map@.map_values(|v: Vec<NetworkFilter>| bucket_view(v))
    }
}

/// Appends `v` to the bucket of `k`, creating the bucket if needed.
pub fn insert_dup<V>(map: &mut HashMap<u64, Vec<V>>, k: u64, v: V)
    ensures
        final(map)@.dom() == old(map)@.dom().insert(k),
        final(map)@[k]@ == (if old(map)@.contains_key(k) {
            old(map)@[k]@
        } else {
            Seq::empty()
        }).push(v),
        forall|j: u64| j != k && old(map)@.contains_key(j) ==> #[trigger] final(map)@[j] == old(
            map,
        )@[j],
        total_len(final(map)@) == total_len(old(map)@) + 1,
{
    broadcast use vstd::std_specs::hash::axiom_hashmap_view_finite_dom;

    let ghost m0 = map@;
    let mut bucket = match map.remove(&k) {
        Some(b) => b,
        None => Vec::new(),
    };
    bucket.push(v);
    let ghost b = bucket;
    map.insert(k, bucket);
    proof {
        assert(final(map)@.dom() =~= old(map)@.dom().insert(k));
        assert(map@ =~= m0.insert(k, b));
        lemma_total_len_insert(m0, k, b);
    }
}

/// Replacing the bucket of `k` changes the sum of the lengths by the difference of the two.
proof fn lemma_total_len_insert<V>(m: Map<u64, Vec<V>>, k: u64, v: Vec<V>)
    requires
        m.dom().finite(),
    ensures
        total_len(m.insert(k, v)) + (if m.dom().contains(k) {
            m[k]@.len()
        } else {
            0
        }) == total_len(m) + v@.len(),
{
    let n = m.insert(k, v);
    lemma_total_len_remove(n, k);
    assert(n.remove(k) =~= m.remove(k));
    if m.dom().contains(k) {
        lemma_total_len_remove(m, k);
    } else {
        assert(m.remove(k) =~= m);
    }
}

/// The sum of the lengths of the buckets of `m`.
pub open spec fn total_len<V>(m: Map<u64, Vec<V>>) -> nat
    decreases m.dom().len(),
    when m.dom().finite()
{
    if m.dom().len() > 0 {
        let k = m.dom().choose();
        m[k]@.len() + total_len(m.remove(k))
    } else {
        0
    }
}

/// Any bucket can be taken out first of the sum.
pub proof fn lemma_total_len_remove<V>(m: Map<u64, Vec<V>>, k: u64)
    requires
        m.dom().finite(),
        m.dom().contains(k),
    ensures
        total_len(m) == m[k]@.len() + total_len(m.remove(k)),
    decreases m.dom().len(),
{
    let c = m.dom().choose();
    if c != k {
        lemma_total_len_remove(m.remove(c), k);
        lemma_total_len_remove(m.remove(k), c);
        assert(m.remove(c).remove(k) =~= m.remove(k).remove(c));
    }
}

/// The number of values over all buckets of `map`.
pub fn vec_hashmap_len<V>(map: &HashMap<u64, Vec<V>>) -> (r: usize)
    requires
        total_len(map@) <= usize::MAX,
    ensures
        r == total_len(map@),
{
    let mut size: usize = 0;
    let ghost mut rest = map@;
    for k in it: map.keys()
        invariant
            rest.dom().finite(),
            it.seq().unref().no_duplicates(),
            it.seq().unref().to_set() == map@.dom(),
            rest == map@.remove_keys(it.seq().unref().take(it.index() as int).to_set()),
            size + total_len(rest) == total_len(map@),
            total_len(map@) <= usize::MAX,
            it.seq().len() == map@.dom().len(),
            rest.dom().len() + it.index() == map@.dom().len(),
    {
        proof {
            let ks = it.seq().unref();
            let i = it.index() as int;
            assert(ks[i] == *k);
            assert(ks.to_set().contains(ks[i]));
            assert(!ks.take(i).contains(ks[i]));
            assert(rest.dom().contains(*k));
            lemma_total_len_remove(rest, *k);
            assert(ks.take(i + 1).to_set() =~= ks.take(i).to_set().insert(*k)) by {
                assert(ks.take(i + 1) =~= ks.take(i).push(*k));
                ks.take(i).lemma_push_to_set_commute(*k);
            }
            assert(rest.remove(*k) =~= map@.remove_keys(ks.take(i + 1).to_set()));
            rest = rest.remove(*k);
        }
        let b = map.get(k).unwrap();
        size = size + b.len();
    }
    assert(rest.dom().len() == 0);
    size
}

/// The bucket of `t` in `m`, empty when there is none.
pub open spec fn bucket_of(m: Map<u64, Seq<NetworkFilterView>>, t: u64) -> Seq<NetworkFilterView> {
    if m.contains_key(t) {
        m[t]
    } else {
        Seq::empty()
    }
}

/// `m` with `f` appended to the bucket of `t`.
pub open spec fn push_filter(m: Map<u64, Seq<NetworkFilterView>>, t: u64, f: NetworkFilterView) -> Map<
    u64,
    Seq<NetworkFilterView>,
> {
    m.insert(t, bucket_of(m, t).push(f))
}

/// Best token and its count after the first `n` tokens of a group: a token absent from
/// `counts` wins at once (count 0); otherwise the first token with the smallest count.
pub open spec fn pick_state(group: Seq<u64>, counts: Map<u64, int>, n: int) -> (u64, Option<int>)
    decreases n,
{
    if n <= 0 {
        (0, None)
    } else {
        let prev = pick_state(group, counts, n - 1);
        let t = group[n - 1];
        if !counts.contains_key(t) {
            (t, Some(0))
        } else if prev.1 is None || counts[t] < prev.1->0 {
            (t, Some(counts[t]))
        } else {
            prev
        }
    }
}

/// The token of a group under which a filter is filed (0 for an empty group).
pub open spec fn best_token(group: Seq<u64>, counts: Map<u64, int>) -> u64 {
    pick_state(group, counts, group.len() as int).0
}

/// Histogram counts as integers.
pub open spec fn hist_counts(h: Map<u64, u64>) -> Map<u64, int> {
    h.map_values(|c: u64| c as int)
}

/// Bucket sizes of a filter map.
pub open spec fn bucket_counts(m: Map<u64, Seq<NetworkFilterView>>) -> Map<u64, int> {
    m.map_values(|b: Seq<NetworkFilterView>| b.len() as int)
}

/// Files `f` under the best token of each of the first `n` groups, with fixed counts.
pub open spec fn file_groups_fixed(
    m: Map<u64, Seq<NetworkFilterView>>,
    f: NetworkFilterView,
    groups: Seq<Seq<u64>>,
    counts: Map<u64, int>,
    n: int,
) -> Map<u64, Seq<NetworkFilterView>>
    decreases n,
{
    if n <= 0 {
        m
    } else {
        let prev = file_groups_fixed(m, f, groups, counts, n - 1);
        push_filter(prev, best_token(groups[n - 1], counts), f)
    }
}

/// Files the first `n` filters, each under the best tokens of its groups for `counts`.
pub open spec fn build_map(fs: Seq<NetworkFilterView>, counts: Map<u64, int>, n: int) -> Map<
    u64,
    Seq<NetworkFilterView>,
>
    decreases n,
{
    if n <= 0 {
        Map::empty()
    } else {
        let f = fs[n - 1];
        let g = spec_get_tokens(f);
        file_groups_fixed(build_map(fs, counts, n - 1), f, g, counts, g.len() as int)
    }
}

/// All tokens of all groups of a list of filters, in order.
pub open spec fn filter_token_entries(fs: Seq<NetworkFilterView>) -> Seq<u64>
    decreases fs.len(),
{
    if fs.len() == 0 {
        Seq::empty()
    } else {
        filter_token_entries(fs.drop_last()) + flatten(spec_get_tokens(fs.last()))
    }
}

/// The filter map built from a list of filters: the histogram of all their tokens decides,
/// for each group of each filter, the token it is filed under.
pub open spec fn spec_list_new(fs: Seq<NetworkFilterView>) -> Map<u64, Seq<NetworkFilterView>> {
    build_map(fs, hist_counts(spec_histogram(filter_token_entries(fs))), fs.len() as int)
}

/// The filters of `b` that have exactly one token group (`one`), or those that have not, in
/// order.
pub open spec fn by_group_count(b: Seq<NetworkFilterView>, one: bool) -> Seq<NetworkFilterView>
    decreases b.len(),
{
    if b.len() == 0 {
        Seq::empty()
    } else {
        let p = by_group_count(b.drop_last(), one);
        if (spec_get_tokens(b.last()).len() == 1) == one {
            p.push(b.last())
        } else {
            p
        }
    }
}

/// A bucket after merging: its filters with exactly one token group (filed under this token
/// alone) are merged (`spec_optimize`) when there are at least two of them, and come first;
/// the filters filed under several tokens follow unchanged, in order.
pub open spec fn optimize_bucket(b: Seq<NetworkFilterView>) -> Seq<NetworkFilterView> {
    let single = by_group_count(b, true);
    (if single.len() > 1 {
        spec_optimize(single)
    } else {
        single
    }) + by_group_count(b, false)
}

/// The filter map built from a list of filters: `spec_list_new`, each bucket merged
/// (`optimize_bucket`) when `opt` is on.
pub open spec fn spec_list_build(fs: Seq<NetworkFilterView>, opt: bool) -> Map<u64, Seq<NetworkFilterView>> {
    if opt {
        spec_list_new(fs).map_values(|b: Seq<NetworkFilterView>| optimize_bucket(b))
    } else {
        spec_list_new(fs)
    }
}

/// Files `f` under the best token of each of the first `n` groups, counting the current bucket
/// sizes before each group.
pub open spec fn file_groups_dynamic(
    m: Map<u64, Seq<NetworkFilterView>>,
    f: NetworkFilterView,
    groups: Seq<Seq<u64>>,
    n: int,
) -> Map<u64, Seq<NetworkFilterView>>
    decreases n,
{
    if n <= 0 {
        m
    } else {
        let prev = file_groups_dynamic(m, f, groups, n - 1);
        push_filter(prev, best_token(groups[n - 1], bucket_counts(prev)), f)
    }
}

/// Filing `f` under the groups' tokens only appends to buckets: each bucket keeps what it
/// held, in the same order, followed only by copies of `f`.
pub proof fn law_filed_buckets_extend(
    m: Map<u64, Seq<NetworkFilterView>>,
    f: NetworkFilterView,
    groups: Seq<Seq<u64>>,
    n: int,
    t: u64,
)
    ensures
        bucket_of(m, t).len() <= bucket_of(file_groups_dynamic(m, f, groups, n), t).len(),
        bucket_of(file_groups_dynamic(m, f, groups, n), t).subrange(0, bucket_of(m, t).len() as int)
            == bucket_of(m, t),
        forall|i: int|
            bucket_of(m, t).len() <= i < bucket_of(file_groups_dynamic(m, f, groups, n), t).len()
                ==> #[trigger] bucket_of(file_groups_dynamic(m, f, groups, n), t)[i] == f,
    decreases n,
{
    if n > 0 {
        law_filed_buckets_extend(m, f, groups, n - 1, t);
        let prev = file_groups_dynamic(m, f, groups, n - 1);
        let cur = file_groups_dynamic(m, f, groups, n);
        let bt = best_token(groups[n - 1], bucket_counts(prev));
        assert(cur == push_filter(prev, bt, f));
        if bt == t {
            assert(bucket_of(cur, t) == bucket_of(prev, t).push(f));
            assert(bucket_of(cur, t).subrange(0, bucket_of(m, t).len() as int) =~= bucket_of(
                prev,
                t,
            ).subrange(0, bucket_of(m, t).len() as int));
        } else {
            assert(bucket_of(cur, t) == bucket_of(prev, t));
        }
    } else {
        assert(bucket_of(m, t).subrange(0, bucket_of(m, t).len() as int) =~= bucket_of(m, t));
    }
}

/// The tokens under which the existence of a filter is looked up: all its tokens, or `0` when
/// it has none.
pub open spec fn lookup_tokens(f: NetworkFilterView) -> Seq<u64> {
    let fl = flatten(spec_get_tokens(f));
    if fl.len() == 0 {
        seq![0]
    } else {
        fl
    }
}

/// The bucket of `t` holds a filter with identifier `id`.
pub open spec fn bucket_has_id(m: Map<u64, Seq<NetworkFilterView>>, t: u64, id: u64) -> bool {
    m.contains_key(t) && exists|j: int| 0 <= j < m[t].len() && (#[trigger] m[t][j]).id == id
}

/// Some bucket of one of the lookup tokens of `f` holds a filter with the identifier of `f`.
pub open spec fn spec_filter_exists(m: Map<u64, Seq<NetworkFilterView>>, f: NetworkFilterView) -> bool {
    exists|i: int|
        0 <= i < lookup_tokens(f).len() && bucket_has_id(m, #[trigger] lookup_tokens(f)[i], f.id)
}

/// The first filter of a bucket that matches the request.
pub open spec fn first_in_bucket(b: Seq<NetworkFilterView>, req: Request) -> Option<NetworkFilterView>
    decreases b.len(),
{
    if b.len() == 0 {
        None
    } else if spec_matches(b[0], req) {
        Some(b[0])
    } else {
        first_in_bucket(b.drop_first(), req)
    }
}

/// The first matching filter in the buckets of the tokens, in token order.
pub open spec fn first_match(m: Map<u64, Seq<NetworkFilterView>>, toks: Seq<u64>, req: Request) -> Option<
    NetworkFilterView,
>
    decreases toks.len(),
{
    if toks.len() == 0 {
        None
    } else {
        let here = if m.contains_key(toks[0]) {
            first_in_bucket(m[toks[0]], req)
        } else {
            None
        };
        if here is Some {
            here
        } else {
            first_match(m, toks.drop_first(), req)
        }
    }
}

/// The first filter of a bucket that has option bit `flag` and matches the request.
pub open spec fn first_flagged_in_bucket(b: Seq<NetworkFilterView>, req: Request, flag: u32) -> Option<
    NetworkFilterView,
>
    decreases b.len(),
{
    if b.len() == 0 {
        None
    } else if has_flag(b[0].mask, flag) && spec_matches(b[0], req) {
        Some(b[0])
    } else {
        first_flagged_in_bucket(b.drop_first(), req, flag)
    }
}

/// The first filter with option bit `flag` that matches, in the buckets of the tokens, in
/// token order.
pub open spec fn first_flagged_match(
    m: Map<u64, Seq<NetworkFilterView>>,
    toks: Seq<u64>,
    req: Request,
    flag: u32,
) -> Option<NetworkFilterView>
    decreases toks.len(),
{
    if toks.len() == 0 {
        None
    } else {
        let here = if m.contains_key(toks[0]) {
            first_flagged_in_bucket(m[toks[0]], req, flag)
        } else {
            None
        };
        if here is Some {
            here
        } else {
            first_flagged_match(m, toks.drop_first(), req, flag)
        }
    }
}

/// The filters of a bucket that match the request, in order.
pub open spec fn bucket_matches(b: Seq<NetworkFilterView>, req: Request) -> Seq<NetworkFilterView>
    decreases b.len(),
{
    if b.len() == 0 {
        Seq::empty()
    } else {
        bucket_matches(b.drop_last(), req) + (if spec_matches(b.last(), req) {
            seq![b.last()]
        } else {
            Seq::empty()
        })
    }
}

/// All matching filters in the buckets of the tokens, in token order and then bucket order.
pub open spec fn all_matches(m: Map<u64, Seq<NetworkFilterView>>, toks: Seq<u64>, req: Request) -> Seq<
    NetworkFilterView,
>
    decreases toks.len(),
{
    if toks.len() == 0 {
        Seq::empty()
    } else {
        all_matches(m, toks.drop_last(), req) + (if m.contains_key(toks.last()) {
            bucket_matches(m[toks.last()], req)
        } else {
            Seq::empty()
        })
    }
}

/// What is reported of a matching filter: its option bits, its modifier option and its rule.
pub ghost struct CheckResultView {
    pub filter_mask: u32,
    pub modifier_option: Option<Seq<char>>,
    pub raw_line: Option<Seq<char>>,
}

/// What is reported of a filter.
pub open spec fn check_view_of(f: NetworkFilterView) -> CheckResultView {
    CheckResultView {
        filter_mask: f.mask,
        modifier_option: f.modifier_option,
        raw_line: f.raw_line,
    }
}

/// The tokens a request is looked up under: source hostname hashes, then URL tokens.
pub open spec fn match_tokens(req: Request) -> Seq<u64> {
    (match req.source_hostname_hashes {
        Some(h) => h@,
        None => Seq::empty(),
    }) + req.request_tokens@
}

/// Best token of a group for the given counts.
fn pick_best(group: &Vec<u64>, counts: &HashMap<u64, u64>) -> (r: u64)
    ensures
        r == best_token(group@, hist_counts(counts@)),
{
    let mut best: u64 = 0;
    let mut min: Option<u64> = None;
    let mut i: usize = 0;
    while i < group.len()
        invariant
            i <= group@.len(),
            pick_state(group@, hist_counts(counts@), i as int) == (best, match min {
                Some(c) => Some(c as int),
                None => None::<int>,
            }),
        decreases group.len() - i,
    {
        let t = group[i];
        match counts.get(&t) {
            None => {
                best = t;
                min = Some(0);
            },
            Some(c) => {
                let c = *c;
                let smaller = match min {
                    None => true,
                    Some(m) => c < m,
                };
                if smaller {
                    best = t;
                    min = Some(c);
                }
            },
        }
        i += 1;
    }
    best
}

/// Best token of a group, counting bucket sizes of `map`.
fn pick_best_in_map(group: &Vec<u64>, map: &HashMap<u64, Vec<NetworkFilter>>) -> (r: u64)
    ensures
        r == best_token(
            group@,
            bucket_counts(map@.map_values(|v: Vec<NetworkFilter>| bucket_view(v))),
        ),
{
    let ghost counts = bucket_counts(map@.map_values(|v: Vec<NetworkFilter>| bucket_view(v)));
    let mut best: u64 = 0;
    let mut min: Option<usize> = None;
    let mut i: usize = 0;
    while i < group.len()
        invariant
            i <= group@.len(),
            counts == bucket_counts(map@.map_values(|v: Vec<NetworkFilter>| bucket_view(v))),
            pick_state(group@, counts, i as int) == (best, match min {
                Some(c) => Some(c as int),
                None => None::<int>,
            }),
        decreases group.len() - i,
    {
        let t = group[i];
        match map.get(&t) {
            None => {
                best = t;
                min = Some(0);
            },
            Some(b) => {
                let c = b.len();
                proof {
                    assert(counts.contains_key(t));
                    assert(counts[t] == bucket_view(*b).len());
                }
                let smaller = match min {
                    None => true,
                    Some(m) => c < m,
                };
                if smaller {
                    best = t;
                    min = Some(c);
                }
            },
        }
        i += 1;
    }
    best
}

impl NetworkFilterList {
    /// An empty list.
    pub fn empty() -> (r: Self)
        ensures
            r@ == Map::<u64, Seq<NetworkFilterView>>::empty(),
    {
        let r = NetworkFilterList { filter_map: HashMap::new() };
        proof {
            assert(r@ =~= Map::<u64, Seq<NetworkFilterView>>::empty());
        }
        r
    }

    /// The map from tokens to filters.
    pub fn get_filter_map(&self) -> (r: &HashMap<u64, Vec<NetworkFilter>>)
        ensures
            r@ == self.filter_map@,
    {
        &self.filter_map
    }

    fn push_to(&mut self, t: u64, f: NetworkFilter)
        ensures
            final(self)@ == push_filter(old(self)@, t, f@),
            total_len(final(self).filter_map@) == total_len(old(self).filter_map@) + 1,
    {
        let ghost fv = f@;
        insert_dup(&mut self.filter_map, t, f);
        proof {
            let a = self@;
            let b = push_filter(old(self)@, t, fv);
            assert(a.dom() =~= b.dom());
            assert forall|k: u64| a.dom().contains(k) implies a[k] == b[k] by {
                if k == t {
                    assert(a[k] =~= b[k]);
                } else {
                    assert(self.filter_map@[k] == old(self).filter_map@[k]);
                }
            }
            assert(a =~= b);
        }
    }
}

/// Views of a list of filters.
pub open spec fn filters_view(v: Seq<NetworkFilter>) -> Seq<NetworkFilterView> {
    v.map_values(|f: NetworkFilter| f@)
}

/// The binary digits of `n`, without leading zeros.
pub open spec fn spec_binary(n: nat) -> Seq<char>
    decreases n,
{
    if n < 2 {
        seq![if n == 0 { '0' } else { '1' }]
    } else {
        spec_binary(n / 2) + seq![if n % 2 == 0 { '0' } else { '1' }]
    }
}

fn push_binary(out: &mut Vec<char>, n: u32)
    ensures
        final(out)@ == old(out)@ + spec_binary(n as nat),
    decreases n,
{
    if n >= 2 {
        push_binary(out, n / 2);
    }
    out.push(if n % 2 == 0 { '0' } else { '1' });
    proof {
        assert(out@ =~= old(out)@ + spec_binary(n as nat));
    }
}

fn mask_binary(bits: u32) -> (r: String)
    ensures
        r@ == spec_binary(bits as nat),
{
    let mut out: Vec<char> = Vec::new();
    push_binary(&mut out, bits);
    proof {
        assert(out@ =~= spec_binary(bits as nat));
    }
    crate::utils::chars_to_string_all(out.as_slice())
}

/// A matching filter as reported by `check_all`: its option bits, its modifier option and its
/// rule (when it was kept).
#[derive(Debug)]
pub struct CheckResult {
    pub filter_mask: crate::filters::network::NetworkFilterMask,
    pub modifier_option: Option<String>,
    pub raw_line: Option<String>,
}

impl View for CheckResult {
    type V = CheckResultView;

    open spec fn view(&self) -> CheckResultView {
        CheckResultView {
            filter_mask: self.filter_mask.bits,
            modifier_option: self.modifier_option.deep_view(),
            raw_line: self.raw_line.deep_view(),
        }
    }
}

/// What is reported of each of `v`.
pub open spec fn check_results_view(v: Seq<CheckResult>) -> Seq<CheckResultView> {
    v.map_values(|c: CheckResult| c@)
}

impl CheckResult {
    /// What is reported of `filter`.
    pub fn from_filter(filter: &NetworkFilter) -> (r: Self)
        ensures
            r@ == check_view_of(filter@),
    {
        CheckResult {
            filter_mask: filter.mask,
            modifier_option: crate::filters::network::clone_opt_string(&filter.modifier_option),
            raw_line: crate::filters::network::clone_opt_string(&filter.raw_line),
        }
    }

    /// The rule of the filter, or its option bits in binary when the rule was not kept.
    pub fn to_string(&self) -> (r: String)
        ensures
            r@ == (match self.raw_line {
                Some(raw) => raw@,
                None => spec_binary(self.filter_mask.bits as nat),
            }),
    {
        match &self.raw_line {
            Some(r) => r.clone(),
            None => mask_binary(self.filter_mask.bits),
        }
    }
}

/// A bucket after merging (see `optimize_bucket`).
fn optimize_filters_bucket(b: Vec<NetworkFilter>) -> (r: Vec<NetworkFilter>)
    ensures
        filters_view(r@) == optimize_bucket(filters_view(b@)),
{
    let ghost bv = filters_view(b@);
    let mut single: Vec<NetworkFilter> = Vec::new();
    let mut shared: Vec<NetworkFilter> = Vec::new();
    let mut i: usize = 0;
    while i < b.len()
        invariant
            i <= b@.len(),
            bv == filters_view(b@),
            filters_view(single@) == by_group_count(bv.subrange(0, i as int), true),
            filters_view(shared@) == by_group_count(bv.subrange(0, i as int), false),
        decreases b.len() - i,
    {
        let groups = b[i].get_tokens();
        let f = b[i].clone();
        proof {
            assert(bv.subrange(0, i + 1).drop_last() =~= bv.subrange(0, i as int));
            assert(bv.subrange(0, i + 1).last() == f@);
        }
        if groups.len() == 1 {
            let ghost before = single@;
            single.push(f);
            proof {
                assert(filters_view(single@) =~= filters_view(before).push(f@));
            }
        } else {
            let ghost before = shared@;
            shared.push(f);
            proof {
                assert(filters_view(shared@) =~= filters_view(before).push(f@));
            }
        }
        i += 1;
    }
    proof {
        assert(bv.subrange(0, b@.len() as int) =~= bv);
    }
    let mut merged = if single.len() > 1 {
        optimize(single)
    } else {
        single
    };
    let ghost mv = filters_view(merged@);
    let ghost sv = filters_view(shared@);
    merged.append(&mut shared);
    proof {
        assert(filters_view(merged@) =~= mv + sv);
    }
    merged
}

proof fn lemma_first_match_empty(toks: Seq<u64>, req: Request)
    ensures
        first_match(Map::<u64, Seq<NetworkFilterView>>::empty(), toks, req) is None,
    decreases toks.len(),
{
    if toks.len() > 0 {
        lemma_first_match_empty(toks.drop_first(), req);
    }
}

impl NetworkFilterList {
    /// Files each filter under the least frequent token of each of its token groups, the
    /// frequencies being counted over all the filters. With `enable_optimizations`, each bucket
    /// is then merged (see `optimize_bucket`).
    pub fn new(filters: Vec<NetworkFilter>, enable_optimizations: bool) -> (r: NetworkFilterList)
        ensures
            r@ == spec_list_build(filters_view(filters@), enable_optimizations),
    {
        let ghost views = filters_view(filters@);
        let n = filters.len();
        let mut entries: Vec<(usize, Vec<Vec<u64>>)> = Vec::new();
        let mut i: usize = 0;
        while i < n
            invariant
                n == filters@.len(),
                views == filters_view(filters@),
                i <= n,
                entries@.len() == i,
                all_tokens(entries@) == filter_token_entries(views.subrange(0, i as int)),
                forall|k: int| 0 <= k < i ==> #[trigger] entries@[k].1.deep_view() == spec_get_tokens(views[k]),
            decreases n - i,
        {
            let g = filters[i].get_tokens();
            let ghost before = entries@;
            entries.push((i, g));
            i += 1;
            proof {
                assert(entries@.drop_last() =~= before);
                assert(views.subrange(0, i as int).drop_last() =~= views.subrange(0, i - 1));
                assert(views.subrange(0, i as int).last() == views[i - 1]);
            }
        }
        proof {
            assert(views.subrange(0, n as int) =~= views);
        }
        let (_total, hist) = token_histogram(entries.as_slice());
        let ghost counts = hist_counts(hist@);
        let mut list = NetworkFilterList::empty();
        let mut keys: Vec<u64> = Vec::new();
        let mut i: usize = 0;
        while i < n
            invariant
                n == filters@.len(),
                n == entries@.len(),
                views == filters_view(filters@),
                counts == hist_counts(hist@),
                i <= n,
                forall|k: int| 0 <= k < n ==> #[trigger] entries@[k].1.deep_view() == spec_get_tokens(views[k]),
                list@ == build_map(views, counts, i as int),
                forall|k: u64| #[trigger] keys@.contains(k) <==> list@.contains_key(k),
            decreases n - i,
        {
            let groups = &entries[i].1;
            let ghost g = spec_get_tokens(views[i as int]);
            let ghost base = list@;
            let mut j: usize = 0;
            while j < groups.len()
                invariant
                    i < n,
                    n == filters@.len(),
                    views == filters_view(filters@),
                    counts == hist_counts(hist@),
                    g == groups.deep_view(),
                    j <= groups@.len(),
                    list@ == file_groups_fixed(base, views[i as int], g, counts, j as int),
                    forall|k: u64| #[trigger] keys@.contains(k) <==> list@.contains_key(k),
                decreases groups.len() - j,
            {
                let t = pick_best(&groups[j], &hist);
                proof {
                    assert(groups@[j as int]@ == g[j as int]);
                }
                let f = filters[i].clone();
                if !list.filter_map.contains_key(&t) {
                    let ghost before = keys@;
                    keys.push(t);
                    proof {
                        assert forall|k: u64| #[trigger] keys@.contains(k) <==> (before.contains(k)
                            || k == t) by {
                            if keys@.contains(k) && k != t {
                                let a = choose|a: int| 0 <= a < keys@.len() && keys@[a] == k;
                                assert(before[a] == k);
                            }
                            if before.contains(k) {
                                let a = choose|a: int| 0 <= a < before.len() && before[a] == k;
                                assert(keys@[a] == k);
                            }
                            if k == t {
                                assert(keys@[before.len() as int] == t);
                            }
                        }
                    }
                }
                list.push_to(t, f);
                j += 1;
            }
            i += 1;
        }
        if !enable_optimizations {
            return list;
        }
        let ghost m = list@;
        let mut out = NetworkFilterList::empty();
        let mut j: usize = 0;
        while j < keys.len()
            invariant
                j <= keys@.len(),
                list@ == m,
                forall|k: u64| #[trigger] keys@.contains(k) <==> m.contains_key(k),
                out@ == Map::new(
                    |k: u64| keys@.subrange(0, j as int).contains(k),
                    |k: u64| optimize_bucket(m[k]),
                ),
            decreases keys.len() - j,
        {
            let k = keys[j];
            proof {
                assert(keys@.contains(k));
            }
            let bucket = list.bucket_copy(k);
            let merged = optimize_filters_bucket(bucket);
            let ghost before = out@;
            out.set_bucket(k, merged);
            proof {
                let pre = keys@.subrange(0, j as int);
                let post = keys@.subrange(0, j + 1);
                assert forall|x: u64| #[trigger] post.contains(x) <==> (pre.contains(x) || x == k) by {
                    if post.contains(x) && x != k {
                        let a = choose|a: int| 0 <= a < post.len() && post[a] == x;
                        assert(pre[a] == x);
                    }
                    if pre.contains(x) {
                        let a = choose|a: int| 0 <= a < pre.len() && pre[a] == x;
                        assert(post[a] == x);
                    }
                    if x == k {
                        assert(post[j as int] == k);
                    }
                }
                assert(out@ =~= Map::new(
                    |x: u64| keys@.subrange(0, j + 1).contains(x),
                    |x: u64| optimize_bucket(m[x]),
                ));
            }
            j += 1;
        }
        proof {
            assert(keys@.subrange(0, keys@.len() as int) =~= keys@);
            assert(out@ =~= m.map_values(|b: Seq<NetworkFilterView>| optimize_bucket(b)));
        }
        out
    }

    /// Replaces the bucket of `t` by `v`.
    fn set_bucket(&mut self, t: u64, v: Vec<NetworkFilter>)
        ensures
            final(self)@ == old(self)@.insert(t, filters_view(v@)),
    {
        let ghost vv = filters_view(v@);
        self.filter_map.insert(t, v);
        proof {
            assert(self@ =~= old(self)@.insert(t, vv));
        }
    }

    /// A copy of the bucket of `t` (empty when there is none).
    fn bucket_copy(&self, t: u64) -> (r: Vec<NetworkFilter>)
        ensures
            filters_view(r@) == bucket_of(self@, t),
    {
        let mut out: Vec<NetworkFilter> = Vec::new();
        match self.filter_map.get(&t) {
            Some(b) => {
                let mut i: usize = 0;
                while i < b.len()
                    invariant
                        i <= b@.len(),
                        self@.contains_key(t),
                        self@[t] == bucket_view(*b),
                        filters_view(out@) == bucket_view(*b).subrange(0, i as int),
                    decreases b.len() - i,
                {
                    let ghost before = out@;
                    let f = b[i].clone();
                    out.push(f);
                    proof {
                        assert(filters_view(out@) =~= filters_view(before).push(f@));
                        assert(bucket_view(*b).subrange(0, i + 1) =~= bucket_view(*b).subrange(
                            0,
                            i as int,
                        ).push(b@[i as int]@));
                    }
                    i += 1;
                }
                proof {
                    assert(bucket_view(*b).subrange(0, b@.len() as int) =~= bucket_view(*b));
                }
            },
            None => {
                proof {
                    assert(filters_view(out@) =~= Seq::<NetworkFilterView>::empty());
                }
            },
        }
        out
    }

    /// Files `filter` under the token of each of its groups whose bucket is smallest at that
    /// moment (a token without a bucket first): the list holds one more filter per group (see
    /// `law_filed_buckets_extend` for the buckets' contents and order).
    pub fn filter_add(&mut self, filter: NetworkFilter)
        ensures
            final(self)@ == file_groups_dynamic(
                old(self)@,
                filter@,
                spec_get_tokens(filter@),
                spec_get_tokens(filter@).len() as int,
            ),
            total_len(final(self).filter_map@) == total_len(old(self).filter_map@) + spec_get_tokens(
                filter@,
            ).len(),
    {
        let groups = filter.get_tokens();
        let ghost g = spec_get_tokens(filter@);
        let mut j: usize = 0;
        while j < groups.len()
            invariant
                g == groups.deep_view(),
                j <= groups@.len(),
                self@ == file_groups_dynamic(old(self)@, filter@, g, j as int),
                total_len(self.filter_map@) == total_len(old(self).filter_map@) + j,
            decreases groups.len() - j,
        {
            let t = pick_best_in_map(&groups[j], &self.filter_map);
            proof {
                assert(groups@[j as int]@ == g[j as int]);
            }
            self.push_to(t, filter.clone());
            j += 1;
        }
    }

    /// Whether a filter with the identifier of `filter` is filed under one of its tokens (or
    /// under `0` when it has none).
    pub fn filter_exists(&self, filter: &NetworkFilter) -> (r: Result<bool, BlockerError>)
        ensures
            r == Ok::<bool, BlockerError>(spec_filter_exists(self@, filter@)),
    {
        let groups = filter.get_tokens();
        let mut toks: Vec<u64> = Vec::new();
        append_groups(&mut toks, &groups);
        if toks.len() == 0 {
            toks.push(0);
        }
        proof {
            assert(toks@ =~= lookup_tokens(filter@));
        }
        let ghost m = self@;
        let mut i: usize = 0;
        while i < toks.len()
            invariant
                i <= toks@.len(),
                m == self@,
                toks@ == lookup_tokens(filter@),
                forall|a: int| 0 <= a < i ==> !bucket_has_id(m, #[trigger] toks@[a], filter.id),
            decreases toks.len() - i,
        {
            match self.filter_map.get(&toks[i]) {
                Some(bucket) => {
                    let mut j: usize = 0;
                    while j < bucket.len()
                        invariant
                            i < toks@.len(),
                            m == self@,
                            toks@ == lookup_tokens(filter@),
                            m.contains_key(toks@[i as int]),
                            m[toks@[i as int]] == bucket_view(*bucket),
                            j <= bucket@.len(),
                            forall|b: int| 0 <= b < j ==> (#[trigger] m[toks@[i as int]][b]).id != filter.id,
                        decreases bucket.len() - j,
                    {
                        if bucket[j].id == filter.id {
                            proof {
                                assert(bucket_view(*bucket)[j as int] == bucket@[j as int]@);
                                assert(m[toks@[i as int]][j as int].id == filter.id);
                                assert(bucket_has_id(m, toks@[i as int], filter.id));
                                assert(spec_filter_exists(m, filter@));
                            }
                            return Ok(true);
                        }
                        j += 1;
                    }
                },
                None => {},
            }
            i += 1;
        }
        Ok(false)
    }

    /// The first filter that matches the request, looking in the buckets of the request's
    /// source hostname hashes and then of its URL tokens.
    pub fn check_in<'a>(&'a self, request: &Request, stats: &mut MatchDebugStats) -> (r: Option<
        &'a NetworkFilter,
    >)
        ensures
            match r {
                Some(f) => first_match(self@, match_tokens(*request), *request) == Some(f@),
                None => first_match(self@, match_tokens(*request), *request) is None,
            },
            final(stats).filters_matched == old(stats).filters_matched.saturating_add(
                if r is Some {
                    1u64
                } else {
                    0u64
                },
            ),
            final(stats).filters_checked >= old(stats).filters_checked,
            r is Some ==> final(stats).last_match_stage == Some(MatchStage::Pattern)
                && final(stats).filters_checked >= 1,
            r is None ==> final(stats).last_match_stage == old(stats).last_match_stage,
    {
        if self.filter_map.len() == 0 {
            proof {
                assert(self@ =~= Map::<u64, Seq<NetworkFilterView>>::empty());
                lemma_first_match_empty(match_tokens(*request), *request);
            }
            return None;
        }
        let toks = request.get_tokens_for_match();
        let ghost m = self@;
        let ghost all = toks@;
        let mut i: usize = 0;
        proof {
            assert(all.subrange(0, all.len() as int) =~= all);
        }
        while i < toks.len()
            invariant
                i <= toks@.len(),
                m == self@,
                stats.filters_matched == old(stats).filters_matched,
                stats.filters_checked >= old(stats).filters_checked,
                stats.last_match_stage == old(stats).last_match_stage,
                all == toks@,
                all == match_tokens(*request),
                first_match(m, all, *request) == first_match(m, all.subrange(i as int, all.len() as int), *request),
            decreases toks.len() - i,
        {
            let ghost rest = all.subrange(i as int, all.len() as int);
            proof {
                assert(rest.drop_first() =~= all.subrange(i + 1, all.len() as int));
                assert(rest[0] == toks@[i as int]);
            }
            match self.filter_map.get(&toks[i]) {
                Some(bucket) => {
                    let ghost bv = bucket_view(*bucket);
                    proof {
                        assert(m.contains_key(toks@[i as int]));
                        assert(m[toks@[i as int]] == bv);
                    }
                    let mut j: usize = 0;
                    proof {
                        assert(bv.subrange(0, bv.len() as int) =~= bv);
                    }
                    while j < bucket.len()
                        invariant
                            j <= bucket@.len(),
                            bv == bucket_view(*bucket),
                            stats.filters_matched == old(stats).filters_matched,
                            stats.filters_checked >= old(stats).filters_checked,
                            stats.last_match_stage == old(stats).last_match_stage,
                            i < toks@.len(),
                            m == self@,
                            all == toks@,
                            all == match_tokens(*request),
                            rest == all.subrange(i as int, all.len() as int),
                            rest[0] == toks@[i as int],
                            m.contains_key(toks@[i as int]),
                            m[toks@[i as int]] == bv,
                            first_match(m, all, *request) == first_match(m, rest, *request),
                            first_in_bucket(bv, *request) == first_in_bucket(bv.subrange(j as int, bv.len() as int), *request),
                        decreases bucket.len() - j,
                    {
                        let ghost br = bv.subrange(j as int, bv.len() as int);
                        proof {
                            assert(br.drop_first() =~= bv.subrange(j + 1, bv.len() as int));
                        }
                        record_checked(stats);
                        let options_ok = check_options(&bucket[j], request);
                        let pattern_ok = options_ok && check_pattern(&bucket[j], request);
                        if !options_ok {
                            record_reject(stats, MatchStage::Options);
                        } else if !pattern_ok {
                            record_reject(stats, MatchStage::Pattern);
                        } else {
                            record_match(stats, MatchStage::Pattern);
                        }
                        if pattern_ok {
                            proof {
                                assert(br[0] == bucket@[j as int]@);
                                assert(first_in_bucket(bv, *request) == Some(bucket@[j as int]@));
                                assert(first_match(m, rest, *request) == Some(bucket@[j as int]@));
                            }
                            return Some(&bucket[j]);
                        }
                        j += 1;
                    }
                    proof {
                        assert(bv.subrange(j as int, bv.len() as int) =~= Seq::<NetworkFilterView>::empty());
                    }
                },
                None => {},
            }
            i += 1;
        }
        proof {
            assert(all.subrange(i as int, all.len() as int) =~= Seq::<u64>::empty());
        }
        None
    }

    /// All filters that match the request, looking in the buckets of the request's source
    /// hostname hashes and then of its URL tokens, in that order (a filter filed under several
    /// of these tokens is reported once for each).
    pub fn check_all(&self, request: &Request) -> (r: Vec<CheckResult>)
        ensures
            check_results_view(r@) == all_matches(self@, match_tokens(*request), *request).map_values(
                |f: NetworkFilterView| check_view_of(f),
            ),
    {
        let toks = request.get_tokens_for_match();
        let ghost m = self@;
        let ghost all = toks@;
        let mut out: Vec<CheckResult> = Vec::new();
        let mut i: usize = 0;
        proof {
            assert(check_results_view(out@) =~= all_matches(m, all.take(0), *request).map_values(
                |f: NetworkFilterView| check_view_of(f),
            ));
        }
        while i < toks.len()
            invariant
                i <= toks@.len(),
                m == self@,
                all == toks@,
                all == match_tokens(*request),
                check_results_view(out@) == all_matches(m, all.take(i as int), *request).map_values(
                    |f: NetworkFilterView| check_view_of(f),
                ),
            decreases toks.len() - i,
        {
            let ghost before = all_matches(m, all.take(i as int), *request);
            proof {
                assert(all.take(i + 1).drop_last() =~= all.take(i as int));
                assert(all.take(i + 1).last() == toks@[i as int]);
            }
            match self.filter_map.get(&toks[i]) {
                Some(bucket) => {
                    let ghost bv = bucket_view(*bucket);
                    proof {
                        assert(m.contains_key(toks@[i as int]));
                        assert(m[toks@[i as int]] == bv);
                    }
                    let mut j: usize = 0;
                    while j < bucket.len()
                        invariant
                            j <= bucket@.len(),
                            bv == bucket_view(*bucket),
                            check_results_view(out@) == (before + bucket_matches(
                                bv.take(j as int),
                                *request,
                            )).map_values(|f: NetworkFilterView| check_view_of(f)),
                        decreases bucket.len() - j,
                    {
                        proof {
                            assert(bv.take(j + 1).drop_last() =~= bv.take(j as int));
                            assert(bv.take(j + 1).last() == bucket@[j as int]@);
                        }
                        let f = &bucket[j];
                        let ghost prev = out@;
                        if check_options(f, request) && check_pattern(f, request) {
                            out.push(CheckResult::from_filter(f));
                            proof {
                                assert(check_results_view(out@) =~= check_results_view(prev).push(
                                    check_view_of(f@),
                                ));
                                assert(before + bucket_matches(bv.take(j + 1), *request) =~= (before
                                    + bucket_matches(bv.take(j as int), *request)).push(f@));
                                assert(check_results_view(out@) =~= (before + bucket_matches(
                                    bv.take(j + 1),
                                    *request,
                                )).map_values(|f: NetworkFilterView| check_view_of(f)));
                            }
                        } else {
                            proof {
                                assert(before + bucket_matches(bv.take(j + 1), *request) =~= before
                                    + bucket_matches(bv.take(j as int), *request));
                            }
                        }
                        j += 1;
                    }
                    proof {
                        assert(bv.take(bucket@.len() as int) =~= bv);
                    }
                },
                None => {
                    proof {
                        assert(before + Seq::<NetworkFilterView>::empty() =~= before);
                    }
                },
            }
            i += 1;
        }
        proof {
            assert(all.take(toks@.len() as int) =~= all);
        }
        out
    }

    /// The first filter with option bit `flag` that matches the request, looking in the buckets
    /// of the request's source hostname hashes and then of its URL tokens.
    pub fn check_flagged<'a>(&'a self, request: &Request, flag: u32) -> (r: Option<&'a NetworkFilter>)
        ensures
            match r {
                Some(f) => first_flagged_match(self@, match_tokens(*request), *request, flag) == Some(f@),
                None => first_flagged_match(self@, match_tokens(*request), *request, flag) is None,
            },
    {
        let toks = request.get_tokens_for_match();
        let ghost m = self@;
        let ghost all = toks@;
        let mut i: usize = 0;
        proof {
            assert(all.subrange(0, all.len() as int) =~= all);
        }
        while i < toks.len()
            invariant
                i <= toks@.len(),
                m == self@,
                all == toks@,
                all == match_tokens(*request),
                first_flagged_match(m, all, *request, flag) == first_flagged_match(
                    m,
                    all.subrange(i as int, all.len() as int),
                    *request,
                    flag,
                ),
            decreases toks.len() - i,
        {
            let ghost rest = all.subrange(i as int, all.len() as int);
            proof {
                assert(rest.drop_first() =~= all.subrange(i + 1, all.len() as int));
                assert(rest[0] == toks@[i as int]);
            }
            match self.filter_map.get(&toks[i]) {
                Some(bucket) => {
                    let ghost bv = bucket_view(*bucket);
                    proof {
                        assert(m.contains_key(toks@[i as int]));
                        assert(m[toks@[i as int]] == bv);
                    }
                    let mut j: usize = 0;
                    proof {
                        assert(bv.subrange(0, bv.len() as int) =~= bv);
                    }
                    while j < bucket.len()
                        invariant
                            j <= bucket@.len(),
                            bv == bucket_view(*bucket),
                            i < toks@.len(),
                            m == self@,
                            all == toks@,
                            all == match_tokens(*request),
                            rest == all.subrange(i as int, all.len() as int),
                            rest[0] == toks@[i as int],
                            m.contains_key(toks@[i as int]),
                            m[toks@[i as int]] == bv,
                            first_flagged_match(m, all, *request, flag) == first_flagged_match(
                                m,
                                rest,
                                *request,
                                flag,
                            ),
                            first_flagged_in_bucket(bv, *request, flag) == first_flagged_in_bucket(
                                bv.subrange(j as int, bv.len() as int),
                                *request,
                                flag,
                            ),
                        decreases bucket.len() - j,
                    {
                        let ghost br = bv.subrange(j as int, bv.len() as int);
                        proof {
                            assert(br.drop_first() =~= bv.subrange(j + 1, bv.len() as int));
                            assert(br[0] == bucket@[j as int]@);
                        }
                        let f = &bucket[j];
                        if f.mask.contains(flag) && check_options(f, request) && check_pattern(
                            f,
                            request,
                        ) {
                            proof {
                                assert(first_flagged_in_bucket(bv, *request, flag) == Some(f@));
                                assert(first_flagged_match(m, rest, *request, flag) == Some(f@));
                            }
                            return Some(f);
                        }
                        j += 1;
                    }
                    proof {
                        assert(bv.subrange(j as int, bv.len() as int) =~= Seq::<NetworkFilterView>::empty());
                    }
                },
                None => {},
            }
            i += 1;
        }
        proof {
            assert(all.subrange(i as int, all.len() as int) =~= Seq::<u64>::empty());
        }
        None
    }

    /// The first filter that matches the request, looking in the buckets of the request's
    /// source hostname hashes and then of its URL tokens.
    pub fn check<'a>(&'a self, request: &Request) -> (r: Option<&'a NetworkFilter>)
        ensures
            match r {
                Some(f) => first_match(self@, match_tokens(*request), *request) == Some(f@),
                None => first_match(self@, match_tokens(*request), *request) is None,
            },
    {
        let mut stats = MatchDebugStats::default();
        self.check_in(request, &mut stats)
    }
}

// ---------------------------------------------------------------------------------------------
// Laws of the filter list
// ---------------------------------------------------------------------------------------------

proof fn lemma_pick_in_group(group: Seq<u64>, counts: Map<u64, int>, n: int)
    requires
        1 <= n <= group.len(),
    ensures
        exists|k: int| 0 <= k < n && group[k] == pick_state(group, counts, n).0,
    decreases n,
{
    if n == 1 {
        assert(pick_state(group, counts, 0) == (0u64, None::<int>));
        assert(group[0] == pick_state(group, counts, 1).0);
    } else {
        lemma_pick_in_group(group, counts, n - 1);
        let k = choose|k: int| 0 <= k < n - 1 && group[k] == pick_state(group, counts, n - 1).0;
        if pick_state(group, counts, n).0 == group[n - 1] {
            assert(group[n - 1] == pick_state(group, counts, n).0);
        } else {
            assert(group[k] == pick_state(group, counts, n).0);
        }
    }
}

proof fn lemma_flatten_contains(g: Seq<Seq<u64>>, k: int, x: int)
    requires
        0 <= k < g.len(),
        0 <= x < g[k].len(),
    ensures
        flatten(g).contains(g[k][x]),
    decreases g.len(),
{
    if k == g.len() - 1 {
        assert(flatten(g)[flatten(g.drop_last()).len() + x] == g[k][x]);
    } else {
        lemma_flatten_contains(g.drop_last(), k, x);
        let i = choose|i: int| 0 <= i < flatten(g.drop_last()).len() && flatten(g.drop_last())[i] == g[k][x];
        assert(flatten(g)[i] == g[k][x]);
    }
}

proof fn lemma_flatten_empty(g: Seq<Seq<u64>>)
    requires
        forall|k: int| 0 <= k < g.len() ==> #[trigger] g[k].len() == 0,
    ensures
        flatten(g).len() == 0,
    decreases g.len(),
{
    if g.len() > 0 {
        lemma_flatten_empty(g.drop_last());
        assert(g[g.len() - 1].len() == 0);
    }
}

proof fn lemma_push_keeps(m: Map<u64, Seq<NetworkFilterView>>, t: u64, u: u64, f: NetworkFilterView, id: u64)
    requires
        bucket_has_id(m, u, id),
    ensures
        bucket_has_id(push_filter(m, t, f), u, id),
{
    let m2 = push_filter(m, t, f);
    let j = choose|j: int| 0 <= j < m[u].len() && (#[trigger] m[u][j]).id == id;
    assert(m2[u][j] == m[u][j]);
}

proof fn lemma_groups_keep(
    m: Map<u64, Seq<NetworkFilterView>>,
    f: NetworkFilterView,
    g: Seq<Seq<u64>>,
    k: int,
    n: int,
    u: u64,
)
    requires
        0 <= k <= n <= g.len(),
        bucket_has_id(file_groups_dynamic(m, f, g, k), u, f.id),
    ensures
        bucket_has_id(file_groups_dynamic(m, f, g, n), u, f.id),
    decreases n - k,
{
    if n > k {
        lemma_groups_keep(m, f, g, k, n - 1, u);
        let prev = file_groups_dynamic(m, f, g, n - 1);
        lemma_push_keeps(prev, best_token(g[n - 1], bucket_counts(prev)), u, f, f.id);
    }
}

proof fn lemma_group_filed(m: Map<u64, Seq<NetworkFilterView>>, f: NetworkFilterView, g: Seq<Seq<u64>>, k: int)
    requires
        0 <= k < g.len(),
    ensures
        bucket_has_id(
            file_groups_dynamic(m, f, g, g.len() as int),
            best_token(g[k], bucket_counts(file_groups_dynamic(m, f, g, k))),
            f.id,
        ),
{
    let prev = file_groups_dynamic(m, f, g, k);
    let t = best_token(g[k], bucket_counts(prev));
    let next = file_groups_dynamic(m, f, g, k + 1);
    assert(next == push_filter(prev, t, f));
    assert(next[t][next[t].len() - 1] == f);
    assert(bucket_has_id(next, t, f.id));
    lemma_groups_keep(m, f, g, k + 1, g.len() as int, t);
}

/// A filter added to a list is then found there: after `filter_add(f)`, `filter_exists(f)`
/// holds, provided `f` has at least one token group.
pub proof fn law_added_filter_exists(m: Map<u64, Seq<NetworkFilterView>>, f: NetworkFilterView)
    requires
        spec_get_tokens(f).len() > 0,
    ensures
        spec_filter_exists(
            file_groups_dynamic(m, f, spec_get_tokens(f), spec_get_tokens(f).len() as int),
            f,
        ),
{
    let g = spec_get_tokens(f);
    let r = file_groups_dynamic(m, f, g, g.len() as int);
    let toks = lookup_tokens(f);
    if exists|k: int| 0 <= k < g.len() && #[trigger] g[k].len() > 0 {
        let k = choose|k: int| 0 <= k < g.len() && #[trigger] g[k].len() > 0;
        let counts = bucket_counts(file_groups_dynamic(m, f, g, k));
        let t = best_token(g[k], counts);
        lemma_group_filed(m, f, g, k);
        lemma_pick_in_group(g[k], counts, g[k].len() as int);
        let x = choose|x: int| 0 <= x < g[k].len() && g[k][x] == t;
        lemma_flatten_contains(g, k, x);
        assert(flatten(g).len() > 0);
        let i = choose|i: int| 0 <= i < flatten(g).len() && flatten(g)[i] == t;
        assert(toks[i] == t);
        assert(bucket_has_id(r, toks[i], f.id));
    } else {
        lemma_flatten_empty(g);
        let k = g.len() - 1;
        let counts = bucket_counts(file_groups_dynamic(m, f, g, k));
        assert(g[k].len() == 0);
        assert(best_token(g[k], counts) == 0);
        lemma_group_filed(m, f, g, k);
        assert(toks[0] == 0);
        assert(bucket_has_id(r, toks[0], f.id));
    }
}

proof fn lemma_fixed_keeps(
    m: Map<u64, Seq<NetworkFilterView>>,
    f: NetworkFilterView,
    g: Seq<Seq<u64>>,
    counts: Map<u64, int>,
    k: int,
    n: int,
    u: u64,
    id: u64,
)
    requires
        0 <= k <= n,
        bucket_has_id(file_groups_fixed(m, f, g, counts, k), u, id),
    ensures
        bucket_has_id(file_groups_fixed(m, f, g, counts, n), u, id),
    decreases n - k,
{
    if n > k {
        lemma_fixed_keeps(m, f, g, counts, k, n - 1, u, id);
        let prev = file_groups_fixed(m, f, g, counts, n - 1);
        lemma_push_keeps(prev, best_token(g[n - 1], counts), u, f, id);
    }
}

proof fn lemma_build_keeps(fs: Seq<NetworkFilterView>, counts: Map<u64, int>, k: int, n: int, u: u64, id: u64)
    requires
        0 <= k <= n,
        bucket_has_id(build_map(fs, counts, k), u, id),
    ensures
        bucket_has_id(build_map(fs, counts, n), u, id),
    decreases n - k,
{
    if n > k {
        lemma_build_keeps(fs, counts, k, n - 1, u, id);
        let f = fs[n - 1];
        let g = spec_get_tokens(f);
        lemma_fixed_keeps(build_map(fs, counts, n - 1), f, g, counts, 0, g.len() as int, u, id);
    }
}

/// Every filter with at least one token group that a list is built from is then found in it.
pub proof fn law_list_new_has_filters(fs: Seq<NetworkFilterView>, i: int)
    requires
        0 <= i < fs.len(),
        spec_get_tokens(fs[i]).len() > 0,
    ensures
        spec_filter_exists(spec_list_new(fs), fs[i]),
{
    let f = fs[i];
    let g = spec_get_tokens(f);
    let counts = hist_counts(spec_histogram(filter_token_entries(fs)));
    let base = build_map(fs, counts, i);
    let toks = lookup_tokens(f);
    let k = if exists|k: int| 0 <= k < g.len() && #[trigger] g[k].len() > 0 {
        choose|k: int| 0 <= k < g.len() && #[trigger] g[k].len() > 0
    } else {
        g.len() - 1
    };
    let t = best_token(g[k], counts);
    let next = file_groups_fixed(base, f, g, counts, k + 1);
    assert(next == push_filter(file_groups_fixed(base, f, g, counts, k), t, f));
    assert(next[t][next[t].len() - 1] == f);
    assert(bucket_has_id(next, t, f.id));
    lemma_fixed_keeps(base, f, g, counts, k + 1, g.len() as int, t, f.id);
    assert(build_map(fs, counts, i + 1) == file_groups_fixed(base, f, g, counts, g.len() as int));
    lemma_build_keeps(fs, counts, i + 1, fs.len() as int, t, f.id);
    let r = spec_list_new(fs);
    assert(bucket_has_id(r, t, f.id));
    if g[k].len() > 0 {
        lemma_pick_in_group(g[k], counts, g[k].len() as int);
        let x = choose|x: int| 0 <= x < g[k].len() && g[k][x] == t;
        lemma_flatten_contains(g, k, x);
        let ii = choose|ii: int| 0 <= ii < flatten(g).len() && flatten(g)[ii] == t;
        assert(toks[ii] == t);
        assert(bucket_has_id(r, toks[ii], f.id));
    } else {
        assert(forall|kk: int| 0 <= kk < g.len() ==> #[trigger] g[kk].len() == 0);
        lemma_flatten_empty(g);
        assert(best_token(g[k], counts) == 0);
        assert(toks[0] == 0);
        assert(bucket_has_id(r, toks[0], f.id));
    }
}

proof fn lemma_select_contains(fs: Seq<NetworkFilterView>, bad: Set<u64>, c: FilterCategory, n: int, i: int)
    requires
        0 <= i < n <= fs.len(),
        is_kept(fs[i], bad),
        spec_category(fs[i]) == c,
    ensures
        exists|j: int|
            0 <= j < select_category(fs, bad, c, n).len() && #[trigger] select_category(fs, bad, c, n)[j]
                == fs[i],
    decreases n,
{
    if i == n - 1 {
        let s = select_category(fs, bad, c, n);
        assert(s[s.len() - 1] == fs[i]);
    } else {
        lemma_select_contains(fs, bad, c, n - 1, i);
        let prev = select_category(fs, bad, c, n - 1);
        let j = choose|j: int| 0 <= j < prev.len() && #[trigger] prev[j] == fs[i];
        assert(select_category(fs, bad, c, n)[j] == fs[i]);
    }
}

/// A blocker built from `fs` with network filters loaded and without merging holds each filter
/// of `fs` that is no `$badfilter` filter and that no `$badfilter` filter of `fs` cancels,
/// provided it has a tag or at least one token group: `filter_exists` finds it.
pub proof fn law_new_blocker_has_its_filters(b: Blocker, fs: Seq<NetworkFilterView>, i: int)
    requires
        0 <= i < fs.len(),
        b.csp@ == spec_list_new(initial_list(fs, true, FilterCategory::Csp)),
        b.exceptions@ == spec_list_new(initial_list(fs, true, FilterCategory::Exception)),
        b.importants@ == spec_list_new(initial_list(fs, true, FilterCategory::Important)),
        b.redirects@ == spec_list_new(initial_list(fs, true, FilterCategory::Redirect)),
        b.filters@ == spec_list_new(initial_list(fs, true, FilterCategory::Plain)),
        filters_view(b.tagged_filters_all@) == initial_list(fs, true, FilterCategory::Tagged),
        is_kept(fs[i], badfilter_ids(fs, fs.len() as int)),
        spec_category(fs[i]) == FilterCategory::Tagged || spec_get_tokens(fs[i]).len() > 0,
    ensures
        spec_blocker_filter_exists(b, fs[i]),
{
    let c = spec_category(fs[i]);
    let bad = badfilter_ids(fs, fs.len() as int);
    lemma_select_contains(fs, bad, c, fs.len() as int, i);
    let l = initial_list(fs, true, c);
    let j = choose|j: int| 0 <= j < l.len() && #[trigger] l[j] == fs[i];
    match c {
        FilterCategory::Tagged => {
            assert(b.tagged_filters_all@[j]@ == fs[i]);
        },
        _ => {
            law_list_new_has_filters(l, j);
        },
    }
}

// ---------------------------------------------------------------------------------------------
// The blocker
// ---------------------------------------------------------------------------------------------

/// How a blocker is set up.
#[derive(Clone, Copy, Debug, PartialEq, Eq, Structural)]
pub struct BlockerOptions {
    pub debug: bool,
    pub enable_optimizations: bool,
    pub load_cosmetic_filters: bool,
    pub load_network_filters: bool,
}

/// The verdict on a request.
#[derive(Debug)]
pub struct BlockerResult {
    /// The request is blocked: a filter matched and no exception applies.
    pub matched: bool,
    /// The matching filter is `$important`.
    pub important: bool,
    /// A `data:` URL to serve instead, for a `$redirect` filter whose resource is known.
    pub redirect: Option<String>,
    /// The exception filter that applied, as text.
    pub exception: Option<String>,
    /// The filter that matched, as text.
    pub filter: Option<String>,
    /// Why the request could not be checked.
    pub error: Option<String>,
}

/// A result that blocks nothing and reports nothing.
pub open spec fn is_empty_result(r: BlockerResult) -> bool {
    &&& !r.matched
    &&& !r.important
    &&& r.redirect is None
    &&& r.exception is None
    &&& r.filter is None
    &&& r.error is None
}

impl Default for BlockerResult {
    fn default() -> (r: Self)
        ensures
            is_empty_result(r),
    {
        BlockerResult {
            matched: false,
            important: false,
            redirect: None,
            exception: None,
            filter: None,
            error: None,
        }
    }
}

/// The list a filter belongs to in a blocker.
#[derive(Clone, Copy, Debug, PartialEq, Eq, Structural)]
pub enum FilterCategory {
    Csp,
    Tagged,
    Exception,
    Important,
    Redirect,
    Plain,
}

/// The list of a filter, by the first of these that applies: `$csp` filters; tagged
/// exceptions (which apply only while their tag is enabled); other exceptions; `$important`
/// filters; `$redirect` filters; tagged filters; all others. A tagged `$important` or
/// `$redirect` filter thus always applies.
pub open spec fn spec_category(f: NetworkFilterView) -> FilterCategory {
    if has_flag(f.mask, IS_CSP) {
        FilterCategory::Csp
    } else if has_flag(f.mask, IS_EXCEPTION) && f.tag is Some {
        FilterCategory::Tagged
    } else if has_flag(f.mask, IS_EXCEPTION) {
        FilterCategory::Exception
    } else if has_flag(f.mask, IS_IMPORTANT) {
        FilterCategory::Important
    } else if has_flag(f.mask, IS_REDIRECT) {
        FilterCategory::Redirect
    } else if f.tag is Some {
        FilterCategory::Tagged
    } else {
        FilterCategory::Plain
    }
}

/// The list of a filter.
pub fn category(f: &NetworkFilter) -> (r: FilterCategory)
    ensures
        r == spec_category(f@),
{
    if f.is_csp() {
        FilterCategory::Csp
    } else if f.is_exception() && f.tag.is_some() {
        FilterCategory::Tagged
    } else if f.is_exception() {
        FilterCategory::Exception
    } else if f.is_important() {
        FilterCategory::Important
    } else if f.is_redirect() {
        FilterCategory::Redirect
    } else if f.tag.is_some() {
        FilterCategory::Tagged
    } else {
        FilterCategory::Plain
    }
}

/// Text form of a filter pattern.
pub open spec fn part_string(p: FilterPartView) -> Option<Seq<char>> {
    match p {
        FilterPartView::Empty => None,
        FilterPartView::Simple(s) => Some(s),
        FilterPartView::AnyOf(l) => Some(spec_join(l, '|')),
    }
}

/// Identifier of a filter computed from its parts.
pub open spec fn nf_id(f: NetworkFilterView) -> u64 {
    spec_compute_filter_id(
        f.modifier_option,
        f.mask,
        part_string(f.filter),
        f.hostname,
        f.opt_domains,
        f.opt_not_domains,
    )
}

/// Identifier of a filter as if it had no `$badfilter` option.
pub open spec fn nf_id_without_badfilter(f: NetworkFilterView) -> u64 {
    spec_compute_filter_id(
        f.modifier_option,
        f.mask & !BAD_FILTER,
        part_string(f.filter),
        f.hostname,
        f.opt_domains,
        f.opt_not_domains,
    )
}

proof fn lemma_part_string(p: crate::filters::network::FilterPart)
    ensures
        crate::filters::network::spec_string_view(p) == part_string(p@),
{
}

/// The identifier of a filter.
pub fn filter_id(f: &NetworkFilter) -> (r: u64)
    ensures
        r == nf_id(f@),
{
    proof {
        lemma_part_string(f.filter);
    }
    f.get_id()
}

/// The identifier of a filter with its `$badfilter` option set aside.
pub fn filter_id_without_badfilter(f: &NetworkFilter) -> (r: u64)
    ensures
        r == nf_id_without_badfilter(f@),
{
    proof {
        lemma_part_string(f.filter);
    }
    f.get_id_without_badfilter()
}

/// Identifiers that the `$badfilter` filters among the first `n` cancel.
pub open spec fn badfilter_ids(fs: Seq<NetworkFilterView>, n: int) -> Set<u64> {
    Set::new(
        |id: u64|
            exists|i: int|
                0 <= i < n && i < fs.len() && has_flag(fs[i].mask, BAD_FILTER)
                    && nf_id_without_badfilter(#[trigger] fs[i]) == id,
    )
}

/// A filter is kept when it is no `$badfilter` and no `$badfilter` cancels it.
pub open spec fn is_kept(f: NetworkFilterView, bad: Set<u64>) -> bool {
    !has_flag(f.mask, BAD_FILTER) && !bad.contains(nf_id(f))
}

/// The kept filters among the first `n` that belong to list `c`, in order.
pub open spec fn select_category(fs: Seq<NetworkFilterView>, bad: Set<u64>, c: FilterCategory, n: int) -> Seq<
    NetworkFilterView,
>
    decreases n,
{
    if n <= 0 {
        Seq::empty()
    } else {
        let prev = select_category(fs, bad, c, n - 1);
        let f = fs[n - 1];
        if is_kept(f, bad) && spec_category(f) == c {
            prev.push(f)
        } else {
            prev
        }
    }
}

/// The filters of list `c` when a blocker is built from `fs` with `load` set.
pub open spec fn initial_list(fs: Seq<NetworkFilterView>, load: bool, c: FilterCategory) -> Seq<
    NetworkFilterView,
> {
    if fs.len() > 0 && load {
        select_category(fs, badfilter_ids(fs, fs.len() as int), c, fs.len() as int)
    } else {
        Seq::empty()
    }
}

/// The tags of a list of strings, as a set.
pub open spec fn tag_set(v: Seq<String>) -> Set<Seq<char>> {
    Set::new(|t: Seq<char>| exists|i: int| 0 <= i < v.len() && (#[trigger] v[i])@ == t)
}

/// The tags of a list of `&str`, as a set.
pub open spec fn str_set(v: Seq<&str>) -> Set<Seq<char>> {
    Set::new(|t: Seq<char>| exists|i: int| 0 <= i < v.len() && (#[trigger] v[i])@ == t)
}

/// The tagged filters among the first `n` whose tag is enabled and that are (or are not)
/// exceptions, in order.
pub open spec fn select_tagged(all: Seq<NetworkFilterView>, tags: Set<Seq<char>>, exception: bool, n: int) -> Seq<
    NetworkFilterView,
>
    decreases n,
{
    if n <= 0 {
        Seq::empty()
    } else {
        let prev = select_tagged(all, tags, exception, n - 1);
        let f = all[n - 1];
        if f.tag is Some && tags.contains(f.tag->0) && has_flag(f.mask, IS_EXCEPTION) == exception {
            prev.push(f)
        } else {
            prev
        }
    }
}

/// Filters are filed by list; tagged filters are all kept aside and those whose tag is enabled
/// are filed again in the lists of enabled tagged filters and exceptions.
#[derive(Debug)]
pub struct Blocker {
    pub csp: NetworkFilterList,
    pub exceptions: NetworkFilterList,
    pub importants: NetworkFilterList,
    pub redirects: NetworkFilterList,
    pub filters_tagged: NetworkFilterList,
    pub exceptions_tagged: NetworkFilterList,
    pub filters: NetworkFilterList,
    pub tags_enabled: Vec<String>,
    pub tagged_filters_all: Vec<NetworkFilter>,
    pub debug: bool,
    pub enable_optimizations: bool,
    pub load_cosmetic_filters: bool,
    pub load_network_filters: bool,
    pub resources: RedirectResourceStorage,
}

/// The tagged lists of `b` agree with its tagged filters and enabled tags.
pub open spec fn tagged_lists_agree(b: Blocker) -> bool {
    let all = filters_view(b.tagged_filters_all@);
    let tags = tag_set(b.tags_enabled@);
    &&& b.filters_tagged@ == spec_list_build(
        select_tagged(all, tags, false, all.len() as int),
        b.enable_optimizations,
    )
    &&& b.exceptions_tagged@ == spec_list_build(
        select_tagged(all, tags, true, all.len() as int),
        b.enable_optimizations,
    )
}

/// Whether `b` holds a filter with the identifier of `f`, looking in the list `f` belongs to.
pub open spec fn spec_blocker_filter_exists(b: Blocker, f: NetworkFilterView) -> bool {
    match spec_category(f) {
        FilterCategory::Csp => spec_filter_exists(b.csp@, f),
        FilterCategory::Tagged => exists|i: int|
            0 <= i < b.tagged_filters_all@.len() && (#[trigger] b.tagged_filters_all@[i]).id == f.id,
        FilterCategory::Exception => spec_filter_exists(b.exceptions@, f),
        FilterCategory::Important => spec_filter_exists(b.importants@, f),
        FilterCategory::Redirect => spec_filter_exists(b.redirects@, f),
        FilterCategory::Plain => spec_filter_exists(b.filters@, f),
    }
}

/// `a` or else `b`.
pub open spec fn or_else<T>(a: Option<T>, b: Option<T>) -> Option<T> {
    if a is Some {
        a
    } else {
        b
    }
}

/// The filter that blocks (or redirects) a request: `$important` filters first, then enabled
/// tagged filters, `$redirect` filters, and the other filters.
pub open spec fn spec_blocking_filter(b: Blocker, req: Request) -> Option<NetworkFilterView> {
    let toks = match_tokens(req);
    or_else(
        first_match(b.importants@, toks, req),
        or_else(
            first_match(b.filters_tagged@, toks, req),
            or_else(first_match(b.redirects@, toks, req), first_match(b.filters@, toks, req)),
        ),
    )
}

/// The exception that applies to a request blocked by `filter`: none for `$important`
/// filters; otherwise the first matching exception, then enabled tagged exception.
pub open spec fn spec_exception(b: Blocker, req: Request, filter: Option<NetworkFilterView>) -> Option<
    NetworkFilterView,
> {
    match filter {
        Some(f) => if has_flag(f.mask, IS_IMPORTANT) {
            None
        } else {
            let toks = match_tokens(req);
            or_else(first_match(b.exceptions@, toks, req), first_match(b.exceptions_tagged@, toks, req))
        },
        None => None,
    }
}

proof fn lemma_first_in_bucket_found(bk: Seq<NetworkFilterView>, req: Request, i: int)
    requires
        0 <= i < bk.len(),
        spec_matches(bk[i], req),
    ensures
        first_in_bucket(bk, req) is Some,
    decreases bk.len(),
{
    if !spec_matches(bk[0], req) {
        assert(bk.drop_first()[i - 1] == bk[i]);
        lemma_first_in_bucket_found(bk.drop_first(), req, i - 1);
    }
}

proof fn lemma_first_in_bucket_matches(bk: Seq<NetworkFilterView>, req: Request)
    ensures
        first_in_bucket(bk, req) matches Some(e) ==> spec_matches(e, req),
    decreases bk.len(),
{
    if bk.len() > 0 && !spec_matches(bk[0], req) {
        lemma_first_in_bucket_matches(bk.drop_first(), req);
    }
}

/// A filter that matches the request in the bucket of one of the tokens is found.
proof fn lemma_first_match_found(
    m: Map<u64, Seq<NetworkFilterView>>,
    toks: Seq<u64>,
    req: Request,
    k: int,
    i: int,
)
    requires
        0 <= k < toks.len(),
        m.contains_key(toks[k]),
        0 <= i < m[toks[k]].len(),
        spec_matches(m[toks[k]][i], req),
    ensures
        first_match(m, toks, req) is Some,
    decreases toks.len(),
{
    if k == 0 {
        lemma_first_in_bucket_found(m[toks[0]], req, i);
    } else {
        assert(toks.drop_first()[k - 1] == toks[k]);
        lemma_first_match_found(m, toks.drop_first(), req, k - 1, i);
    }
}

/// What is found matches the request.
proof fn lemma_first_match_matches(m: Map<u64, Seq<NetworkFilterView>>, toks: Seq<u64>, req: Request)
    ensures
        first_match(m, toks, req) matches Some(e) ==> spec_matches(e, req),
    decreases toks.len(),
{
    if toks.len() > 0 {
        if m.contains_key(toks[0]) {
            lemma_first_in_bucket_matches(m[toks[0]], req);
        }
        lemma_first_match_matches(m, toks.drop_first(), req);
    }
}

/// An exception overrides every blocking filter that is not `$important`, whatever its other
/// options (`$redirect` among them): when some filter of the exception list (or of the enabled
/// tagged exceptions, with `tagged`) filed under one of the request's tokens matches the
/// request, the request is not blocked and the result reports an exception filter that
/// matches it.
pub proof fn law_exception_overrides_unimportant(
    b: Blocker,
    req: Request,
    r: BlockerResult,
    tagged: bool,
    t: u64,
    i: int,
)
    requires
        spec_check_result(b, req, r),
        b.load_network_filters,
        req.is_supported,
        spec_blocking_filter(b, req) matches Some(f) && !has_flag(f.mask, IS_IMPORTANT),
        match_tokens(req).contains(t),
        (if tagged { b.exceptions_tagged@ } else { b.exceptions@ }).contains_key(t),
        0 <= i < (if tagged { b.exceptions_tagged@ } else { b.exceptions@ })[t].len(),
        spec_matches((if tagged { b.exceptions_tagged@ } else { b.exceptions@ })[t][i], req),
    ensures
        !r.matched,
        exists|e: NetworkFilterView|
            spec_matches(e, req) && r.exception.deep_view() == Some(#[trigger] spec_filter_text(e)),
{
    let toks = match_tokens(req);
    let l = if tagged { b.exceptions_tagged@ } else { b.exceptions@ };
    let k = choose|k: int| 0 <= k < toks.len() && toks[k] == t;
    lemma_first_match_found(l, toks, req, k, i);
    lemma_first_match_matches(b.exceptions@, toks, req);
    lemma_first_match_matches(b.exceptions_tagged@, toks, req);
    let e = or_else(first_match(b.exceptions@, toks, req), first_match(b.exceptions_tagged@, toks, req))->0;
    assert(spec_exception(b, req, spec_blocking_filter(b, req)) == Some(e));
    assert(spec_matches(e, req));
}

/// An `$important` filter that blocks a request is never excepted: the request is blocked and
/// no exception is reported.
pub proof fn law_important_is_not_excepted(b: Blocker, req: Request, r: BlockerResult)
    requires
        spec_check_result(b, req, r),
        b.load_network_filters,
        req.is_supported,
        spec_blocking_filter(b, req) matches Some(f) && has_flag(f.mask, IS_IMPORTANT),
    ensures
        r.matched,
        r.important,
        r.exception is None,
{
}

/// Text of a filter: its rule, or `NetworkFilter` when the rule was not kept.
pub open spec fn spec_filter_text(f: NetworkFilterView) -> Seq<char> {
    match f.raw_line {
        Some(r) => r,
        None => "NetworkFilter"@,
    }
}

/// The UTF-8 bytes of a string.
pub open spec fn utf8_of(s: Seq<char>) -> Seq<u8>
    decreases s.len(),
{
    if s.len() == 0 {
        Seq::empty()
    } else {
        utf8_of(s.drop_last()) + crate::parser::utf8_bytes(s.last())
    }
}

/// The character of a 6-bit value in the standard base64 alphabet: `A`-`Z`, `a`-`z`, `0`-`9`,
/// `+`, `/`.
pub open spec fn b64_char(v: int) -> char {
    if v < 26 {
        ('A' as int + v) as char
    } else if v < 52 {
        ('a' as int + (v - 26)) as char
    } else if v < 62 {
        ('0' as int + (v - 52)) as char
    } else if v == 62 {
        '+'
    } else {
        '/'
    }
}

/// Base64 of `b` with the standard alphabet and `=` padding (RFC 4648): each group of three
/// bytes gives four characters; a last group of one or two bytes gives two or three, padded to
/// four with `=`.
pub open spec fn spec_base64(b: Seq<u8>) -> Seq<char>
    decreases b.len(),
{
    if b.len() == 0 {
        Seq::empty()
    } else if b.len() == 1 {
        let x = b[0] as int;
        seq![b64_char(x / 4), b64_char((x % 4) * 16), '=', '=']
    } else if b.len() == 2 {
        let x = b[0] as int;
        let y = b[1] as int;
        seq![b64_char(x / 4), b64_char((x % 4) * 16 + y / 16), b64_char((y % 16) * 4), '=']
    } else {
        let x = b[0] as int;
        let y = b[1] as int;
        let z = b[2] as int;
        seq![b64_char(x / 4), b64_char((x % 4) * 16 + y / 16), b64_char((y % 16) * 4 + z / 64), b64_char(z % 64)]
            + spec_base64(b.subrange(3, b.len() as int))
    }
}

/// Calls `base64::engine::general_purpose::STANDARD.encode` on the bytes of `data`: the
/// standard alphabet with padding, over the UTF-8 bytes that `str::as_bytes` gives. The length
/// bound keeps the crate's size computation from overflowing.
#[verifier::external_body]
fn base64_encode(data: &str) -> (r: String)
    requires
        data@.len() < usize::MAX / 8,
    ensures
        r@ == spec_base64(utf8_of(data@)),
{
    base64::Engine::encode(&base64::engine::general_purpose::STANDARD, data.as_bytes())
}

/// The `data:` URL of a resource: its data as is when the content type has parameters (a `;`),
/// base64-encoded otherwise; trimmed of white space. `None` when the data is too long to encode.
pub open spec fn spec_data_url(ct: Seq<char>, data: Seq<char>) -> Option<Seq<char>> {
    if ct.contains(';') {
        Some(crate::utils::spec_trim("data:"@ + ct + ","@ + data))
    } else if data.len() < usize::MAX / 8 {
        Some(crate::utils::spec_trim("data:"@ + ct + ";base64,"@ + spec_base64(utf8_of(data))))
    } else {
        None
    }
}

/// The redirect for a blocking filter: the `data:` URL of the resource its `$redirect` names,
/// when the blocker knows it.
pub open spec fn spec_redirect(
    res: Map<Seq<char>, (Seq<char>, Seq<char>)>,
    filter: Option<NetworkFilterView>,
) -> Option<Seq<char>> {
    match filter {
        Some(f) => if has_flag(f.mask, IS_REDIRECT) && f.modifier_option is Some
            && res.contains_key(f.modifier_option->0) {
            let (ct, data) = res[f.modifier_option->0];
            spec_data_url(ct, data)
        } else {
            None
        },
        None => None,
    }
}

/// The result of checking a request with `b`.
pub open spec fn spec_check_result(b: Blocker, req: Request, r: BlockerResult) -> bool {
    if !b.load_network_filters || !req.is_supported {
        is_empty_result(r)
    } else {
        let filter = spec_blocking_filter(b, req);
        let exception = spec_exception(b, req, filter);
        &&& r.matched == (exception is None && filter is Some)
        &&& r.important == (filter matches Some(f) && has_flag(f.mask, IS_IMPORTANT))
        &&& r.redirect.deep_view() == spec_redirect(b.resources@, filter)
        &&& r.exception.deep_view() == (match exception {
            Some(e) => Some(spec_filter_text(e)),
            None => None,
        })
        &&& r.filter.deep_view() == (match filter {
            Some(f) => Some(spec_filter_text(f)),
            None => None,
        })
        &&& r.error is None
    }
}

fn filter_text(f: &NetworkFilter) -> (r: String)
    ensures
        r@ == spec_filter_text(f@),
{
    f.to_string()
}

fn text_of(f: Option<&NetworkFilter>) -> (r: Option<String>)
    ensures
        r.deep_view() == (match f {
            Some(x) => Some(spec_filter_text(x@)),
            None => None::<Seq<char>>,
        }),
{
    match f {
        Some(x) => Some(filter_text(x)),
        None => None,
    }
}

fn concat3(a: &str, b: &str, c: &str, d: &str) -> (r: Vec<char>)
    ensures
        r@ == a@ + b@ + c@ + d@,
{
    let mut v = crate::utils::str_to_chars(a);
    let bv = crate::utils::str_to_chars(b);
    let cv = crate::utils::str_to_chars(c);
    let dv = crate::utils::str_to_chars(d);
    let mut i: usize = 0;
    let ghost s0 = v@;
    while i < bv.len()
        invariant
            i <= bv@.len(),
            v@ == s0 + bv@.subrange(0, i as int),
        decreases bv.len() - i,
    {
        v.push(bv[i]);
        i += 1;
        proof {
            assert(v@ =~= s0 + bv@.subrange(0, i as int));
        }
    }
    proof {
        assert(bv@.subrange(0, bv@.len() as int) =~= bv@);
    }
    let ghost s1 = v@;
    let mut i: usize = 0;
    while i < cv.len()
        invariant
            i <= cv@.len(),
            v@ == s1 + cv@.subrange(0, i as int),
        decreases cv.len() - i,
    {
        v.push(cv[i]);
        i += 1;
        proof {
            assert(v@ =~= s1 + cv@.subrange(0, i as int));
        }
    }
    proof {
        assert(cv@.subrange(0, cv@.len() as int) =~= cv@);
    }
    let ghost s2 = v@;
    let mut i: usize = 0;
    while i < dv.len()
        invariant
            i <= dv@.len(),
            v@ == s2 + dv@.subrange(0, i as int),
        decreases dv.len() - i,
    {
        v.push(dv[i]);
        i += 1;
        proof {
            assert(v@ =~= s2 + dv@.subrange(0, i as int));
        }
    }
    proof {
        assert(dv@.subrange(0, dv@.len() as int) =~= dv@);
    }
    v
}

/// The `data:` URL of a resource.
pub fn data_url(resource: &RedirectResource) -> (r: Option<String>)
    ensures
        r.deep_view() == spec_data_url(resource.content_type@, resource.data@),
{
    let ct = crate::utils::str_to_chars(resource.content_type.as_str());
    if crate::utils::contains_char(ct.as_slice(), ';') {
        let v = concat3("data:", resource.content_type.as_str(), ",", resource.data.as_str());
        let t = crate::utils::trim_chars(v.as_slice());
        Some(crate::utils::chars_to_string_all(t.as_slice()))
    } else {
        let dlen = crate::utils::str_to_chars(resource.data.as_str()).len();
        if dlen < usize::MAX / 8 {
            let enc = base64_encode(resource.data.as_str());
            let v = concat3("data:", resource.content_type.as_str(), ";base64,", enc.as_str());
            let t = crate::utils::trim_chars(v.as_slice());
            Some(crate::utils::chars_to_string_all(t.as_slice()))
        } else {
            None
        }
    }
}

proof fn lemma_badfilter_ids_step(fs: Seq<NetworkFilterView>, k: int)
    requires
        0 <= k < fs.len(),
    ensures
        badfilter_ids(fs, k + 1) == if has_flag(fs[k].mask, BAD_FILTER) {
            badfilter_ids(fs, k).insert(nf_id_without_badfilter(fs[k]))
        } else {
            badfilter_ids(fs, k)
        },
{
    let a = badfilter_ids(fs, k + 1);
    let b = if has_flag(fs[k].mask, BAD_FILTER) {
        badfilter_ids(fs, k).insert(nf_id_without_badfilter(fs[k]))
    } else {
        badfilter_ids(fs, k)
    };
    assert forall|x: u64| a.contains(x) <==> b.contains(x) by {
        if a.contains(x) {
            let j = choose|j: int| 0 <= j < k + 1 && j < fs.len() && has_flag(fs[j].mask, BAD_FILTER)
                && nf_id_without_badfilter(#[trigger] fs[j]) == x;
            if j < k {
                assert(badfilter_ids(fs, k).contains(x));
            }
        }
        if badfilter_ids(fs, k).contains(x) {
            let j = choose|j: int| 0 <= j < k && j < fs.len() && has_flag(fs[j].mask, BAD_FILTER)
                && nf_id_without_badfilter(#[trigger] fs[j]) == x;
            assert(a.contains(x));
        }
        if has_flag(fs[k].mask, BAD_FILTER) && x == nf_id_without_badfilter(fs[k]) {
            assert(a.contains(x));
        }
    }
    assert(a =~= b);
}

/// Whether `id` is among `ids`.
pub fn contains_id(ids: &Vec<u64>, id: u64) -> (r: bool)
    ensures
        r == ids@.contains(id),
{
    let mut i: usize = 0;
    while i < ids.len()
        invariant
            i <= ids@.len(),
            forall|j: int| 0 <= j < i ==> ids@[j] != id,
        decreases ids.len() - i,
    {
        if ids[i] == id {
            assert(ids@[i as int] == id);
            return true;
        }
        i += 1;
    }
    false
}

/// Whether `v` holds the tag `t`.
fn contains_tag(v: &Vec<String>, t: &str) -> (r: bool)
    ensures
        r == tag_set(v@).contains(t@),
{
    let mut i: usize = 0;
    while i < v.len()
        invariant
            i <= v@.len(),
            forall|j: int| 0 <= j < i ==> (#[trigger] v@[j])@ != t@,
        decreases v.len() - i,
    {
        if crate::utils::str_eq(v[i].as_str(), t) {
            assert(v@[i as int]@ == t@);
            return true;
        }
        i += 1;
    }
    false
}

fn copy_tags(v: &Vec<String>) -> (r: Vec<String>)
    ensures
        tag_set(r@) == tag_set(v@),
{
    let mut out: Vec<String> = Vec::new();
    let mut i: usize = 0;
    while i < v.len()
        invariant
            i <= v@.len(),
            out@.len() == i,
            forall|j: int| 0 <= j < i ==> (#[trigger] out@[j])@ == v@[j]@,
        decreases v.len() - i,
    {
        out.push(v[i].clone());
        i += 1;
    }
    proof {
        assert(tag_set(out@) =~= tag_set(v@)) by {
            assert forall|t: Seq<char>| tag_set(out@).contains(t) implies tag_set(v@).contains(t) by {
                let j = choose|j: int| 0 <= j < out@.len() && (#[trigger] out@[j])@ == t;
                assert(v@[j]@ == t);
            }
            assert forall|t: Seq<char>| tag_set(v@).contains(t) implies tag_set(out@).contains(t) by {
                let j = choose|j: int| 0 <= j < v@.len() && (#[trigger] v@[j])@ == t;
                assert(out@[j]@ == t);
            }
        }
    }
    out
}

proof fn lemma_select_tagged_empty(all: Seq<NetworkFilterView>, exception: bool, n: int)
    ensures
        select_tagged(all, Set::empty(), exception, n) == Seq::<NetworkFilterView>::empty(),
    decreases n,
{
    if n > 0 {
        lemma_select_tagged_empty(all, exception, n - 1);
    }
}

/// A list built from no filters is empty, with or without merging.
pub proof fn lemma_list_new_empty(opt: bool)
    ensures
        spec_list_build(Seq::empty(), opt) == Map::<u64, Seq<NetworkFilterView>>::empty(),
{
    if opt {
        assert(spec_list_build(Seq::empty(), opt) =~= Map::<u64, Seq<NetworkFilterView>>::empty());
    }
}

/// The identifiers that the `$badfilter` filters among `network_filters` cancel.
pub fn collect_badfilter_ids(network_filters: &Vec<NetworkFilter>) -> (bad: Vec<u64>)
    ensures
        forall|id: u64|
            #[trigger] bad@.contains(id) <==> badfilter_ids(
                filters_view(network_filters@),
                network_filters@.len() as int,
            ).contains(id),
{
    let ghost fs = filters_view(network_filters@);
    let n = network_filters.len();
    let mut bad: Vec<u64> = Vec::new();
    let mut i: usize = 0;
    while i < n
        invariant
            n == network_filters@.len(),
            fs == filters_view(network_filters@),
            i <= n,
            forall|id: u64| #[trigger] bad@.contains(id) <==> badfilter_ids(fs, i as int).contains(id),
        decreases n - i,
    {
        let ghost old_bad = bad@;
        proof {
            lemma_badfilter_ids_step(fs, i as int);
            assert(fs[i as int] == network_filters@[i as int]@);
        }
        if network_filters[i].is_badfilter() {
            let id = filter_id_without_badfilter(&network_filters[i]);
            bad.push(id);
            proof {
                assert forall|x: u64| #[trigger] bad@.contains(x) <==> old_bad.contains(x) || x == id by {
                    if bad@.contains(x) && x != id {
                        let j = choose|j: int| 0 <= j < bad@.len() && bad@[j] == x;
                        assert(old_bad[j] == x);
                    }
                    if old_bad.contains(x) {
                        let j = choose|j: int| 0 <= j < old_bad.len() && old_bad[j] == x;
                        assert(bad@[j] == x);
                    }
                    if x == id {
                        assert(bad@[bad@.len() - 1] == x);
                    }
                }
            }
        }
        i += 1;
    }
    bad
}

/// The lists, tagged filters, options and resources of `a` and `b` agree; only tags and the
/// tagged lists may differ.
pub open spec fn same_but_tags(a: Blocker, b: Blocker) -> bool {
    &&& a.csp@ == b.csp@
    &&& a.exceptions@ == b.exceptions@
    &&& a.importants@ == b.importants@
    &&& a.redirects@ == b.redirects@
    &&& a.filters@ == b.filters@
    &&& filters_view(a.tagged_filters_all@) == filters_view(b.tagged_filters_all@)
    &&& a.debug == b.debug
    &&& a.enable_optimizations == b.enable_optimizations
    &&& a.load_cosmetic_filters == b.load_cosmetic_filters
    &&& a.load_network_filters == b.load_network_filters
    &&& a.resources@ == b.resources@
}

impl Blocker {
    /// Files the filters by list (see `spec_category`). `$badfilter` filters are dropped
    /// together with the filters they cancel (same identifier once `$badfilter` is set aside);
    /// nothing is loaded when `load_network_filters` is off. No tag is enabled. With
    /// `enable_optimizations`, each list merges the filters that may be merged (see
    /// `spec_list_build`). Without it, each filter that is kept is then found by
    /// `filter_exists` (see `law_new_blocker_has_its_filters`).
    pub fn new(network_filters: Vec<NetworkFilter>, options: &BlockerOptions) -> (r: Blocker)
        ensures
            r.csp@ == spec_list_build(
                initial_list(filters_view(network_filters@), options.load_network_filters, FilterCategory::Csp),
                options.enable_optimizations,
            ),
            r.exceptions@ == spec_list_build(
                initial_list(filters_view(network_filters@), options.load_network_filters, FilterCategory::Exception),
                options.enable_optimizations,
            ),
            r.importants@ == spec_list_build(
                initial_list(filters_view(network_filters@), options.load_network_filters, FilterCategory::Important),
                options.enable_optimizations,
            ),
            r.redirects@ == spec_list_build(
                initial_list(filters_view(network_filters@), options.load_network_filters, FilterCategory::Redirect),
                options.enable_optimizations,
            ),
            r.filters@ == spec_list_build(
                initial_list(filters_view(network_filters@), options.load_network_filters, FilterCategory::Plain),
                options.enable_optimizations,
            ),
            filters_view(r.tagged_filters_all@) == initial_list(
                filters_view(network_filters@),
                options.load_network_filters,
                FilterCategory::Tagged,
            ),
            tag_set(r.tags_enabled@) == Set::<Seq<char>>::empty(),
            tagged_lists_agree(r),
            r.debug == options.debug,
            r.enable_optimizations == options.enable_optimizations,
            r.load_cosmetic_filters == options.load_cosmetic_filters,
            r.load_network_filters == options.load_network_filters,
            r.resources@ == Map::<Seq<char>, (Seq<char>, Seq<char>)>::empty(),
    {
        let ghost fs = filters_view(network_filters@);
        let n = network_filters.len();
        let load = options.load_network_filters;
        let mut csp: Vec<NetworkFilter> = Vec::new();
        let mut exceptions: Vec<NetworkFilter> = Vec::new();
        let mut importants: Vec<NetworkFilter> = Vec::new();
        let mut redirects: Vec<NetworkFilter> = Vec::new();
        let mut tagged: Vec<NetworkFilter> = Vec::new();
        let mut plain: Vec<NetworkFilter> = Vec::new();
        if n > 0 && load {
            let bad = collect_badfilter_ids(&network_filters);
            let ghost bad_set = badfilter_ids(fs, n as int);
            let mut i: usize = 0;
            while i < n
                invariant
                    n == network_filters@.len(),
                    fs == filters_view(network_filters@),
                    i <= n,
                    bad_set == badfilter_ids(fs, n as int),
                    forall|id: u64| #[trigger] bad@.contains(id) <==> bad_set.contains(id),
                    filters_view(csp@) == select_category(fs, bad_set, FilterCategory::Csp, i as int),
                    filters_view(exceptions@) == select_category(fs, bad_set, FilterCategory::Exception, i as int),
                    filters_view(importants@) == select_category(fs, bad_set, FilterCategory::Important, i as int),
                    filters_view(redirects@) == select_category(fs, bad_set, FilterCategory::Redirect, i as int),
                    filters_view(tagged@) == select_category(fs, bad_set, FilterCategory::Tagged, i as int),
                    filters_view(plain@) == select_category(fs, bad_set, FilterCategory::Plain, i as int),
                decreases n - i,
            {
                let f = &network_filters[i];
                proof {
                    assert(fs[i as int] == f@);
                }
                let id = filter_id(f);
                if !f.is_badfilter() && !contains_id(&bad, id) {
                    let c = category(f);
                    let g = f.clone();
                    match c {
                        FilterCategory::Csp => {
                            let ghost b = csp@;
                            csp.push(g);
                            proof { assert(filters_view(csp@) =~= filters_view(b).push(g@)); }
                        },
                        FilterCategory::Exception => {
                            let ghost b = exceptions@;
                            exceptions.push(g);
                            proof { assert(filters_view(exceptions@) =~= filters_view(b).push(g@)); }
                        },
                        FilterCategory::Important => {
                            let ghost b = importants@;
                            importants.push(g);
                            proof { assert(filters_view(importants@) =~= filters_view(b).push(g@)); }
                        },
                        FilterCategory::Redirect => {
                            let ghost b = redirects@;
                            redirects.push(g);
                            proof { assert(filters_view(redirects@) =~= filters_view(b).push(g@)); }
                        },
                        FilterCategory::Tagged => {
                            let ghost b = tagged@;
                            tagged.push(g);
                            proof { assert(filters_view(tagged@) =~= filters_view(b).push(g@)); }
                        },
                        FilterCategory::Plain => {
                            let ghost b = plain@;
                            plain.push(g);
                            proof { assert(filters_view(plain@) =~= filters_view(b).push(g@)); }
                        },
                    }
                }
                i += 1;
            }
        } else {
            proof {
                assert(filters_view(csp@) =~= Seq::<NetworkFilterView>::empty());
                assert(filters_view(exceptions@) =~= Seq::<NetworkFilterView>::empty());
                assert(filters_view(importants@) =~= Seq::<NetworkFilterView>::empty());
                assert(filters_view(redirects@) =~= Seq::<NetworkFilterView>::empty());
                assert(filters_view(tagged@) =~= Seq::<NetworkFilterView>::empty());
                assert(filters_view(plain@) =~= Seq::<NetworkFilterView>::empty());
            }
        }
        let opt = options.enable_optimizations;
        let tags: Vec<String> = Vec::new();
        proof {
            assert(tag_set(tags@) =~= Set::<Seq<char>>::empty());
            let all = filters_view(tagged@);
            lemma_select_tagged_empty(all, false, all.len() as int);
            lemma_select_tagged_empty(all, true, all.len() as int);
            lemma_list_new_empty(options.enable_optimizations);
        }
        let r = Blocker {
            csp: NetworkFilterList::new(csp, opt),
            exceptions: NetworkFilterList::new(exceptions, opt),
            importants: NetworkFilterList::new(importants, opt),
            redirects: NetworkFilterList::new(redirects, opt),
            filters_tagged: NetworkFilterList::empty(),
            exceptions_tagged: NetworkFilterList::empty(),
            filters: NetworkFilterList::new(plain, opt),
            tags_enabled: tags,
            tagged_filters_all: tagged,
            debug: options.debug,
            enable_optimizations: opt,
            load_cosmetic_filters: options.load_cosmetic_filters,
            load_network_filters: load,
            resources: RedirectResourceStorage::new(),
        };
        r
    }
}

impl Blocker {
    /// Whether a `$generichide` exception matches the request: generic cosmetic rules are then
    /// not to be applied to the page.
    pub fn check_generic_hide(&self, request: &Request) -> (r: bool)
        ensures
            r == first_flagged_match(
                self.exceptions@,
                match_tokens(*request),
                *request,
                GENERIC_HIDE,
            ) is Some,
    {
        self.exceptions.check_flagged(request, GENERIC_HIDE).is_some()
    }

    /// Decides whether a request is blocked, excepted or redirected, counting the work in
    /// `stats`. Nothing is checked when network filters are not loaded or the request's scheme
    /// is not supported.
    pub fn check_with_stats(&self, request: &Request, stats: &mut MatchDebugStats) -> (r: BlockerResult)
        ensures
            spec_check_result(*self, *request, r),
            final(stats).filters_checked >= old(stats).filters_checked,
            r.filter is None ==> final(stats).filters_matched == old(stats).filters_matched,
            r.filter is Some && r.exception is None ==> final(stats).filters_matched
                == old(stats).filters_matched.saturating_add(1),
            r.filter is Some ==> final(stats).last_match_stage == Some(MatchStage::Pattern)
                && final(stats).filters_checked >= 1,
    {
        if !self.load_network_filters || !request.is_supported {
            return BlockerResult::default();
        }
        let filter: Option<&NetworkFilter> = match self.importants.check_in(request, stats) {
            Some(f) => Some(f),
            None => match self.filters_tagged.check_in(request, stats) {
                Some(f) => Some(f),
                None => match self.redirects.check_in(request, stats) {
                    Some(f) => Some(f),
                    None => self.filters.check_in(request, stats),
                },
            },
        };
        let ghost after_filter = *stats;
        let exception: Option<&NetworkFilter> = match filter {
            Some(f) => if f.is_important() {
                None
            } else {
                match self.exceptions.check_in(request, stats) {
                    Some(e) => Some(e),
                    None => self.exceptions_tagged.check_in(request, stats),
                }
            },
            None => None,
        };
        let redirect: Option<String> = match filter {
            Some(f) => if f.is_redirect() {
                match &f.modifier_option {
                    Some(name) => match self.resources.get_resource(name.as_str()) {
                        Some(res) => data_url(res),
                        None => None,
                    },
                    None => None,
                }
            } else {
                None
            },
            None => None,
        };
        let important = match filter {
            Some(f) => f.is_important(),
            None => false,
        };
        let matched = exception.is_none() && filter.is_some();
        BlockerResult {
            matched,
            important,
            redirect,
            exception: text_of(exception),
            filter: text_of(filter),
            error: None,
        }
    }

    /// Decides whether a request is blocked, excepted or redirected.
    pub fn check(&self, request: &Request) -> (r: BlockerResult)
        ensures
            spec_check_result(*self, *request, r),
    {
        let mut stats = MatchDebugStats::default();
        self.check_with_stats(request, &mut stats)
    }

    /// Whether the blocker holds a filter with the identifier of `filter`, in the list that
    /// `filter` belongs to.
    pub fn filter_exists(&self, filter: &NetworkFilter) -> (r: Result<bool, BlockerError>)
        ensures
            r == Ok::<bool, BlockerError>(spec_blocker_filter_exists(*self, filter@)),
    {
        match category(filter) {
            FilterCategory::Csp => self.csp.filter_exists(filter),
            FilterCategory::Tagged => {
                let mut i: usize = 0;
                while i < self.tagged_filters_all.len()
                    invariant
                        i <= self.tagged_filters_all@.len(),
                        spec_category(filter@) == FilterCategory::Tagged,
                        forall|j: int| 0 <= j < i ==> (#[trigger] self.tagged_filters_all@[j]).id != filter.id,
                    decreases self.tagged_filters_all.len() - i,
                {
                    if self.tagged_filters_all[i].id == filter.id {
                        proof {
                            assert(self.tagged_filters_all@[i as int].id == filter.id);
                            assert(spec_category(filter@) == FilterCategory::Tagged);
                            assert(0 <= i < self.tagged_filters_all@.len());
                            assert(spec_blocker_filter_exists(*self, filter@));
                        }
                        return Ok(true);
                    }
                    i += 1;
                }
                Ok(false)
            },
            FilterCategory::Exception => self.exceptions.filter_exists(filter),
            FilterCategory::Important => self.importants.filter_exists(filter),
            FilterCategory::Redirect => self.redirects.filter_exists(filter),
            FilterCategory::Plain => self.filters.filter_exists(filter),
        }
    }

    /// Sets the enabled tags and refiles the tagged filters whose tag is enabled.
    fn tags_with_set(&mut self, tags: Vec<String>)
        ensures
            tag_set(final(self).tags_enabled@) == tag_set(tags@),
            tagged_lists_agree(*final(self)),
            same_but_tags(*final(self), *old(self)),
    {
        self.tags_enabled = tags;
        let ghost all = filters_view(self.tagged_filters_all@);
        let ghost set = tag_set(self.tags_enabled@);
        let mut plain: Vec<NetworkFilter> = Vec::new();
        let mut exc: Vec<NetworkFilter> = Vec::new();
        let mut i: usize = 0;
        while i < self.tagged_filters_all.len()
            invariant
                i <= self.tagged_filters_all@.len(),
                all == filters_view(self.tagged_filters_all@),
                set == tag_set(self.tags_enabled@),
                filters_view(plain@) == select_tagged(all, set, false, i as int),
                filters_view(exc@) == select_tagged(all, set, true, i as int),
            decreases self.tagged_filters_all.len() - i,
        {
            let f = &self.tagged_filters_all[i];
            proof {
                assert(all[i as int] == f@);
            }
            match &f.tag {
                Some(t) => {
                    if contains_tag(&self.tags_enabled, t.as_str()) {
                        let g = f.clone();
                        if f.is_exception() {
                            let ghost b = exc@;
                            exc.push(g);
                            proof {
                                assert(filters_view(exc@) =~= filters_view(b).push(g@));
                            }
                        } else {
                            let ghost b = plain@;
                            plain.push(g);
                            proof {
                                assert(filters_view(plain@) =~= filters_view(b).push(g@));
                            }
                        }
                    }
                },
                None => {},
            }
            i += 1;
        }
        let opt = self.enable_optimizations;
        self.filters_tagged = NetworkFilterList::new(plain, opt);
        self.exceptions_tagged = NetworkFilterList::new(exc, opt);
    }

    /// Enables exactly the given tags.
    pub fn with_tags(&mut self, tags: &[&str])
        ensures
            tag_set(final(self).tags_enabled@) == str_set(tags@),
            tagged_lists_agree(*final(self)),
            same_but_tags(*final(self), *old(self)),
    {
        let mut v: Vec<String> = Vec::new();
        let mut i: usize = 0;
        while i < tags.len()
            invariant
                i <= tags@.len(),
                v@.len() == i,
                forall|j: int| 0 <= j < i ==> (#[trigger] v@[j])@ == tags@[j]@,
            decreases tags.len() - i,
        {
            v.push(tags[i].to_owned());
            i += 1;
        }
        proof {
            assert(tag_set(v@) =~= str_set(tags@)) by {
                assert forall|t: Seq<char>| tag_set(v@).contains(t) implies str_set(tags@).contains(t) by {
                    let j = choose|j: int| 0 <= j < v@.len() && (#[trigger] v@[j])@ == t;
                    assert(tags@[j]@ == t);
                }
                assert forall|t: Seq<char>| str_set(tags@).contains(t) implies tag_set(v@).contains(t) by {
                    let j = choose|j: int| 0 <= j < tags@.len() && (#[trigger] tags@[j])@ == t;
                    assert(v@[j]@ == t);
                }
            }
        }
        self.tags_with_set(v);
    }

    /// Enables the given tags in addition to those already enabled.
    pub fn tags_enable(&mut self, tags: &[&str])
        ensures
            tag_set(final(self).tags_enabled@) == tag_set(old(self).tags_enabled@).union(str_set(tags@)),
            tagged_lists_agree(*final(self)),
            same_but_tags(*final(self), *old(self)),
    {
        let mut v = copy_tags(&self.tags_enabled);
        let ghost base = tag_set(self.tags_enabled@);
        let mut i: usize = 0;
        while i < tags.len()
            invariant
                i <= tags@.len(),
                base == tag_set(self.tags_enabled@),
                tag_set(v@) == base.union(str_set(tags@.subrange(0, i as int))),
            decreases tags.len() - i,
        {
            let ghost before = v@;
            if !contains_tag(&v, tags[i]) {
                v.push(tags[i].to_owned());
            }
            i += 1;
            proof {
                let now = str_set(tags@.subrange(0, i as int));
                let prev = str_set(tags@.subrange(0, i - 1));
                assert forall|t: Seq<char>| tag_set(v@).contains(t) <==> base.union(now).contains(t) by {
                    if tag_set(v@).contains(t) {
                        let j = choose|j: int| 0 <= j < v@.len() && (#[trigger] v@[j])@ == t;
                        if j < before.len() {
                            assert(tag_set(before).contains(t));
                            if prev.contains(t) {
                                let k = choose|k: int| 0 <= k < i - 1 && (#[trigger] tags@.subrange(0, i - 1)[k])@ == t;
                                assert(tags@.subrange(0, i as int)[k]@ == t);
                            }
                        } else {
                            assert(tags@.subrange(0, i as int)[i - 1]@ == t);
                        }
                    }
                    if base.union(now).contains(t) {
                        if now.contains(t) {
                            let k = choose|k: int| 0 <= k < i && (#[trigger] tags@.subrange(0, i as int)[k])@ == t;
                            if k < i - 1 {
                                assert(tags@.subrange(0, i - 1)[k]@ == t);
                                assert(tag_set(before).contains(t));
                            } else {
                                assert(tags@[i - 1]@ == t);
                            }
                        } else {
                            assert(tag_set(before).contains(t));
                        }
                        if tag_set(before).contains(t) {
                            let j = choose|j: int| 0 <= j < before.len() && (#[trigger] before[j])@ == t;
                            assert(v@[j]@ == t);
                        }
                        if t == tags@[i - 1]@ && !tag_set(before).contains(t) {
                            assert(v@[v@.len() - 1]@ == t);
                        }
                    }
                }
                assert(tag_set(v@) =~= base.union(now));
            }
        }
        proof {
            assert(tags@.subrange(0, tags@.len() as int) =~= tags@);
        }
        self.tags_with_set(v);
    }

    /// Disables the given tags.
    pub fn tags_disable(&mut self, tags: &[&str])
        ensures
            tag_set(final(self).tags_enabled@) == tag_set(old(self).tags_enabled@).difference(str_set(tags@)),
            tagged_lists_agree(*final(self)),
            same_but_tags(*final(self), *old(self)),
    {
        let mut v: Vec<String> = Vec::new();
        let ghost cur = self.tags_enabled@;
        let ghost drop = str_set(tags@);
        let mut i: usize = 0;
        while i < self.tags_enabled.len()
            invariant
                i <= cur.len(),
                cur == self.tags_enabled@,
                drop == str_set(tags@),
                tag_set(v@) == tag_set(cur.subrange(0, i as int)).difference(drop),
            decreases self.tags_enabled.len() - i,
        {
            let t = self.tags_enabled[i].as_str();
            let mut found = false;
            let mut k: usize = 0;
            while k < tags.len()
                invariant
                    k <= tags@.len(),
                    found == exists|j: int| 0 <= j < k && (#[trigger] tags@[j])@ == t@,
                decreases tags.len() - k,
            {
                if crate::utils::str_eq(tags[k], t) {
                    found = true;
                }
                k += 1;
            }
            let ghost before = v@;
            if !found {
                v.push(self.tags_enabled[i].clone());
            }
            i += 1;
            proof {
                let now = tag_set(cur.subrange(0, i as int));
                let prev = tag_set(cur.subrange(0, i - 1));
                assert(found == drop.contains(t@));
                assert forall|x: Seq<char>| tag_set(v@).contains(x) <==> now.difference(drop).contains(x) by {
                    if tag_set(v@).contains(x) {
                        let j = choose|j: int| 0 <= j < v@.len() && (#[trigger] v@[j])@ == x;
                        if j < before.len() {
                            assert(tag_set(before).contains(x));
                            let q = choose|q: int| 0 <= q < i - 1 && (#[trigger] cur.subrange(0, i - 1)[q])@ == x;
                            assert(cur.subrange(0, i as int)[q]@ == x);
                        } else {
                            assert(cur.subrange(0, i as int)[i - 1]@ == x);
                        }
                    }
                    if now.difference(drop).contains(x) {
                        let q = choose|q: int| 0 <= q < i && (#[trigger] cur.subrange(0, i as int)[q])@ == x;
                        if q < i - 1 {
                            assert(cur.subrange(0, i - 1)[q]@ == x);
                            assert(tag_set(before).contains(x));
                            let j = choose|j: int| 0 <= j < before.len() && (#[trigger] before[j])@ == x;
                            assert(v@[j]@ == x);
                        } else {
                            assert(x == t@);
                            assert(v@[v@.len() - 1]@ == x);
                        }
                    }
                }
                assert(tag_set(v@) =~= now.difference(drop));
            }
        }
        proof {
            assert(cur.subrange(0, cur.len() as int) =~= cur);
        }
        self.tags_with_set(v);
    }

    /// The enabled tags.
    pub fn tags_enabled(&self) -> (r: Vec<String>)
        ensures
            tag_set(r@) == tag_set(self.tags_enabled@),
    {
        copy_tags(&self.tags_enabled)
    }

    /// Replaces the redirect resources.
    pub fn with_resources(&mut self, resources: &[crate::resources::Resource])
        ensures
            final(self).resources@ == crate::redirect_resources::resources_map(resources@),
    {
        self.resources = RedirectResourceStorage::from_resources(resources);
    }

    /// Adds a redirect resource (under its name and aliases).
    pub fn resource_add(&mut self, resource: crate::resources::Resource)
        ensures
            final(self).resources@ == crate::redirect_resources::add_all(
                old(self).resources@,
                crate::redirect_resources::resource_entries(resource),
            ),
    {
        self.resources.add_resource(resource);
    }

    /// The redirect resource stored under `key`.
    pub fn resource_get(&self, key: &str) -> (r: Option<&RedirectResource>)
        ensures
            match r {
                Some(x) => self.resources@.contains_key(key@) && self.resources@[key@] == x@,
                None => !self.resources@.contains_key(key@),
            },
    {
        self.resources.get_resource(key)
    }
}

/// Read after write for redirect resources: once `resource_add(r)` has turned `a` into `b`,
/// `resource_get` on the name or any alias of a MIME resource `r` gives `r`'s content type and
/// content, and on every other key gives what it gave before; a template resource adds nothing.
pub proof fn law_resource_read_after_write(a: Blocker, b: Blocker, r: crate::resources::Resource)
    requires
        b.resources@ == crate::redirect_resources::add_all(
            a.resources@,
            crate::redirect_resources::resource_entries(r),
        ),
    ensures
        r.kind is Mime ==> b.resources@.contains_key(r.name@) && b.resources@[r.name@] == (
            crate::resources::spec_mime_str(r.kind->0),
            r.content@,
        ),
        r.kind is Mime ==> forall|i: int|
            0 <= i < r.aliases@.len() ==> b.resources@.contains_key((#[trigger] r.aliases@[i])@)
                && b.resources@[r.aliases@[i]@] == (
                crate::resources::spec_mime_str(r.kind->0),
                r.content@,
            ),
        forall|k: Seq<char>|
            k != r.name@ && (forall|i: int| 0 <= i < r.aliases@.len() ==> (#[trigger] r.aliases@[i])@
                != k) ==> (#[trigger] b.resources@.contains_key(k)) == a.resources@.contains_key(k)
                && (a.resources@.contains_key(k) ==> b.resources@[k] == a.resources@[k]),
        r.kind is Template ==> b.resources@ == a.resources@,
{
    if r.kind is Mime {
        crate::redirect_resources::law_added_resource_found(a.resources@, r);
    } else {
        assert(crate::redirect_resources::resource_entries(r) =~= Seq::empty());
    }
}

/// `b` is `a` with `f` filed in list `c`: the other lists, tags, options and resources stay.
pub open spec fn added_to(a: Blocker, b: Blocker, f: NetworkFilterView) -> bool {
    let g = spec_get_tokens(f);
    let c = spec_category(f);
    &&& b.csp@ == (if c == FilterCategory::Csp {
        file_groups_dynamic(a.csp@, f, g, g.len() as int)
    } else {
        a.csp@
    })
    &&& b.exceptions@ == (if c == FilterCategory::Exception {
        file_groups_dynamic(a.exceptions@, f, g, g.len() as int)
    } else {
        a.exceptions@
    })
    &&& b.importants@ == (if c == FilterCategory::Important {
        file_groups_dynamic(a.importants@, f, g, g.len() as int)
    } else {
        a.importants@
    })
    &&& b.redirects@ == (if c == FilterCategory::Redirect {
        file_groups_dynamic(a.redirects@, f, g, g.len() as int)
    } else {
        a.redirects@
    })
    &&& b.filters@ == (if c == FilterCategory::Plain {
        file_groups_dynamic(a.filters@, f, g, g.len() as int)
    } else {
        a.filters@
    })
    &&& filters_view(b.tagged_filters_all@) == (if c == FilterCategory::Tagged {
        filters_view(a.tagged_filters_all@).push(f)
    } else {
        filters_view(a.tagged_filters_all@)
    })
    &&& c == FilterCategory::Tagged ==> tagged_lists_agree(b)
    &&& c != FilterCategory::Tagged ==> b.filters_tagged@ == a.filters_tagged@
        && b.exceptions_tagged@ == a.exceptions_tagged@
    &&& tag_set(b.tags_enabled@) == tag_set(a.tags_enabled@)
    &&& b.debug == a.debug
    &&& b.enable_optimizations == a.enable_optimizations
    &&& b.load_cosmetic_filters == a.load_cosmetic_filters
    &&& b.load_network_filters == a.load_network_filters
    &&& b.resources@ == a.resources@
}

impl Blocker {
    /// Adds a filter to the list it belongs to. `$badfilter` filters cannot be added, and a
    /// filter whose identifier is already there is refused.
    pub fn filter_add(&mut self, filter: NetworkFilter) -> (r: Result<(), BlockerError>)
        ensures
            has_flag(filter@.mask, BAD_FILTER) ==> r == Err::<(), BlockerError>(
                BlockerError::BadFilterAddUnsupported,
            ) && *final(self) == *old(self),
            !has_flag(filter@.mask, BAD_FILTER) && spec_blocker_filter_exists(*old(self), filter@)
                ==> r == Err::<(), BlockerError>(BlockerError::FilterExists) && *final(self) == *old(self),
            !has_flag(filter@.mask, BAD_FILTER) && !spec_blocker_filter_exists(*old(self), filter@)
                ==> r == Ok::<(), BlockerError>(()) && added_to(*old(self), *final(self), filter@),
    {
        if filter.is_badfilter() {
            return Err(BlockerError::BadFilterAddUnsupported);
        }
        match self.filter_exists(&filter) {
            Ok(true) => {
                return Err(BlockerError::FilterExists);
            },
            _ => {},
        }
        let ghost fv = filter@;
        match category(&filter) {
            FilterCategory::Csp => self.csp.filter_add(filter),
            FilterCategory::Tagged => {
                let ghost before = self.tagged_filters_all@;
                self.tagged_filters_all.push(filter);
                proof {
                    assert(filters_view(self.tagged_filters_all@) =~= filters_view(before).push(fv));
                }
                let t = copy_tags(&self.tags_enabled);
                self.tags_with_set(t);
            },
            FilterCategory::Exception => self.exceptions.filter_add(filter),
            FilterCategory::Important => self.importants.filter_add(filter),
            FilterCategory::Redirect => self.redirects.filter_add(filter),
            FilterCategory::Plain => self.filters.filter_add(filter),
        }
        Ok(())
    }
}

/// A filter added to a blocker is then found there: once `filter_add(f)` has succeeded,
/// `filter_exists(f)` holds, provided `f` has a tag or at least one token group.
pub proof fn law_blocker_added_filter_exists(a: Blocker, b: Blocker, f: NetworkFilterView)
    requires
        added_to(a, b, f),
        spec_category(f) == FilterCategory::Tagged || spec_get_tokens(f).len() > 0,
    ensures
        spec_blocker_filter_exists(b, f),
{
    match spec_category(f) {
        FilterCategory::Tagged => {
            let n = a.tagged_filters_all@.len();
            assert(filters_view(b.tagged_filters_all@)[n as int] == f);
            assert(b.tagged_filters_all@[n as int]@ == f);
            assert(b.tagged_filters_all@[n as int].id == f.id);
        },
        FilterCategory::Csp => law_added_filter_exists(a.csp@, f),
        FilterCategory::Exception => law_added_filter_exists(a.exceptions@, f),
        FilterCategory::Important => law_added_filter_exists(a.importants@, f),
        FilterCategory::Redirect => law_added_filter_exists(a.redirects@, f),
        FilterCategory::Plain => law_added_filter_exists(a.filters@, f),
    }
}

/// What adding `f` to `a` leaves: `a` itself where `f` is a `$badfilter` filter or one with its
/// identifier is already there, else `a` with `f` filed in its list.
pub open spec fn spec_blocker_add(a: Blocker, b: Blocker, f: NetworkFilterView) -> bool {
    if has_flag(f.mask, BAD_FILTER) || spec_blocker_filter_exists(a, f) {
        b == a
    } else {
        added_to(a, b, f)
    }
}

/// Once a filter that is no `$badfilter` filter has been offered to a blocker, whether it was
/// taken or refused as already there, the blocker has it, provided the filter has a tag or at
/// least one token group.
pub proof fn law_offered_filter_exists(a: Blocker, b: Blocker, f: NetworkFilterView)
    requires
        spec_blocker_add(a, b, f),
        !has_flag(f.mask, BAD_FILTER),
        spec_category(f) == FilterCategory::Tagged || spec_get_tokens(f).len() > 0,
    ensures
        spec_blocker_filter_exists(b, f),
{
    if !spec_blocker_filter_exists(a, f) {
        law_blocker_added_filter_exists(a, b, f);
    }
}

/// Disabling tags undoes enabling them: where none of `tags` was enabled in `a`, enabling them
/// (giving `b`) and then disabling them (giving `c`) leaves the tags of `a` enabled.
pub proof fn law_tags_disable_undoes_enable(a: Blocker, b: Blocker, c: Blocker, tags: Seq<&str>)
    requires
        tag_set(b.tags_enabled@) == tag_set(a.tags_enabled@).union(str_set(tags)),
        tag_set(c.tags_enabled@) == tag_set(b.tags_enabled@).difference(str_set(tags)),
        tag_set(a.tags_enabled@).disjoint(str_set(tags)),
    ensures
        tag_set(c.tags_enabled@) == tag_set(a.tags_enabled@),
{
    assert(tag_set(c.tags_enabled@) =~= tag_set(a.tags_enabled@));
}

/// A `$badfilter` filter matches no request.
pub proof fn law_badfilter_never_matches(f: NetworkFilterView, req: Request)
    requires
        has_flag(f.mask, BAD_FILTER),
    ensures
        !spec_matches(f, req),
{
}

/// A filter that a `$badfilter` rule of the same list cancels is filed nowhere.
pub proof fn law_badfilter_cancels(fs: Seq<NetworkFilterView>, i: int, j: int, c: FilterCategory)
    requires
        0 <= i < fs.len(),
        0 <= j < fs.len(),
        has_flag(fs[i].mask, BAD_FILTER),
        nf_id_without_badfilter(fs[i]) == nf_id(fs[j]),
    ensures
        !initial_list(fs, true, c).contains(fs[j]),
{
    let bad = badfilter_ids(fs, fs.len() as int);
    assert(bad.contains(nf_id(fs[j])));
    lemma_select_excludes(fs, bad, c, fs.len() as int, fs[j]);
}

proof fn lemma_select_excludes(fs: Seq<NetworkFilterView>, bad: Set<u64>, c: FilterCategory, n: int, g: NetworkFilterView)
    requires
        bad.contains(nf_id(g)),
    ensures
        !select_category(fs, bad, c, n).contains(g),
    decreases n,
{
    if n > 0 {
        lemma_select_excludes(fs, bad, c, n - 1, g);
        let prev = select_category(fs, bad, c, n - 1);
        let cur = select_category(fs, bad, c, n);
        if cur.contains(g) {
            let k = choose|k: int| 0 <= k < cur.len() && cur[k] == g;
            if k < prev.len() {
                assert(prev[k] == g);
            }
        }
    }
}

} // verus!
