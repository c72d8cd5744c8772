//! Network filters sorted into the lists that the engine stores: `$csp` filters, exceptions,
//! `$important` filters, `$redirect` filters, `$removeparam` filters, plain filters,
//! `$generichide` filters and tagged filters.

use vstd::prelude::*;

use crate::blocker::{badfilter_ids, collect_badfilter_ids, contains_id, filter_id, filters_view, nf_id};
use crate::filters::network::{
    has_flag, NetworkFilter, NetworkFilterView, ALSO_BLOCK_REDIRECT, BAD_FILTER, GENERIC_HIDE, IS_CSP,
    IS_EXCEPTION, IS_IMPORTANT, IS_REDIRECT, IS_REMOVEPARAM,
};

verus! {

/// The lists, in their storage order.
pub enum NetworkFilterListId {
    Csp,
    Exceptions,
    Importants,
    Redirects,
    RemoveParam,
    Filters,
    GenericHide,
    TaggedFiltersAll,
}

/// The number of lists.
pub const LIST_COUNT: usize = 8;

/// The position of a list in storage order.
pub open spec fn list_pos(id: NetworkFilterListId) -> int {
    match id {
        NetworkFilterListId::Csp => 0,
        NetworkFilterListId::Exceptions => 1,
        NetworkFilterListId::Importants => 2,
        NetworkFilterListId::Redirects => 3,
        NetworkFilterListId::RemoveParam => 4,
        NetworkFilterListId::Filters => 5,
        NetworkFilterListId::GenericHide => 6,
        NetworkFilterListId::TaggedFiltersAll => 7,
    }
}

/// The position of a list in storage order.
pub fn list_index(id: &NetworkFilterListId) -> (r: usize)
    ensures
        r == list_pos(*id),
{
    match id {
        NetworkFilterListId::Csp => 0,
        NetworkFilterListId::Exceptions => 1,
        NetworkFilterListId::Importants => 2,
        NetworkFilterListId::Redirects => 3,
        NetworkFilterListId::RemoveParam => 4,
        NetworkFilterListId::Filters => 5,
        NetworkFilterListId::GenericHide => 6,
        NetworkFilterListId::TaggedFiltersAll => 7,
    }
}

/// The list that a filter is filed in, besides the copy that every `$redirect` filter leaves
/// in the redirect list: the first of `$csp`, `$removeparam`, `$generichide`, exception,
/// `$important`, tagged (not a redirect); then the plain list for filters that are no
/// redirect or that also block; `None` for a redirect that does not also block.
pub open spec fn spec_routed_list(f: NetworkFilterView) -> Option<NetworkFilterListId> {
    if has_flag(f.mask, IS_CSP) {
        Some(NetworkFilterListId::Csp)
    } else if has_flag(f.mask, IS_REMOVEPARAM) {
        Some(NetworkFilterListId::RemoveParam)
    } else if has_flag(f.mask, GENERIC_HIDE) {
        Some(NetworkFilterListId::GenericHide)
    } else if has_flag(f.mask, IS_EXCEPTION) {
        Some(NetworkFilterListId::Exceptions)
    } else if has_flag(f.mask, IS_IMPORTANT) {
        Some(NetworkFilterListId::Importants)
    } else if f.tag is Some && !has_flag(f.mask, IS_REDIRECT) {
        Some(NetworkFilterListId::TaggedFiltersAll)
    } else if (has_flag(f.mask, IS_REDIRECT) && has_flag(f.mask, ALSO_BLOCK_REDIRECT)) || !has_flag(
        f.mask,
        IS_REDIRECT,
    ) {
        Some(NetworkFilterListId::Filters)
    } else {
        None
    }
}

/// `lists` with `f` appended to the list at position `i`.
pub open spec fn append_to(lists: Seq<Seq<NetworkFilterView>>, i: int, f: NetworkFilterView) -> Seq<
    Seq<NetworkFilterView>,
> {
    lists.update(i, lists[i].push(f))
}

/// `lists` after filing `f`: a `$redirect` filter is appended to the redirect list, and then
/// the filter to its routed list, if any.
pub open spec fn spec_add_routed(lists: Seq<Seq<NetworkFilterView>>, f: NetworkFilterView) -> Seq<
    Seq<NetworkFilterView>,
> {
    let l1 = if has_flag(f.mask, IS_REDIRECT) {
        append_to(lists, list_pos(NetworkFilterListId::Redirects), f)
    } else {
        lists
    };
    match spec_routed_list(f) {
        Some(id) => append_to(l1, list_pos(id), f),
        None => l1,
    }
}

/// Eight empty lists.
pub open spec fn empty_lists() -> Seq<Seq<NetworkFilterView>> {
    Seq::new(8, |i: int| Seq::<NetworkFilterView>::empty())
}

/// The lists after filing, in order, the first `n` of `fs` that are no `$badfilter` filter
/// and are not cancelled by one of `bad`.
pub open spec fn spec_routed_all(fs: Seq<NetworkFilterView>, bad: Set<u64>, n: int) -> Seq<
    Seq<NetworkFilterView>,
>
    decreases n,
{
    if n <= 0 {
        empty_lists()
    } else {
        let prev = spec_routed_all(fs, bad, n - 1);
        let f = fs[n - 1];
        if !has_flag(f.mask, BAD_FILTER) && !bad.contains(nf_id(f)) {
            spec_add_routed(prev, f)
        } else {
            prev
        }
    }
}

/// The filters of `s` whose identifier is not `id`, in order.
pub open spec fn without_id(s: Seq<NetworkFilterView>, id: u64) -> Seq<NetworkFilterView>
    decreases s.len(),
{
    if s.len() == 0 {
        s
    } else {
        let rest = without_id(s.drop_last(), id);
        if nf_id(s.last()) != id {
            rest.push(s.last())
        } else {
            rest
        }
    }
}

proof fn lemma_without_id_step(s: Seq<NetworkFilterView>, j: int, id: u64)
    requires
        0 <= j < s.len(),
    ensures
        without_id(s.take(j + 1), id) == if nf_id(s[j]) != id {
            without_id(s.take(j), id).push(s[j])
        } else {
            without_id(s.take(j), id)
        },
{
    assert(s.take(j + 1).drop_last() =~= s.take(j));
}

/// The filters of `filters` whose identifier is not `id`, in order.
fn retain_other_ids(filters: &Vec<NetworkFilter>, id: u64) -> (r: Vec<NetworkFilter>)
    ensures
        filters_view(r@) == without_id(filters_view(filters@), id),
{
    let ghost fs = filters_view(filters@);
    let mut kept: Vec<NetworkFilter> = Vec::new();
    let mut j: usize = 0;
    while j < filters.len()
        invariant
            j <= filters@.len(),
            fs == filters_view(filters@),
            filters_view(kept@) == without_id(fs.take(j as int), id),
        decreases filters.len() - j,
    {
        proof {
            lemma_without_id_step(fs, j as int, id);
            assert(fs[j as int] == filters@[j as int]@);
        }
        if filter_id(&filters[j]) != id {
            let ghost before = kept@;
            kept.push(filters[j].clone());
            proof {
                assert(filters_view(kept@) =~= filters_view(before).push(fs[j as int]));
            }
        }
        j += 1;
    }
    proof {
        assert(fs.take(filters@.len() as int) =~= fs);
    }
    kept
}

/// The filters of one list and whether the list is to be optimized.
pub struct NetworkFilterListBuilder {
    filters: Vec<NetworkFilter>,
    optimize: bool,
}

impl NetworkFilterListBuilder {
    fn new(optimize: bool) -> (r: Self)
        ensures
            r.filters@.len() == 0,
            r.optimize == optimize,
    {
        NetworkFilterListBuilder { filters: Vec::new(), optimize }
    }
}

/// Network filters sorted into the lists that the engine stores.
pub struct NetworkRulesBuilder {
    lists: Vec<NetworkFilterListBuilder>,
}

impl NetworkRulesBuilder {
    /// The filters of each list, in storage order.
    pub closed spec fn lists(&self) -> Seq<Seq<NetworkFilterView>> {
        self.lists@.map_values(|l: NetworkFilterListBuilder| filters_view(l.filters@))
    }

    /// Whether each list is to be optimized, in storage order.
    pub closed spec fn optimize_flags(&self) -> Seq<bool> {
        self.lists@.map_values(|l: NetworkFilterListBuilder| l.optimize)
    }

    /// The builder holds one list per list identifier.
    pub open spec fn wf(&self) -> bool {
        self.lists().len() == LIST_COUNT && self.optimize_flags().len() == LIST_COUNT
    }

    /// Eight empty lists, none of them to be optimized.
    pub fn new_incremental() -> (r: Self)
        ensures
            r.wf(),
            r.lists() == empty_lists(),
            r.optimize_flags() == Seq::new(8, |i: int| false),
    {
        let mut lists: Vec<NetworkFilterListBuilder> = Vec::new();
        let mut i: usize = 0;
        while i < LIST_COUNT
            invariant
                i <= LIST_COUNT,
                lists@.len() == i,
                forall|j: int| 0 <= j < i ==> (#[trigger] lists@[j]).filters@.len() == 0 && !lists@[j].optimize,
            decreases LIST_COUNT - i,
        {
            lists.push(NetworkFilterListBuilder::new(false));
            i += 1;
        }
        let r = NetworkRulesBuilder { lists };
        proof {
            assert forall|j: int| 0 <= j < 8 implies #[trigger] r.lists()[j] == Seq::<NetworkFilterView>::empty() by {
                assert(r.lists()[j] == filters_view(r.lists@[j].filters@));
                assert(filters_view(r.lists@[j].filters@) =~= Seq::<NetworkFilterView>::empty());
            }
            assert(r.lists() =~= empty_lists());
            assert(r.optimize_flags() =~= Seq::new(8, |i: int| false));
        }
        r
    }
    /// Marks every list but the `$removeparam` list as to be optimized where `optimize`, and
    /// none otherwise.
    pub fn set_optimize(&mut self, optimize: bool)
        requires
            old(self).wf(),
        ensures
            final(self).wf(),
            final(self).lists() == old(self).lists(),
            final(self).optimize_flags() == Seq::new(
                8,
                |i: int| optimize && i != list_pos(NetworkFilterListId::RemoveParam),
            ),
    {
        let mut i: usize = 0;
        while i < self.lists.len()
            invariant
                self.lists@.len() == LIST_COUNT,
                i <= LIST_COUNT,
                self.lists() == old(self).lists(),
                forall|j: int|
                    0 <= j < i ==> (#[trigger] self.lists@[j]).optimize == (optimize && j != 4),
            decreases LIST_COUNT - i,
        {
            let ghost before = self.lists();
            let list = &mut self.lists[i];
            list.optimize = optimize && i != 4;
            proof {
                assert(self.lists() =~= before);
            }
            i += 1;
        }
        proof {
            assert(self.optimize_flags() =~= Seq::new(
                8,
                |i: int| optimize && i != list_pos(NetworkFilterListId::RemoveParam),
            ));
        }
    }

    fn add_filter(&mut self, network_filter: NetworkFilter, list: usize)
        requires
            old(self).wf(),
            list < LIST_COUNT,
        ensures
            final(self).wf(),
            final(self).lists() == append_to(old(self).lists(), list as int, network_filter@),
            final(self).optimize_flags() == old(self).optimize_flags(),
    {
        let ghost f = network_filter@;
        let entry = &mut self.lists[list];
        entry.filters.push(network_filter);
        proof {
            assert(filters_view(self.lists@[list as int].filters@) =~= old(self).lists()[list as int].push(f));
            assert(self.lists() =~= append_to(old(self).lists(), list as int, f));
            assert(self.optimize_flags() =~= old(self).optimize_flags());
        }
    }

    /// Files `filter`: a `$redirect` filter goes to the redirect list, and then the filter to
    /// the list that `spec_routed_list` gives, if any.
    pub fn add_routed_network_filter(&mut self, filter: NetworkFilter)
        requires
            old(self).wf(),
        ensures
            final(self).wf(),
            final(self).lists() == spec_add_routed(old(self).lists(), filter@),
            final(self).optimize_flags() == old(self).optimize_flags(),
    {
        if filter.is_redirect() {
            self.add_filter(filter.clone(), 3);
        }
        let list_id = if filter.is_csp() {
            NetworkFilterListId::Csp
        } else if filter.is_removeparam() {
            NetworkFilterListId::RemoveParam
        } else if filter.is_generic_hide() {
            NetworkFilterListId::GenericHide
        } else if filter.is_exception() {
            NetworkFilterListId::Exceptions
        } else if filter.is_important() {
            NetworkFilterListId::Importants
        } else if filter.tag.is_some() && !filter.is_redirect() {
            NetworkFilterListId::TaggedFiltersAll
        } else if (filter.is_redirect() && filter.also_block_redirect()) || !filter.is_redirect() {
            NetworkFilterListId::Filters
        } else {
            return;
        };
        let idx = list_index(&list_id);
        self.add_filter(filter, idx);
    }
    /// Drops, from every list, the filters whose identifier is `filter_id`.
    pub fn remove_by_filter_id(&mut self, filter_id: u64)
        requires
            old(self).wf(),
        ensures
            final(self).wf(),
            final(self).lists() == Seq::new(8, |i: int| without_id(old(self).lists()[i], filter_id)),
            final(self).optimize_flags() == old(self).optimize_flags(),
    {
        let mut i: usize = 0;
        while i < self.lists.len()
            invariant
                self.lists@.len() == LIST_COUNT,
                i <= LIST_COUNT,
                self.optimize_flags() == old(self).optimize_flags(),
                forall|j: int| 0 <= j < i ==> #[trigger] self.lists()[j] == without_id(old(self).lists()[j], filter_id),
                forall|j: int| i <= j < LIST_COUNT ==> #[trigger] self.lists()[j] == old(self).lists()[j],
            decreases LIST_COUNT - i,
        {
            let ghost before = self.lists();
            let ghost flags = self.optimize_flags();
            let kept = retain_other_ids(&self.lists[i].filters, filter_id);
            let entry = &mut self.lists[i];
            entry.filters = kept;
            proof {
                assert(self.lists() =~= before.update(i as int, without_id(before[i as int], filter_id)));
                assert(self.optimize_flags() =~= flags);
            }
            i += 1;
        }
        proof {
            assert(self.lists() =~= Seq::new(8, |i: int| without_id(old(self).lists()[i], filter_id)));
        }
    }

    /// Files `network_filters` in order, each list optimized where `optimize` but the
    /// `$removeparam` list. `$badfilter` filters are not filed, nor the filters whose
    /// identifier one of them cancels.
    pub fn from_rules(network_filters: Vec<NetworkFilter>, optimize: bool) -> (r: Self)
        ensures
            r.wf(),
            r.lists() == spec_routed_all(
                filters_view(network_filters@),
                badfilter_ids(filters_view(network_filters@), network_filters@.len() as int),
                network_filters@.len() as int,
            ),
            r.optimize_flags() == Seq::new(
                8,
                |i: int| optimize && i != list_pos(NetworkFilterListId::RemoveParam),
            ),
    {
        let mut lists: Vec<NetworkFilterListBuilder> = Vec::new();
        let mut list_id: usize = 0;
        while list_id < LIST_COUNT
            invariant
                list_id <= LIST_COUNT,
                lists@.len() == list_id,
                forall|j: int|
                    0 <= j < list_id ==> (#[trigger] lists@[j]).filters@.len() == 0 && lists@[j].optimize
                        == (optimize && j != 4),
            decreases LIST_COUNT - list_id,
        {
            lists.push(NetworkFilterListBuilder::new(optimize && list_id != 4));
            list_id += 1;
        }
        let mut builder = NetworkRulesBuilder { lists };
        proof {
            assert forall|j: int| 0 <= j < 8 implies #[trigger] builder.lists()[j] == Seq::<NetworkFilterView>::empty() by {
                assert(builder.lists()[j] == filters_view(builder.lists@[j].filters@));
                assert(filters_view(builder.lists@[j].filters@) =~= Seq::<NetworkFilterView>::empty());
            }
            assert(builder.lists() =~= empty_lists());
            assert(builder.optimize_flags() =~= Seq::new(
                8,
                |i: int| optimize && i != list_pos(NetworkFilterListId::RemoveParam),
            ));
        }
        let ghost fs = filters_view(network_filters@);
        let n = network_filters.len();
        let bad = collect_badfilter_ids(&network_filters);
        let ghost bad_set = badfilter_ids(fs, n as int);
        let ghost flags = builder.optimize_flags();
        let mut i: usize = 0;
        while i < n
            invariant
                n == network_filters@.len(),
                fs == filters_view(network_filters@),
                i <= n,
                bad_set == badfilter_ids(fs, n as int),
                forall|id: u64| #[trigger] bad@.contains(id) <==> bad_set.contains(id),
                builder.wf(),
                builder.optimize_flags() == flags,
                builder.lists() == spec_routed_all(fs, bad_set, i as int),
            decreases n - i,
        {
            let f = &network_filters[i];
            proof {
                assert(fs[i as int] == f@);
            }
            let id = filter_id(f);
            if !f.is_badfilter() && !contains_id(&bad, id) {
                builder.add_routed_network_filter(f.clone());
            }
            i += 1;
        }
        builder
    }

    /// The number of filters in the list `list_id`.
    pub fn list_rule_count(&self, list_id: NetworkFilterListId) -> (r: usize)
        requires
            self.wf(),
        ensures
            r == self.lists()[list_pos(list_id)].len(),
    {
        let idx = list_index(&list_id);
        self.lists[idx].filters.len()
    }
}

/// Each list after filing `f` holds what it held, in order, followed by nothing or by `f`.
proof fn lemma_add_routed_members(lists: Seq<Seq<NetworkFilterView>>, f: NetworkFilterView)
    requires
        lists.len() == 8,
    ensures
        spec_add_routed(lists, f).len() == 8,
        forall|i: int, k: int|
            0 <= i < 8 && 0 <= k < spec_add_routed(lists, f)[i].len() ==> {
                ||| (k < lists[i].len() && #[trigger] spec_add_routed(lists, f)[i][k] == lists[i][k])
                ||| spec_add_routed(lists, f)[i][k] == f
            },
{
    let l1 = if has_flag(f.mask, IS_REDIRECT) {
        append_to(lists, 3, f)
    } else {
        lists
    };
    assert forall|i: int, k: int|
        0 <= i < 8 && 0 <= k < l1[i].len() implies (k < lists[i].len() && l1[i][k] == lists[i][k])
        || l1[i][k] == f by {
        if has_flag(f.mask, IS_REDIRECT) && i == 3 {
            assert(l1[i] == lists[i].push(f));
        }
    }
}

/// No list that filing the first `n` of `fs` fills holds a `$badfilter` filter or a filter
/// whose identifier `bad` holds.
pub proof fn law_routed_lists_skip_cancelled(fs: Seq<NetworkFilterView>, bad: Set<u64>, n: int)
    ensures
        spec_routed_all(fs, bad, n).len() == 8,
        forall|i: int, k: int|
            0 <= i < 8 && 0 <= k < spec_routed_all(fs, bad, n)[i].len() ==> {
                let g = #[trigger] spec_routed_all(fs, bad, n)[i][k];
                !has_flag(g.mask, BAD_FILTER) && !bad.contains(nf_id(g))
            },
    decreases n,
{
    if n > 0 {
        law_routed_lists_skip_cancelled(fs, bad, n - 1);
        let prev = spec_routed_all(fs, bad, n - 1);
        let f = fs[n - 1];
        if !has_flag(f.mask, BAD_FILTER) && !bad.contains(nf_id(f)) {
            lemma_add_routed_members(prev, f);
            assert forall|i: int, k: int|
                0 <= i < 8 && 0 <= k < spec_routed_all(fs, bad, n)[i].len() implies {
                    let g = #[trigger] spec_routed_all(fs, bad, n)[i][k];
                    !has_flag(g.mask, BAD_FILTER) && !bad.contains(nf_id(g))
                } by {
                assert(spec_routed_all(fs, bad, n) == spec_add_routed(prev, f));
                let g = spec_add_routed(prev, f)[i][k];
                if k < prev[i].len() && g == prev[i][k] {
                } else {
                    assert(g == f);
                }
            }
        }
    } else {
        assert(empty_lists().len() == 8);
    }
}

/// After dropping the filters whose identifier is `id`, no filter left has it, and the others
/// keep their order.
pub proof fn law_without_id_drops_exactly(s: Seq<NetworkFilterView>, id: u64)
    ensures
        forall|k: int| 0 <= k < without_id(s, id).len() ==> nf_id(#[trigger] without_id(s, id)[k]) != id,
        without_id(s, id).len() <= s.len(),
        (forall|k: int| 0 <= k < s.len() ==> nf_id(#[trigger] s[k]) != id) ==> without_id(s, id) == s,
    decreases s.len(),
{
    if s.len() > 0 {
        law_without_id_drops_exactly(s.drop_last(), id);
        let rest = without_id(s.drop_last(), id);
        if forall|k: int| 0 <= k < s.len() ==> nf_id(#[trigger] s[k]) != id {
            assert(forall|k: int| 0 <= k < s.drop_last().len() ==> nf_id(#[trigger] s.drop_last()[k]) != id) by {
                assert forall|k: int| 0 <= k < s.drop_last().len() implies nf_id(#[trigger] s.drop_last()[k]) != id by {
                    assert(s.drop_last()[k] == s[k]);
                }
            }
            assert(nf_id(s[s.len() - 1]) != id);
            assert(rest.push(s.last()) =~= s);
        }
    }
}

} // verus!
