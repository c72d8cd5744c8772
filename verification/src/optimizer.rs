//! Merging of network filters: filters that share their option bits, have no domain options,
//! no hostname anchor, and are neither `$redirect`, `$csp` nor complete regular expressions,
//! become one filter whose pattern is the list of all their patterns, matched as a regular
//! expression set.

use vstd::prelude::*;

use crate::blocker::filters_view;
use crate::filters::network::{
    clone_opt_hashes, clone_opt_string, has_flag, FilterPart, FilterPartView, NetworkFilter,
    NetworkFilterMask, NetworkFilterView, IS_COMPLETE_REGEX, IS_CSP, IS_HOSTNAME_ANCHOR,
    IS_REDIRECT, IS_REGEX,
};
use crate::filters::network_matchers::{has_empty, part_alternatives};

verus! {

/// Whether a filter may be merged with others: no `$domain` options, no hostname anchor, and
/// neither `$redirect`, `$csp` nor a complete regular expression.
pub open spec fn spec_select(f: NetworkFilterView) -> bool {
    &&& f.opt_domains is None
    &&& f.opt_not_domains is None
    &&& !has_flag(f.mask, IS_HOSTNAME_ANCHOR)
    &&& !has_flag(f.mask, IS_REDIRECT)
    &&& !has_flag(f.mask, IS_CSP)
    &&& !has_flag(f.mask, IS_COMPLETE_REGEX)
}

/// Whether a filter may be merged with others (see `spec_select`).
pub fn select(f: &NetworkFilter) -> (r: bool)
    ensures
        r == spec_select(f@),
{
    f.opt_domains.is_none() && f.opt_not_domains.is_none() && !f.is_hostname_anchor()
        && !f.is_redirect() && !f.is_csp() && !f.is_complete_regex()
}

/// The filters of `fs` that may (`sel`) or may not be merged, in order.
pub open spec fn spec_selected(fs: Seq<NetworkFilterView>, sel: bool) -> Seq<NetworkFilterView>
    decreases fs.len(),
{
    if fs.len() == 0 {
        Seq::empty()
    } else {
        let p = spec_selected(fs.drop_last(), sel);
        if spec_select(fs.last()) == sel {
            p.push(fs.last())
        } else {
            p
        }
    }
}

/// Index of the first group with option bits `m`, from `i` on.
pub open spec fn group_index(gs: Seq<(u32, Seq<NetworkFilterView>)>, m: u32, i: int) -> Option<int>
    decreases gs.len() - i,
{
    if i < 0 || i >= gs.len() {
        None
    } else if gs[i].0 == m {
        Some(i)
    } else {
        group_index(gs, m, i + 1)
    }
}

/// The groups after adding `f` to the group of its option bits, or as a new last group.
pub open spec fn add_to_groups(gs: Seq<(u32, Seq<NetworkFilterView>)>, f: NetworkFilterView) -> Seq<
    (u32, Seq<NetworkFilterView>),
> {
    match group_index(gs, f.mask, 0) {
        Some(i) => gs.update(i, (gs[i].0, gs[i].1.push(f))),
        None => gs.push((f.mask, seq![f])),
    }
}

/// The filters of `fs` grouped by option bits: groups in the order in which their bits first
/// occur, each group's filters in order.
pub open spec fn spec_groups(fs: Seq<NetworkFilterView>) -> Seq<(u32, Seq<NetworkFilterView>)>
    decreases fs.len(),
{
    if fs.len() == 0 {
        Seq::empty()
    } else {
        add_to_groups(spec_groups(fs.drop_last()), fs.last())
    }
}

/// A pattern that, compiled, matches everything: no alternative, or an empty one.
pub open spec fn matches_all_part(p: FilterPartView) -> bool {
    part_alternatives(p).len() == 0 || has_empty(part_alternatives(p))
}

/// Some filter of `g` has a pattern that matches everything.
pub open spec fn any_matches_all(g: Seq<NetworkFilterView>) -> bool {
    exists|i: int| 0 <= i < g.len() && matches_all_part(#[trigger] g[i].filter)
}

/// The alternatives of the patterns of `g`, in order.
pub open spec fn all_alternatives(g: Seq<NetworkFilterView>) -> Seq<Seq<char>>
    decreases g.len(),
{
    if g.len() == 0 {
        Seq::empty()
    } else {
        all_alternatives(g.drop_last()) + part_alternatives(g.last().filter)
    }
}

/// The rule texts that the filters of `g` keep, in order.
pub open spec fn raw_lines(g: Seq<NetworkFilterView>) -> Seq<Seq<char>>
    decreases g.len(),
{
    if g.len() == 0 {
        Seq::empty()
    } else {
        let p = raw_lines(g.drop_last());
        match g.last().raw_line {
            Some(r) => p.push(r),
            None => p,
        }
    }
}

/// The texts of `l` joined by `sep`.
pub open spec fn join_with(l: Seq<Seq<char>>, sep: Seq<char>) -> Seq<char>
    decreases l.len(),
{
    if l.len() == 0 {
        Seq::empty()
    } else if l.len() == 1 {
        l[0]
    } else {
        join_with(l.drop_last(), sep) + sep + l.last()
    }
}

/// The separator of the rule texts of a merged filter.
pub open spec fn fused_separator() -> Seq<char> {
    seq![' ', '<', '+', '>', ' ']
}

/// The filter that a group of filters (all with the same option bits) becomes: the first
/// filter, marked as a regular expression, with as pattern the list of all the group's pattern
/// alternatives (each compiled as the filter it came from would compile it), and as text the
/// group's texts joined by ` <+> ` when the first keeps its text. When some pattern of the group
/// matches everything, the merged filter matches everything (an empty pattern) and keeps the
/// first filter's text.
pub open spec fn spec_fusion(g: Seq<NetworkFilterView>) -> NetworkFilterView {
    let base = g[0];
    let all = any_matches_all(g);
    NetworkFilterView {
        mask: base.mask | IS_REGEX,
        filter: if all {
            FilterPartView::Simple(Seq::empty())
        } else {
            FilterPartView::AnyOf(all_alternatives(g))
        },
        opt_domains: base.opt_domains,
        opt_not_domains: base.opt_not_domains,
        modifier_option: base.modifier_option,
        hostname: base.hostname,
        tag: base.tag,
        raw_line: if !all && base.raw_line is Some {
            Some(join_with(raw_lines(g), fused_separator()))
        } else {
            base.raw_line
        },
        id: base.id,
        opt_domains_union: base.opt_domains_union,
        opt_not_domains_union: base.opt_not_domains_union,
    }
}

/// The merged filters of the groups with more than one filter, in group order.
pub open spec fn fused_of(gs: Seq<(u32, Seq<NetworkFilterView>)>) -> Seq<NetworkFilterView>
    decreases gs.len(),
{
    if gs.len() == 0 {
        Seq::empty()
    } else {
        let p = fused_of(gs.drop_last());
        if gs.last().1.len() > 1 {
            p.push(spec_fusion(gs.last().1))
        } else {
            p
        }
    }
}

/// The filters of the groups of one filter, in group order.
pub open spec fn singles_of(gs: Seq<(u32, Seq<NetworkFilterView>)>) -> Seq<NetworkFilterView>
    decreases gs.len(),
{
    if gs.len() == 0 {
        Seq::empty()
    } else {
        let p = singles_of(gs.drop_last());
        if gs.last().1.len() > 1 {
            p
        } else {
            p + gs.last().1
        }
    }
}

/// The filters after merging: the merged filters first, then the filters that may not be
/// merged, in order, then the filters that were alone in their group.
pub open spec fn spec_optimize(fs: Seq<NetworkFilterView>) -> Seq<NetworkFilterView> {
    let gs = spec_groups(spec_selected(fs, true));
    fused_of(gs) + spec_selected(fs, false) + singles_of(gs)
}

/// The view of a list of groups.
pub open spec fn groups_view(gs: Seq<(u32, Vec<NetworkFilter>)>) -> Seq<(u32, Seq<NetworkFilterView>)> {
    gs.map_values(|e: (u32, Vec<NetworkFilter>)| (e.0, filters_view(e.1@)))
}

/// Whether a pattern matches everything once compiled.
fn pattern_matches_all(p: &FilterPart) -> (r: bool)
    ensures
        r == matches_all_part(p@),
{
    match p {
        FilterPart::Empty => true,
        FilterPart::Simple(s) => {
            proof {
                if s@.len() == 0 {
                    assert(part_alternatives(p@)[0].len() == 0);
                }
            }
            s.as_str().is_empty()
        },
        FilterPart::AnyOf(v) => {
            let ghost d = v.deep_view();
            assert(part_alternatives(p@) == d);
            let mut i: usize = 0;
            while i < v.len()
                invariant
                    i <= v@.len(),
                    d == v.deep_view(),
                    part_alternatives(p@) == d,
                    forall|j: int| 0 <= j < i ==> d[j].len() != 0,
                decreases v.len() - i,
            {
                assert(d[i as int] == v@[i as int]@);
                if v[i].as_str().is_empty() {
                    proof {
                        assert(d[i as int].len() == 0);
                        assert(has_empty(d));
                        assert(matches_all_part(p@));
                    }
                    return true;
                }
                i += 1;
            }
            v.len() == 0
        },
    }
}

/// `out` followed by the alternatives of `p`.
fn push_alternatives(out: &mut Vec<String>, p: &FilterPart)
    ensures
        final(out).deep_view() == old(out).deep_view() + part_alternatives(p@),
{
    match p {
        FilterPart::Empty => {
            proof {
                assert(out.deep_view() =~= old(out).deep_view() + part_alternatives(p@));
            }
        },
        FilterPart::Simple(s) => {
            out.push(s.clone());
            proof {
                assert(out.deep_view() =~= old(out).deep_view() + part_alternatives(p@));
            }
        },
        FilterPart::AnyOf(v) => {
            let mut i: usize = 0;
            while i < v.len()
                invariant
                    i <= v@.len(),
                    out.deep_view() == old(out).deep_view() + v.deep_view().subrange(0, i as int),
                decreases v.len() - i,
            {
                let ghost before = out.deep_view();
                let c = v[i].clone();
                proof {
                    assert(c@ == v.deep_view()[i as int]);
                }
                out.push(c);
                i += 1;
                proof {
                    assert(out.deep_view() =~= before.push(c@));
                    assert(v.deep_view().subrange(0, i as int) =~= v.deep_view().subrange(
                        0,
                        i - 1,
                    ).push(c@));
                    assert(out.deep_view() =~= old(out).deep_view() + v.deep_view().subrange(
                        0,
                        i as int,
                    ));
                }
            }
            proof {
                assert(v.deep_view().subrange(0, v@.len() as int) =~= v.deep_view());
            }
        },
    }
}

/// `out` followed by the characters of `s`.
fn push_str_chars(out: &mut Vec<char>, s: &str)
    ensures
        final(out)@ == old(out)@ + s@,
{
    let v = crate::utils::str_to_chars(s);
    let mut i: usize = 0;
    while i < v.len()
        invariant
            i <= v@.len(),
            out@ == old(out)@ + v@.subrange(0, i as int),
        decreases v.len() - i,
    {
        out.push(v[i]);
        i += 1;
        proof {
            assert(out@ =~= old(out)@ + v@.subrange(0, i as int));
        }
    }
    proof {
        assert(v@.subrange(0, v@.len() as int) =~= v@);
    }
}

/// The texts of `g` joined by ` <+> `.
#[verifier::rlimit(40)]
fn joined_raw_lines(g: &Vec<NetworkFilter>) -> (r: String)
    ensures
        r@ == join_with(raw_lines(filters_view(g@)), fused_separator()),
{
    let ghost fs = filters_view(g@);
    let mut out: Vec<char> = Vec::new();
    let mut count: usize = 0;
    let mut i: usize = 0;
    while i < g.len()
        invariant
            i <= g@.len(),
            fs == filters_view(g@),
            count == raw_lines(fs.subrange(0, i as int)).len(),
            out@ == join_with(raw_lines(fs.subrange(0, i as int)), fused_separator()),
            count <= i,
        decreases g.len() - i,
    {
        let ghost before = raw_lines(fs.subrange(0, i as int));
        proof {
            assert(fs.subrange(0, i + 1).drop_last() =~= fs.subrange(0, i as int));
            assert(fs[i as int] == g@[i as int]@);
        }
        match &g[i].raw_line {
            Some(r) => {
                if count > 0 {
                    out.push(' ');
                    out.push('<');
                    out.push('+');
                    out.push('>');
                    out.push(' ');
                }
                push_str_chars(&mut out, r.as_str());
                count += 1;
                proof {
                    let now = raw_lines(fs.subrange(0, i + 1));
                    assert(now == before.push(r@));
                    assert(now.drop_last() =~= before);
                    if before.len() == 0 {
                        assert(out@ =~= now[0]);
                    } else {
                        assert(out@ =~= join_with(before, fused_separator()) + fused_separator()
                            + r@);
                    }
                }
            },
            None => {},
        }
        i += 1;
    }
    proof {
        assert(fs.subrange(0, g@.len() as int) =~= fs);
    }
    crate::utils::chars_to_string_all(out.as_slice())
}

/// The filter that a group of filters becomes (see `spec_fusion`).
pub fn fusion(g: &Vec<NetworkFilter>) -> (r: NetworkFilter)
    requires
        g@.len() >= 1,
    ensures
        r@ == spec_fusion(filters_view(g@)),
{
    let ghost fs = filters_view(g@);
    let mut all = false;
    let mut alts: Vec<String> = Vec::new();
    let mut i: usize = 0;
    while i < g.len()
        invariant
            i <= g@.len(),
            fs == filters_view(g@),
            all == any_matches_all(fs.subrange(0, i as int)),
            alts.deep_view() == all_alternatives(fs.subrange(0, i as int)),
        decreases g.len() - i,
    {
        proof {
            assert(fs[i as int] == g@[i as int]@);
            assert(fs.subrange(0, i + 1).drop_last() =~= fs.subrange(0, i as int));
        }
        let here = pattern_matches_all(&g[i].filter);
        proof {
            let a = fs.subrange(0, i as int);
            let b = fs.subrange(0, i + 1);
            assert(b[i as int] == fs[i as int]);
            if any_matches_all(a) {
                let j = choose|j: int| 0 <= j < a.len() && matches_all_part(#[trigger] a[j].filter);
                assert(b[j] == a[j]);
            }
            if here {
                assert(matches_all_part(b[i as int].filter));
            }
            if any_matches_all(b) {
                let j = choose|j: int| 0 <= j < b.len() && matches_all_part(#[trigger] b[j].filter);
                if j < i {
                    assert(a[j] == b[j]);
                }
            }
        }
        if here {
            all = true;
        }
        push_alternatives(&mut alts, &g[i].filter);
        i += 1;
    }
    proof {
        assert(fs.subrange(0, g@.len() as int) =~= fs);
        assert(all == any_matches_all(fs));
    }
    let base = &g[0];
    let filter = if all {
        FilterPart::Simple(String::new())
    } else {
        FilterPart::AnyOf(alts)
    };
    let raw_line = if !all && base.raw_line.is_some() {
        Some(joined_raw_lines(g))
    } else {
        clone_opt_string(&base.raw_line)
    };
    let r = NetworkFilter {
        mask: NetworkFilterMask { bits: base.mask.bits | IS_REGEX },
        filter,
        opt_domains: clone_opt_hashes(&base.opt_domains),
        opt_not_domains: clone_opt_hashes(&base.opt_not_domains),
        modifier_option: clone_opt_string(&base.modifier_option),
        hostname: clone_opt_string(&base.hostname),
        tag: clone_opt_string(&base.tag),
        raw_line,
        id: base.id,
        opt_domains_union: base.opt_domains_union,
        opt_not_domains_union: base.opt_not_domains_union,
    };
    proof {
        assert(fs[0] == base@);
        if all {
            assert(r@.filter == FilterPartView::Simple(Seq::<char>::empty()));
        }
        assert(r@ == spec_fusion(fs));
    }
    r
}

proof fn lemma_group_index_found(gs: Seq<(u32, Seq<NetworkFilterView>)>, m: u32, i: int, k: int)
    requires
        0 <= i <= k < gs.len(),
        gs[k].0 == m,
        forall|j: int| i <= j < k ==> gs[j].0 != m,
    ensures
        group_index(gs, m, i) == Some(k),
    decreases k - i,
{
    if i < k {
        lemma_group_index_found(gs, m, i + 1, k);
    }
}

proof fn lemma_group_index_none(gs: Seq<(u32, Seq<NetworkFilterView>)>, m: u32, i: int)
    requires
        0 <= i <= gs.len(),
        forall|j: int| i <= j < gs.len() ==> gs[j].0 != m,
    ensures
        group_index(gs, m, i) is None,
    decreases gs.len() - i,
{
    if i < gs.len() {
        lemma_group_index_none(gs, m, i + 1);
    }
}

/// Adds `f` to the group of its option bits, or as a new last group.
fn add_to_group_exec(groups: &mut Vec<(u32, Vec<NetworkFilter>)>, f: NetworkFilter)
    ensures
        groups_view(final(groups)@) == add_to_groups(groups_view(old(groups)@), f@),
{
    let ghost gv = groups_view(groups@);
    let m = f.mask.bits;
    let mut k: usize = 0;
    while k < groups.len()
        invariant
            k <= groups@.len(),
            m == f@.mask,
            gv == groups_view(groups@),
            gv == groups_view(old(groups)@),
            groups@ == old(groups)@,
            forall|j: int| 0 <= j < k ==> gv[j].0 != m,
        decreases groups.len() - k,
    {
        if groups[k].0 == m {
            let ghost fv = f@;
            proof {
                assert(gv[k as int].0 == groups@[k as int].0);
                lemma_group_index_found(gv, m, 0, k as int);
                assert(fv.mask == m);
                assert(add_to_groups(gv, fv) == gv.update(k as int, (gv[k as int].0, gv[k as int].1.push(fv))));
            }
            let ghost before = groups@;
            let entry = &mut groups[k];
            entry.1.push(f);
            proof {
                assert(filters_view(groups@[k as int].1@) =~= filters_view(before[k as int].1@).push(fv));
                assert(groups_view(groups@) =~= gv.update(k as int, (gv[k as int].0, gv[k as int].1.push(fv))));
            }
            return;
        }
        k += 1;
    }
    proof {
        lemma_group_index_none(gv, m, 0);
    }
    let ghost fv = f@;
    let v: Vec<NetworkFilter> = vec![f];
    groups.push((m, v));
    proof {
        assert(filters_view(v@) =~= seq![fv]);
        assert(groups_view(groups@) =~= gv.push((m, seq![fv])));
    }
}

/// Merges filters (see `spec_optimize`).
pub fn optimize(filters: Vec<NetworkFilter>) -> (r: Vec<NetworkFilter>)
    ensures
        filters_view(r@) == spec_optimize(filters_view(filters@)),
{
    let ghost fs = filters_view(filters@);
    let mut negative: Vec<NetworkFilter> = Vec::new();
    let mut groups: Vec<(u32, Vec<NetworkFilter>)> = Vec::new();
    let mut i: usize = 0;
    while i < filters.len()
        invariant
            i <= filters@.len(),
            fs == filters_view(filters@),
            filters_view(negative@) == spec_selected(fs.subrange(0, i as int), false),
            groups_view(groups@) == spec_groups(spec_selected(fs.subrange(0, i as int), true)),
        decreases filters.len() - i,
    {
        let f = filters[i].clone();
        proof {
            assert(fs.subrange(0, i + 1).drop_last() =~= fs.subrange(0, i as int));
            assert(fs.subrange(0, i + 1).last() == f@);
        }
        if select(&f) {
            proof {
                assert(spec_selected(fs.subrange(0, i + 1), true) == spec_selected(
                    fs.subrange(0, i as int),
                    true,
                ).push(f@));
                assert(spec_selected(fs.subrange(0, i + 1), true).drop_last() =~= spec_selected(
                    fs.subrange(0, i as int),
                    true,
                ));
            }
            add_to_group_exec(&mut groups, f);
        } else {
            let ghost before = negative@;
            let ghost fv = f@;
            negative.push(f);
            proof {
                assert(filters_view(negative@) =~= filters_view(before).push(fv));
            }
        }
        i += 1;
    }
    proof {
        assert(fs.subrange(0, filters@.len() as int) =~= fs);
    }
    let ghost gv = groups_view(groups@);
    let ghost neg0 = filters_view(negative@);
    let mut fused: Vec<NetworkFilter> = Vec::new();
    let mut k: usize = 0;
    while k < groups.len()
        invariant
            k <= groups@.len(),
            gv == groups_view(groups@),
            filters_view(fused@) == fused_of(gv.subrange(0, k as int)),
            filters_view(negative@) == neg0 + singles_of(gv.subrange(0, k as int)),
        decreases groups.len() - k,
    {
        proof {
            assert(gv.subrange(0, k + 1).drop_last() =~= gv.subrange(0, k as int));
            assert(gv.subrange(0, k + 1).last() == gv[k as int]);
            assert(gv[k as int].1 == filters_view(groups@[k as int].1@));
        }
        let g = &groups[k].1;
        if g.len() > 1 {
            let ghost before = fused@;
            let m = fusion(g);
            fused.push(m);
            proof {
                assert(filters_view(fused@) =~= filters_view(before).push(m@));
            }
        } else if g.len() == 1 {
            let ghost before = negative@;
            let x = g[0].clone();
            negative.push(x);
            proof {
                assert(filters_view(negative@) =~= filters_view(before).push(x@));
                assert(gv[k as int].1 =~= seq![x@]);
                assert(neg0 + singles_of(gv.subrange(0, k + 1)) =~= neg0 + singles_of(
                    gv.subrange(0, k as int),
                ) + seq![x@]);
            }
        } else {
            proof {
                assert(gv[k as int].1 =~= Seq::<NetworkFilterView>::empty());
                assert(neg0 + singles_of(gv.subrange(0, k + 1)) =~= neg0 + singles_of(
                    gv.subrange(0, k as int),
                ));
            }
        }
        k += 1;
    }
    proof {
        assert(gv.subrange(0, groups@.len() as int) =~= gv);
    }
    let ghost fz = filters_view(fused@);
    let ghost ng = filters_view(negative@);
    fused.append(&mut negative);
    proof {
        assert(filters_view(fused@) =~= fz + ng);
        assert(filters_view(fused@) =~= spec_optimize(fs));
    }
    fused
}

} // verus!
