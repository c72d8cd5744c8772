//! The engine: a blocker for network requests together with the cosmetic filters of the same
//! rule lists.

use vstd::prelude::*;

use crate::blocker::{
    filters_view, initial_list, is_empty_result, spec_check_result, str_set, tag_set,
    tagged_lists_agree, Blocker, BlockerOptions, BlockerResult, FilterCategory,
};
use crate::cosmetic_filter_cache::{
    empty_cache, filters_view as cosmetic_view, spec_add_all, spec_hidden_class_id_selectors,
    spec_hostname_resources, set_of, texts_view, resources_distinct, CosmeticFilterCache,
    ResourcesView, UrlSpecificResources,
};
use crate::filters::cosmetic::CosmeticFilter;
use crate::lists::{
    cosmetic_filters_parse, cosmetic_texts, network_filters_parse, network_texts, parse_filters,
    spec_lines, strings_view, text_lines, ParseOptions, RuleTypes, FilterFormat,
};
use crate::match_debug_stats::MatchDebugStats;
use crate::redirect_resources::RedirectResource;
use crate::request::{spec_parse_request_url, Request};
use crate::resources::Resource;

verus! {

/// Network blocker and cosmetic filter cache built from filter rules.
#[derive(Debug)]
pub struct Engine {
    pub blocker: Blocker,
    pub cosmetic_cache: CosmeticFilterCache,
}

/// Rule types to keep for the given loading flags.
pub open spec fn rule_types_for(load_network: bool, load_cosmetic: bool) -> RuleTypes {
    if load_network && !load_cosmetic {
        RuleTypes::NetworkOnly
    } else if load_cosmetic && !load_network {
        RuleTypes::CosmeticOnly
    } else {
        RuleTypes::All
    }
}

/// Parse options for the given loading flags.
pub open spec fn engine_parse_options(load_network: bool, load_cosmetic: bool) -> ParseOptions {
    ParseOptions {
        format: FilterFormat::Standard,
        include_redirect_urls: false,
        rule_types: rule_types_for(load_network, load_cosmetic),
    }
}

/// The result reported for a request that cannot be built from its URLs.
pub open spec fn is_parse_error_result(r: BlockerResult) -> bool {
    &&& !r.matched
    &&& !r.important
    &&& r.redirect is None
    &&& r.exception is None
    &&& r.filter is None
    &&& r.error.deep_view() == Some("Error parsing request"@)
}

/// `r` is the engine built from the rule lines `lines`: its blocker holds the network filters
/// that parse (if loaded), filed by list, with no tag enabled and no resource; its cache holds
/// the cosmetic filters that parse (if loaded), filed in order.
pub open spec fn built_from(
    r: Engine,
    lines: Seq<Seq<char>>,
    load_network: bool,
    load_cosmetic: bool,
    debug: bool,
    optimize: bool,
) -> bool {
    let opts = engine_parse_options(load_network, load_cosmetic);
    let n = lines.len() as int;
    &&& exists|nets: Seq<crate::filters::network::NetworkFilter>|
        #[trigger] network_filters_parse(nets, network_texts(lines, debug, opts, n), debug)
            && r.blocker.filters@ == crate::blocker::spec_list_build(
            initial_list(filters_view(nets), load_network, FilterCategory::Plain),
            optimize,
        ) && r.blocker.importants@ == crate::blocker::spec_list_build(
            initial_list(filters_view(nets), load_network, FilterCategory::Important),
            optimize,
        ) && r.blocker.exceptions@ == crate::blocker::spec_list_build(
            initial_list(filters_view(nets), load_network, FilterCategory::Exception),
            optimize,
        ) && r.blocker.redirects@ == crate::blocker::spec_list_build(
            initial_list(filters_view(nets), load_network, FilterCategory::Redirect),
            optimize,
        ) && r.blocker.csp@ == crate::blocker::spec_list_build(
            initial_list(filters_view(nets), load_network, FilterCategory::Csp),
            optimize,
        ) && filters_view(r.blocker.tagged_filters_all@) == initial_list(
            filters_view(nets),
            load_network,
            FilterCategory::Tagged,
        )
    &&& load_cosmetic ==> exists|cos: Seq<CosmeticFilter>|
        #[trigger] cosmetic_filters_parse(cos, cosmetic_texts(lines, debug, opts, n), debug)
            && r.cosmetic_cache@ == spec_add_all(empty_cache(), cosmetic_view(cos))
    &&& !load_cosmetic ==> r.cosmetic_cache@ == empty_cache()
    &&& tag_set(r.blocker.tags_enabled@) == Set::<Seq<char>>::empty()
    &&& tagged_lists_agree(r.blocker)
    &&& r.blocker.load_network_filters == load_network
    &&& r.blocker.load_cosmetic_filters == load_cosmetic
    &&& r.blocker.debug == debug
    &&& r.blocker.enable_optimizations == optimize
    &&& r.blocker.resources@ == Map::<Seq<char>, (Seq<char>, Seq<char>)>::empty()
}

/// Two filter lists parsed from the same texts have the same views.
proof fn lemma_network_parse_unique(
    a: Seq<crate::filters::network::NetworkFilter>,
    b: Seq<crate::filters::network::NetworkFilter>,
    texts: Seq<Seq<char>>,
    debug: bool,
)
    requires
        network_filters_parse(a, texts, debug),
        network_filters_parse(b, texts, debug),
    ensures
        filters_view(a) == filters_view(b),
{
    assert forall|i: int| 0 <= i < a.len() implies #[trigger] a[i]@ == b[i]@ by {
        let m = crate::filters::network::spec_network_filter_parse(texts[i], debug)->Ok_0;
        crate::filters::network::lemma_realizes_unique(a[i]@, b[i]@, m);
    }
    assert(filters_view(a) =~= filters_view(b));
}

/// Two cosmetic filter lists parsed from the same texts have the same views.
proof fn lemma_cosmetic_parse_unique(a: Seq<CosmeticFilter>, b: Seq<CosmeticFilter>, texts: Seq<Seq<char>>, debug: bool)
    requires
        cosmetic_filters_parse(a, texts, debug),
        cosmetic_filters_parse(b, texts, debug),
    ensures
        cosmetic_view(a) == cosmetic_view(b),
{
    assert forall|i: int| 0 <= i < a.len() implies #[trigger] a[i]@ == b[i]@ by {
        let m = crate::filters::cosmetic::spec_cosmetic_parse(texts[i], debug)->Ok_0;
        crate::filters::cosmetic::lemma_realizes_cosmetic_unique(a[i]@, b[i]@, m);
    }
    assert(cosmetic_view(a) =~= cosmetic_view(b));
}

/// Two engines agree on everything that checking a request or querying cosmetic resources
/// reads: the blocker's lists, its tagged filters and enabled tags, its options and resources,
/// and the cosmetic cache.
pub open spec fn same_engine_state(a: Engine, b: Engine) -> bool {
    &&& a.blocker.csp@ == b.blocker.csp@
    &&& a.blocker.exceptions@ == b.blocker.exceptions@
    &&& a.blocker.importants@ == b.blocker.importants@
    &&& a.blocker.redirects@ == b.blocker.redirects@
    &&& a.blocker.filters@ == b.blocker.filters@
    &&& a.blocker.filters_tagged@ == b.blocker.filters_tagged@
    &&& a.blocker.exceptions_tagged@ == b.blocker.exceptions_tagged@
    &&& filters_view(a.blocker.tagged_filters_all@) == filters_view(b.blocker.tagged_filters_all@)
    &&& tag_set(a.blocker.tags_enabled@) == tag_set(b.blocker.tags_enabled@)
    &&& a.blocker.debug == b.blocker.debug
    &&& a.blocker.enable_optimizations == b.blocker.enable_optimizations
    &&& a.blocker.load_cosmetic_filters == b.blocker.load_cosmetic_filters
    &&& a.blocker.load_network_filters == b.blocker.load_network_filters
    &&& a.blocker.resources@ == b.blocker.resources@
    &&& a.cosmetic_cache@ == b.cosmetic_cache@
}

/// The rule lines and the loading options determine the engine: two engines built from the
/// same lines with the same options agree on everything a check reads.
pub proof fn law_engine_build_determined(
    a: Engine,
    b: Engine,
    lines: Seq<Seq<char>>,
    load_network: bool,
    load_cosmetic: bool,
    debug: bool,
    optimize: bool,
)
    requires
        built_from(a, lines, load_network, load_cosmetic, debug, optimize),
        built_from(b, lines, load_network, load_cosmetic, debug, optimize),
    ensures
        same_engine_state(a, b),
{
    let opts = engine_parse_options(load_network, load_cosmetic);
    let n = lines.len() as int;
    let nt = network_texts(lines, debug, opts, n);
    let na = choose|nets: Seq<crate::filters::network::NetworkFilter>|
        #[trigger] network_filters_parse(nets, nt, debug) && a.blocker.filters@
            == crate::blocker::spec_list_build(
            initial_list(filters_view(nets), load_network, FilterCategory::Plain),
            optimize,
        ) && a.blocker.importants@ == crate::blocker::spec_list_build(
            initial_list(filters_view(nets), load_network, FilterCategory::Important),
            optimize,
        ) && a.blocker.exceptions@ == crate::blocker::spec_list_build(
            initial_list(filters_view(nets), load_network, FilterCategory::Exception),
            optimize,
        ) && a.blocker.redirects@ == crate::blocker::spec_list_build(
            initial_list(filters_view(nets), load_network, FilterCategory::Redirect),
            optimize,
        ) && a.blocker.csp@ == crate::blocker::spec_list_build(
            initial_list(filters_view(nets), load_network, FilterCategory::Csp),
            optimize,
        ) && filters_view(a.blocker.tagged_filters_all@) == initial_list(
            filters_view(nets),
            load_network,
            FilterCategory::Tagged,
        );
    let nb = choose|nets: Seq<crate::filters::network::NetworkFilter>|
        #[trigger] network_filters_parse(nets, nt, debug) && b.blocker.filters@
            == crate::blocker::spec_list_build(
            initial_list(filters_view(nets), load_network, FilterCategory::Plain),
            optimize,
        ) && b.blocker.importants@ == crate::blocker::spec_list_build(
            initial_list(filters_view(nets), load_network, FilterCategory::Important),
            optimize,
        ) && b.blocker.exceptions@ == crate::blocker::spec_list_build(
            initial_list(filters_view(nets), load_network, FilterCategory::Exception),
            optimize,
        ) && b.blocker.redirects@ == crate::blocker::spec_list_build(
            initial_list(filters_view(nets), load_network, FilterCategory::Redirect),
            optimize,
        ) && b.blocker.csp@ == crate::blocker::spec_list_build(
            initial_list(filters_view(nets), load_network, FilterCategory::Csp),
            optimize,
        ) && filters_view(b.blocker.tagged_filters_all@) == initial_list(
            filters_view(nets),
            load_network,
            FilterCategory::Tagged,
        );
    lemma_network_parse_unique(na, nb, nt, debug);
    assert(tag_set(a.blocker.tags_enabled@) == tag_set(b.blocker.tags_enabled@));
    assert(a.blocker.filters_tagged@ == b.blocker.filters_tagged@);
    assert(a.blocker.exceptions_tagged@ == b.blocker.exceptions_tagged@);
    if load_cosmetic {
        let ct = cosmetic_texts(lines, debug, opts, n);
        let ca = choose|cos: Seq<CosmeticFilter>|
            #[trigger] cosmetic_filters_parse(cos, ct, debug) && a.cosmetic_cache@ == spec_add_all(
                empty_cache(),
                cosmetic_view(cos),
            );
        let cb = choose|cos: Seq<CosmeticFilter>|
            #[trigger] cosmetic_filters_parse(cos, ct, debug) && b.cosmetic_cache@ == spec_add_all(
                empty_cache(),
                cosmetic_view(cos),
            );
        lemma_cosmetic_parse_unique(ca, cb, ct, debug);
    }
}

/// `from_rules` builds the same engine as `from_rules_parametrised` with network and cosmetic
/// rules loaded, no debug information kept and optimizations on: the two agree on everything
/// a check or a cosmetic query reads.
pub proof fn law_from_rules_is_parametrised_default(a: Engine, b: Engine, lines: Seq<Seq<char>>)
    requires
        built_from(a, lines, true, true, false, true),
        built_from(b, lines, true, true, false, true),
    ensures
        same_engine_state(a, b),
{
    law_engine_build_determined(a, b, lines, true, true, false, true);
}

impl Engine {
    /// Parses the rules and builds the blocker (with the network filters, if loaded) and the
    /// cosmetic filter list (if loaded). With `optimize`, the filters of each bucket of the
    /// network lists are merged (see `spec_list_build`).
    pub fn from_rules_parametrised(
        filter_rules: &[String],
        load_network: bool,
        load_cosmetic: bool,
        debug: bool,
        optimize: bool,
    ) -> (r: Engine)
        ensures
            built_from(r, strings_view(filter_rules@), load_network, load_cosmetic, debug, optimize),
    {
        let rule_types = if load_network && !load_cosmetic {
            RuleTypes::NetworkOnly
        } else if load_cosmetic && !load_network {
            RuleTypes::CosmeticOnly
        } else {
            RuleTypes::All
        };
        let opts = ParseOptions {
            format: FilterFormat::Standard,
            include_redirect_urls: false,
            rule_types,
        };
        let (nets, cos) = parse_filters(filter_rules, debug, opts);
        let options = BlockerOptions {
            debug,
            enable_optimizations: optimize,
            load_cosmetic_filters: load_cosmetic,
            load_network_filters: load_network,
        };
        let ghost nv = nets@;
        let ghost cv = cos@;
        let blocker = Blocker::new(nets, &options);
        let cosmetic_cache = if load_cosmetic {
            CosmeticFilterCache::new(cos)
        } else {
            CosmeticFilterCache::empty()
        };
        let r = Engine { blocker, cosmetic_cache };
        proof {
            let lines = strings_view(filter_rules@);
            assert(network_filters_parse(nv, network_texts(lines, debug, opts, lines.len() as int), debug));
            assert(cosmetic_filters_parse(cv, cosmetic_texts(lines, debug, opts, lines.len() as int), debug));
        }
        r
    }

    /// Loads rules without debug information.
    pub fn from_rules(network_filters: &[String]) -> (r: Engine)
        ensures
            built_from(r, strings_view(network_filters@), true, true, false, true),
    {
        Self::from_rules_parametrised(network_filters, true, true, false, true)
    }

    /// Loads rules, keeping their text with the filters.
    pub fn from_rules_debug(network_filters: &[String]) -> (r: Engine)
        ensures
            built_from(r, strings_view(network_filters@), true, true, true, true),
    {
        Self::from_rules_parametrised(network_filters, true, true, true, true)
    }

    /// Loads the rules of a whole list text, one rule per line.
    pub fn new_with_list_text(list: &str) -> (r: Engine)
        ensures
            built_from(r, spec_lines(list@), true, true, false, true),
    {
        let rules = text_lines(list);
        Self::from_rules(rules.as_slice())
    }

    /// Checks a request given by its URL, the URL of the page that made it and its type. A
    /// request whose URL has no host is reported as an error.
    pub fn check_network_urls(&self, url: &str, source_url: &str, request_type: &str) -> (r: BlockerResult)
        ensures
            spec_parse_request_url(url@) is None ==> is_parse_error_result(r),
            spec_parse_request_url(url@) is Some ==> exists|req: Request|
                crate::request::spec_new_request_ok(req, url@, source_url@, request_type@, ""@)
                    && #[trigger] spec_check_result(self.blocker, req, r),
    {
        match Request::new(url, source_url, request_type, "") {
            Ok(req) => {
                let r = self.blocker.check(&req);
                proof {
                    assert(spec_check_result(self.blocker, req, r));
                }
                r
            },
            Err(_) => BlockerResult {
                matched: false,
                important: false,
                redirect: None,
                exception: None,
                filter: None,
                error: Some("Error parsing request".to_owned()),
            },
        }
    }

    /// Checks a request whose hostnames the caller has already extracted; when
    /// `third_party_request` is not given, the request is third-party when the domains of the
    /// two hostnames differ.
    pub fn check_network_urls_with_hostnames(
        &self,
        url: &str,
        hostname: &str,
        source_hostname: &str,
        request_type: &str,
        third_party_request: Option<bool>,
    ) -> (r: BlockerResult)
        ensures
            exists|req: Request|
                crate::request::is_detailed_request(
                    req,
                    request_type@,
                    url@,
                    match crate::utils::spec_index_of(url@, ':') {
                        Some(i) => url@.subrange(0, i),
                        None => Seq::empty(),
                    },
                    hostname@,
                    crate::request::spec_host_domain(hostname@),
                    source_hostname@,
                    match third_party_request {
                        Some(t) => t,
                        None => crate::request::spec_host_domain(source_hostname@)
                            != crate::request::spec_host_domain(hostname@),
                    },
                    url@,
                    None,
                ) && #[trigger] spec_check_result(self.blocker, req, r),
    {
        let third_party = match third_party_request {
            Some(t) => t,
            None => {
                let (ds, de) = crate::request::get_host_domain(hostname);
                let (sds, sde) = crate::request::get_host_domain(source_hostname);
                let hv = crate::utils::str_to_chars(hostname);
                let sv = crate::utils::str_to_chars(source_hostname);
                let d = crate::utils::sub_chars(hv.as_slice(), ds, de);
                let sd = crate::utils::sub_chars(sv.as_slice(), sds, sde);
                !crate::utils::chars_eq(d.as_slice(), sd.as_slice())
            },
        };
        let req = Request::preparsed(url, hostname, source_hostname, request_type, third_party, "");
        proof {
            reveal_strlit("");
            assert(crate::request::spec_parse_method(""@) is None);
        }
        let r = self.blocker.check(&req);
        proof {
            assert(spec_check_result(self.blocker, req, r));
        }
        r
    }

    /// Checks a request.
    pub fn check_network_request(&self, request: &Request) -> (r: BlockerResult)
        ensures
            spec_check_result(self.blocker, *request, r),
    {
        self.blocker.check(request)
    }

    /// Checks a request, counting the work in `stats`.
    pub fn check_network_request_with_stats(&self, request: &Request, stats: &mut MatchDebugStats) -> (r: BlockerResult)
        ensures
            spec_check_result(self.blocker, *request, r),
            final(stats).filters_checked >= old(stats).filters_checked,
            r.filter is None ==> final(stats).filters_matched == old(stats).filters_matched,
            r.filter is Some && r.exception is None ==> final(stats).filters_matched
                == old(stats).filters_matched.saturating_add(1),
            r.filter is Some ==> final(stats).last_match_stage == Some(crate::match_debug_stats::MatchStage::Pattern)
                && final(stats).filters_checked >= 1,
    {
        self.blocker.check_with_stats(request, stats)
    }

    /// Adds the rules of a list text: network filters are added to the blocker one by one
    /// (refused ones are skipped), cosmetic filters are filed in the cache.
    pub fn add_filter_list(&mut self, filter_list: &str)
        ensures
            final(self).blocker.load_network_filters == old(self).blocker.load_network_filters,
            exists|cos: Seq<CosmeticFilter>|
                #[trigger] cosmetic_filters_parse(
                    cos,
                    cosmetic_texts(
                        spec_lines(filter_list@),
                        true,
                        engine_parse_options(true, true),
                        spec_lines(filter_list@).len() as int,
                    ),
                    true,
                ) && final(self).cosmetic_cache@ == spec_add_all(
                    old(self).cosmetic_cache@,
                    cosmetic_view(cos),
                ),
    {
        let rules = text_lines(filter_list);
        let opts = ParseOptions {
            format: FilterFormat::Standard,
            include_redirect_urls: false,
            rule_types: RuleTypes::All,
        };
        let (mut nets, cos) = parse_filters(rules.as_slice(), true, opts);
        let ghost c0 = self.cosmetic_cache@;
        let ghost cv = cos@;
        while nets.len() > 0
            invariant
                self.blocker.load_network_filters == old(self).blocker.load_network_filters,
                self.cosmetic_cache@ == c0,
            decreases nets.len(),
        {
            let f = nets.remove(0);
            self.add_network_filter(f);
        }
        let mut i: usize = 0;
        while i < cos.len()
            invariant
                i <= cos@.len(),
                cv == cos@,
                self.cosmetic_cache@ == spec_add_all(c0, cosmetic_view(cv).take(i as int)),
                self.blocker.load_network_filters == old(self).blocker.load_network_filters,
            decreases cos.len() - i,
        {
            proof {
                assert(cosmetic_view(cv).take(i + 1).drop_last() =~= cosmetic_view(cv).take(i as int));
            }
            self.add_cosmetic_filter(cos[i].clone());
            i += 1;
        }
        proof {
            assert(cosmetic_view(cv).take(cv.len() as int) =~= cosmetic_view(cv));
            assert(opts == engine_parse_options(true, true));
            assert(cosmetic_filters_parse(
                cv,
                cosmetic_texts(
                    spec_lines(filter_list@),
                    true,
                    engine_parse_options(true, true),
                    spec_lines(filter_list@).len() as int,
                ),
                true,
            ));
        }
    }

    /// Whether the network filter of `filter` is in the blocker; `false` when `filter` is not a
    /// network filter that parses.
    pub fn filter_exists(&self, filter: &str) -> (r: bool)
        ensures
            crate::filters::network::spec_network_filter_parse(filter@, true) is Err ==> !r,
            crate::filters::network::spec_network_filter_parse(filter@, true) is Ok ==> exists|
                f: crate::filters::network::NetworkFilterView,
            |
                crate::filters::network::spec_network_filter_parse(filter@, true) matches Ok(m)
                    && crate::filters::network::realizes(f, m) && r
                    == #[trigger] crate::blocker::spec_blocker_filter_exists(self.blocker, f),
    {
        match crate::filters::network::NetworkFilter::parse(filter, true, ParseOptions::default()) {
            Ok(f) => {
                let r = match self.blocker.filter_exists(&f) {
                    Ok(exists) => exists,
                    Err(_) => false,
                };
                proof {
                    assert(crate::blocker::spec_blocker_filter_exists(self.blocker, f@) == r);
                }
                r
            },
            Err(_) => false,
        }
    }

    /// Adds one rule: a network filter to the blocker (when the blocker accepts it, see
    /// `Blocker::filter_add`), a cosmetic filter to the cache; a rule that does not parse is
    /// ignored.
    #[verifier::rlimit(40)]
    pub fn filter_add(&mut self, filter: &str)
        ensures
            match crate::lists::spec_route(filter@, engine_parse_options(true, true)) {
                crate::lists::ParseRoute::Cosmetic(f) => final(self).blocker == old(self).blocker
                    && (crate::filters::cosmetic::spec_cosmetic_parse(f, true) is Err
                    ==> final(self).cosmetic_cache@ == old(self).cosmetic_cache@) && (
                crate::filters::cosmetic::spec_cosmetic_parse(f, true) is Ok ==> exists|
                    c: CosmeticFilter,
                |
                    #[trigger] crate::lists::parse_result_ok(
                        crate::lists::ParseRoute::Cosmetic(f),
                        true,
                        Ok(crate::lists::ParsedFilter::Cosmetic(c)),
                    ) && final(self).cosmetic_cache@ == crate::cosmetic_filter_cache::spec_add_filter(
                        old(self).cosmetic_cache@,
                        c@,
                    )),
                crate::lists::ParseRoute::Network(f) => final(self).cosmetic_cache@ == old(self).cosmetic_cache@
                    && (crate::filters::network::spec_network_filter_parse(f, true) is Err
                    ==> final(self).blocker == old(self).blocker) && (
                crate::filters::network::spec_network_filter_parse(f, true) is Ok ==> exists|
                    nf: crate::filters::network::NetworkFilter,
                |
                    #[trigger] crate::lists::parse_result_ok(
                        crate::lists::ParseRoute::Network(f),
                        true,
                        Ok(crate::lists::ParsedFilter::Network(nf)),
                    ) && crate::blocker::spec_blocker_add(old(self).blocker, final(self).blocker, nf@)),
                _ => final(self).cosmetic_cache@ == old(self).cosmetic_cache@ && final(self).blocker
                    == old(self).blocker,
            },
    {
        let opts = ParseOptions {
            format: FilterFormat::Standard,
            include_redirect_urls: false,
            rule_types: RuleTypes::All,
        };
        let parsed = crate::lists::parse_filter(filter, true, opts);
        proof {
            assert(opts == engine_parse_options(true, true));
        }
        match parsed {
            Ok(crate::lists::ParsedFilter::Network(f)) => self.add_network_filter(f),
            Ok(crate::lists::ParsedFilter::Cosmetic(c)) => self.add_cosmetic_filter(c),
            Err(_) => {},
        }
    }

    /// Adds a network filter to the blocker; one the blocker refuses is dropped.
    fn add_network_filter(&mut self, filter: crate::filters::network::NetworkFilter)
        ensures
            final(self).cosmetic_cache@ == old(self).cosmetic_cache@,
            crate::blocker::spec_blocker_add(old(self).blocker, final(self).blocker, filter@),
    {
        let _ = self.blocker.filter_add(filter);
    }

    /// Files a cosmetic filter in the cache.
    fn add_cosmetic_filter(&mut self, filter: CosmeticFilter)
        ensures
            final(self).blocker == old(self).blocker,
            final(self).cosmetic_cache@ == crate::cosmetic_filter_cache::spec_add_filter(
                old(self).cosmetic_cache@,
                filter@,
            ),
    {
        self.cosmetic_cache.add_filter(filter);
    }

    /// Enables exactly the given tags.
    pub fn with_tags(&mut self, tags: &[&str])
        ensures
            tag_set(final(self).blocker.tags_enabled@) == str_set(tags@),
            tagged_lists_agree(final(self).blocker),
            crate::blocker::same_but_tags(final(self).blocker, old(self).blocker),
            final(self).cosmetic_cache@ == old(self).cosmetic_cache@,
    {
        self.blocker.with_tags(tags);
    }

    /// Enables the given tags in addition to those already enabled.
    pub fn tags_enable(&mut self, tags: &[&str])
        ensures
            tag_set(final(self).blocker.tags_enabled@) == tag_set(old(self).blocker.tags_enabled@).union(
                str_set(tags@),
            ),
            tagged_lists_agree(final(self).blocker),
            crate::blocker::same_but_tags(final(self).blocker, old(self).blocker),
            final(self).cosmetic_cache@ == old(self).cosmetic_cache@,
    {
        self.blocker.tags_enable(tags);
    }

    /// Disables the given tags.
    pub fn tags_disable(&mut self, tags: &[&str])
        ensures
            tag_set(final(self).blocker.tags_enabled@) == tag_set(
                old(self).blocker.tags_enabled@,
            ).difference(str_set(tags@)),
            tagged_lists_agree(final(self).blocker),
            crate::blocker::same_but_tags(final(self).blocker, old(self).blocker),
            final(self).cosmetic_cache@ == old(self).cosmetic_cache@,
    {
        self.blocker.tags_disable(tags);
    }

    /// Whether a tag is enabled.
    pub fn tag_exists(&self, tag: &str) -> (r: bool)
        ensures
            r == tag_set(self.blocker.tags_enabled@).contains(tag@),
    {
        let tags = self.blocker.tags_enabled();
        let mut i: usize = 0;
        while i < tags.len()
            invariant
                i <= tags@.len(),
                tag_set(tags@) == tag_set(self.blocker.tags_enabled@),
                forall|j: int| 0 <= j < i ==> (#[trigger] tags@[j])@ != tag@,
            decreases tags.len() - i,
        {
            if crate::utils::str_eq(tags[i].as_str(), tag) {
                assert(tags@[i as int]@ == tag@);
                return true;
            }
            i += 1;
        }
        false
    }

    /// The generic selectors to hide for classes and ids that have appeared on a page, given the
    /// page's exceptions (see `CosmeticFilterCache::hidden_class_id_selectors`).
    pub fn hidden_class_id_selectors(
        &self,
        classes: &[String],
        ids: &[String],
        exceptions: &[String],
    ) -> (r: Vec<String>)
        ensures
            texts_view(r@) == spec_hidden_class_id_selectors(
                self.cosmetic_cache@,
                texts_view(classes@),
                texts_view(ids@),
                set_of(exceptions@),
            ),
    {
        self.cosmetic_cache.hidden_class_id_selectors(classes, ids, exceptions)
    }

    /// The cosmetic filtering to apply to the page at `url`: nothing when the URL has no host;
    /// otherwise the resources of its hostname, generic rules left out when a `$generichide`
    /// exception matches the page.
    pub fn url_cosmetic_resources(&self, url: &str) -> (r: UrlSpecificResources)
        ensures
            resources_distinct(r),
            spec_parse_request_url(url@) is None ==> r@ == (ResourcesView {
                hide_selectors: Set::empty(),
                procedural_actions: Set::empty(),
                exceptions: Set::empty(),
                script_injections: Set::empty(),
                generichide: false,
            }),
            spec_parse_request_url(url@) is Some ==> exists|req: Request|
                crate::request::spec_new_request_ok(req, url@, ""@, ""@, ""@) && r@
                    == #[trigger] spec_hostname_resources(
                    self.cosmetic_cache@,
                    req.hostname@,
                    crate::blocker::first_flagged_match(
                        self.blocker.exceptions@,
                        crate::blocker::match_tokens(req),
                        req,
                        crate::filters::network::GENERIC_HIDE,
                    ) is Some,
                ),
    {
        match Request::new(url, "", "", "") {
            Ok(req) => {
                let generichide = self.blocker.check_generic_hide(&req);
                let r = self.cosmetic_cache.hostname_cosmetic_resources(req.hostname.as_str(), generichide);
                proof {
                    assert(crate::request::spec_new_request_ok(req, url@, ""@, ""@, ""@));
                }
                r
            },
            Err(_) => UrlSpecificResources::empty(),
        }
    }

    /// Replaces the redirect resources.
    pub fn with_resources(&mut self, resources: &[Resource])
        ensures
            final(self).blocker.resources@ == crate::redirect_resources::resources_map(resources@),
    {
        self.blocker.with_resources(resources);
    }

    /// Adds a redirect resource.
    pub fn resource_add(&mut self, resource: Resource)
        ensures
            final(self).blocker.resources@ == crate::redirect_resources::add_all(
                old(self).blocker.resources@,
                crate::redirect_resources::resource_entries(resource),
            ),
    {
        self.blocker.resource_add(resource);
    }

    /// A copy of the redirect resource stored under `key`.
    pub fn resource_get(&self, key: &str) -> (r: Option<RedirectResource>)
        ensures
            match r {
                Some(x) => self.blocker.resources@.contains_key(key@) && self.blocker.resources@[key@] == x@,
                None => !self.blocker.resources@.contains_key(key@),
            },
    {
        match self.blocker.resource_get(key) {
            Some(x) => Some(x.clone()),
            None => None,
        }
    }
}

impl Default for Engine {
    fn default() -> (r: Self)
        ensures
            r.blocker.load_network_filters,
            r.blocker.filters@ == Map::<u64, Seq<crate::filters::network::NetworkFilterView>>::empty(),
            r.cosmetic_cache@ == empty_cache(),
            r.blocker.resources@ == Map::<Seq<char>, (Seq<char>, Seq<char>)>::empty(),
    {
        let options = BlockerOptions {
            debug: false,
            enable_optimizations: true,
            load_cosmetic_filters: true,
            load_network_filters: true,
        };
        let blocker = Blocker::new(Vec::new(), &options);
        proof {
            crate::blocker::lemma_list_new_empty(true);
        }
        Engine { blocker, cosmetic_cache: CosmeticFilterCache::empty() }
    }
}

} // verus!
