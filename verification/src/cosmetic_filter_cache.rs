//! Stores cosmetic filters so that they can be queried for a page.
//!
//! Generic rules keyed by a class or an id are returned only for the classes and ids that a page
//! shows (`hidden_class_id_selectors`); all other generic selectors, and every rule restricted
//! to hostnames or entities, are returned for a page's hostname (`hostname_cosmetic_resources`).
//! Hostname-specific rules are filed under the hashes of the hostnames and entities they name;
//! negated hostnames and entities file the opposite rule (an exception for a hiding rule, and
//! the other way round).

use vstd::prelude::*;

use crate::filters::cosmetic::{
    get_entity_hashes_from_labels, get_hostname_hashes_from_labels, key_from_selector,
    spec_entity_hashes, spec_hashes_from_labels, spec_key_from_selector, CosmeticFilter,
    CosmeticFilterView, SCRIPT_INJECT, UNHIDE,
};
use crate::request::{get_host_domain, spec_host_domain};
use crate::utils::{str_eq, str_to_chars, chars_to_string};

verus! {

// ---------------------------------------------------------------------------------------------
// Sets of strings held in vectors
// ---------------------------------------------------------------------------------------------

/// The text of each string of `v`.
pub open spec fn texts_view(v: Seq<String>) -> Seq<Seq<char>> {
    v.map_values(|s: String| s@)
}

/// The set of the texts of `v`.
pub open spec fn set_of(v: Seq<String>) -> Set<Seq<char>> {
    texts_view(v).to_set()
}

/// Whether `s` is among `v`.
fn contains_str(v: &[String], s: &str) -> (r: bool)
    ensures
        r == set_of(v@).contains(s@),
{
    let mut i: usize = 0;
    while i < v.len()
        invariant
            i <= v@.len(),
            forall|j: int| 0 <= j < i ==> v@[j]@ != s@,
        decreases v.len() - i,
    {
        if str_eq(v[i].as_str(), s) {
            proof {
                assert(texts_view(v@)[i as int] == s@);
            }
            return true;
        }
        i += 1;
    }
    proof {
        if texts_view(v@).contains(s@) {
            let j = choose|j: int| 0 <= j < texts_view(v@).len() && texts_view(v@)[j] == s@;
            assert(v@[j]@ == s@);
        }
    }
    false
}

/// Adds `s` to `v` unless it is there already.
fn insert_str(v: &mut Vec<String>, s: String)
    ensures
        set_of(final(v)@) == set_of(old(v)@).insert(s@),
        texts_view(old(v)@).no_duplicates() ==> texts_view(final(v)@).no_duplicates(),
{
    if !contains_str(v, s.as_str()) {
        let ghost before = v@;
        v.push(s);
        proof {
            assert(texts_view(v@) =~= texts_view(before).push(s@));
            texts_view(before).lemma_push_to_set_commute(s@);
            if texts_view(before).no_duplicates() {
                assert forall|a: int, b: int|
                    0 <= a < b < texts_view(v@).len() implies texts_view(v@)[a] != texts_view(
                        v@,
                    )[b] by {
                    if b == texts_view(before).len() {
                        assert(texts_view(before).contains(texts_view(v@)[a]));
                    }
                }
            }
        }
    } else {
        proof {
            assert(set_of(v@).insert(s@) =~= set_of(v@));
        }
    }
}

/// The strings of `a` that are not in `b`, in order.
fn difference(a: &Vec<String>, b: &Vec<String>) -> (r: Vec<String>)
    requires
        texts_view(a@).no_duplicates(),
    ensures
        set_of(r@) == set_of(a@).difference(set_of(b@)),
        texts_view(r@).no_duplicates(),
{
    let mut r: Vec<String> = Vec::new();
    let mut i: usize = 0;
    while i < a.len()
        invariant
            i <= a@.len(),
            texts_view(a@).no_duplicates(),
            texts_view(r@).no_duplicates(),
            set_of(r@) == set_of(a@.take(i as int)).difference(set_of(b@)),
        decreases a.len() - i,
    {
        proof {
            assert(a@.take(i + 1) =~= a@.take(i as int).push(a@[i as int]));
            assert(texts_view(a@.take(i + 1)) =~= texts_view(a@.take(i as int)).push(a@[i as int]@));
            texts_view(a@.take(i as int)).lemma_push_to_set_commute(a@[i as int]@);
        }
        if !contains_str(b, a[i].as_str()) {
            let ghost before = r@;
            proof {
                assert(!set_of(before).contains(a@[i as int]@)) by {
                    if set_of(before).contains(a@[i as int]@) {
                        let j = choose|j: int|
                            0 <= j < i && texts_view(a@.take(i as int))[j] == a@[i as int]@;
                        assert(texts_view(a@)[j] == texts_view(a@)[i as int]);
                    }
                }
            }
            r.push(a[i].clone());
            proof {
                assert(texts_view(r@) =~= texts_view(before).push(a@[i as int]@));
                texts_view(before).lemma_push_to_set_commute(a@[i as int]@);
                assert forall|x: int, y: int|
                    0 <= x < y < texts_view(r@).len() implies texts_view(r@)[x] != texts_view(r@)[y] by {
                    if y == texts_view(before).len() {
                        assert(texts_view(before).contains(texts_view(r@)[x]));
                    }
                }
                assert(set_of(r@) =~= set_of(a@.take(i + 1)).difference(set_of(b@)));
            }
        } else {
            proof {
                assert(set_of(r@) =~= set_of(a@.take(i + 1)).difference(set_of(b@)));
            }
        }
        i += 1;
    }
    proof {
        assert(a@.take(a@.len() as int) =~= a@);
    }
    r
}

/// `c` followed by `s`.
fn prefixed(c: char, s: &str) -> (r: String)
    ensures
        r@ == seq![c] + s@,
{
    let v = str_to_chars(s);
    let mut out: Vec<char> = Vec::new();
    out.push(c);
    let mut i: usize = 0;
    while i < v.len()
        invariant
            i <= v@.len(),
            out@ == seq![c] + v@.take(i as int),
        decreases v.len() - i,
    {
        out.push(v[i]);
        i += 1;
        proof {
            assert(v@.take(i as int) =~= v@.take(i - 1).push(v@[i - 1]));
        }
    }
    proof {
        assert(v@.take(v@.len() as int) =~= v@);
    }
    chars_to_string(out.as_slice(), 0, out.len())
}

// ---------------------------------------------------------------------------------------------
// Procedural and action filters
// ---------------------------------------------------------------------------------------------

/// One step of the selector of a procedural filter.
#[derive(Debug)]
pub enum CosmeticFilterOperator {
    CssSelector(String),
}

/// What a filter does to the elements it selects, instead of hiding them.
#[derive(Debug)]
pub enum CosmeticFilterAction {
    Style(String),
}

/// A filter whose selector or action cannot be written as a plain hiding rule: here, a CSS
/// selector with a style to apply.
#[derive(Debug)]
pub struct ProceduralOrActionFilter {
    /// The elements the filter applies to.
    pub selector: Vec<CosmeticFilterOperator>,
    /// What to do with them; hiding them when there is none.
    pub action: Option<CosmeticFilterAction>,
}

/// Abstract value of a procedural or action filter: the text of each selector step, and the
/// style to apply, if any.
pub ghost struct ProceduralView {
    pub selector: Seq<Seq<char>>,
    pub style: Option<Seq<char>>,
}

/// The text of a selector step.
pub open spec fn operator_text(o: CosmeticFilterOperator) -> Seq<char> {
    match o {
        CosmeticFilterOperator::CssSelector(s) => s@,
    }
}

/// The text of each selector step.
pub open spec fn operators_view(v: Seq<CosmeticFilterOperator>) -> Seq<Seq<char>> {
    v.map_values(|o: CosmeticFilterOperator| operator_text(o))
}

impl View for ProceduralOrActionFilter {
    type V = ProceduralView;

    open spec fn view(&self) -> ProceduralView {
        ProceduralView {
            selector: operators_view(self.selector@),
            style: match self.action {
                Some(CosmeticFilterAction::Style(s)) => Some(s@),
                None => None,
            },
        }
    }
}

/// What `as_css` gives: a single CSS selector and the style to give its elements.
pub open spec fn spec_as_css(p: ProceduralView) -> Option<(Seq<char>, Seq<char>)> {
    if p.selector.len() == 1 {
        match p.style {
            None => Some((p.selector[0], "display: none !important"@)),
            Some(s) => Some((p.selector[0], s)),
        }
    } else {
        None
    }
}

impl ProceduralOrActionFilter {
    /// Returns `(selector, style)` if the filter can be expressed in pure CSS.
    pub fn as_css(&self) -> (r: Option<(String, String)>)
        ensures
            match r {
                Some((sel, style)) => spec_as_css(self@) == Some((sel@, style@)),
                None => spec_as_css(self@) is None,
            },
    {
        if self.selector.len() != 1 {
            return None;
        }
        let sel = match &self.selector[0] {
            CosmeticFilterOperator::CssSelector(s) => s.clone(),
        };
        match &self.action {
            None => Some((sel, "display: none !important".to_owned())),
            Some(CosmeticFilterAction::Style(s)) => Some((sel, s.clone())),
        }
    }

    /// A filter that gives `style` to the elements of the CSS `selector`.
    pub fn from_css(selector: String, style: String) -> (r: Self)
        ensures
            r@ == (ProceduralView { selector: seq![selector@], style: Some(style@) }),
    {
        let r = ProceduralOrActionFilter {
            selector: vec![CosmeticFilterOperator::CssSelector(selector)],
            action: Some(CosmeticFilterAction::Style(style)),
        };
        proof {
            assert(r@.selector =~= seq![selector@]);
        }
        r
    }

    fn duplicate(&self) -> (r: Self)
        ensures
            r@ == self@,
    {
        let mut selector: Vec<CosmeticFilterOperator> = Vec::new();
        let mut i: usize = 0;
        while i < self.selector.len()
            invariant
                i <= self.selector@.len(),
                operators_view(selector@) == operators_view(self.selector@.take(i as int)),
            decreases self.selector.len() - i,
        {
            let op = match &self.selector[i] {
                CosmeticFilterOperator::CssSelector(s) => CosmeticFilterOperator::CssSelector(
                    s.clone(),
                ),
            };
            assert(operator_text(op) == operator_text(self.selector@[i as int]));
            let ghost before = selector@;
            selector.push(op);
            proof {
                assert(self.selector@.take(i + 1) =~= self.selector@.take(i as int).push(
                    self.selector@[i as int],
                ));
                assert(selector@ =~= before.push(op));
                assert(operators_view(selector@) =~= operators_view(before).push(operator_text(op)));
                assert(operators_view(self.selector@.take(i + 1)) =~= operators_view(
                    self.selector@.take(i as int),
                ).push(operator_text(self.selector@[i as int])));
            }
            i += 1;
        }
        proof {
            assert(self.selector@.take(self.selector@.len() as int) =~= self.selector@);
        }
        let action = match &self.action {
            Some(CosmeticFilterAction::Style(s)) => Some(CosmeticFilterAction::Style(s.clone())),
            None => None,
        };
        ProceduralOrActionFilter { selector, action }
    }

    fn same_as(&self, other: &Self) -> (r: bool)
        ensures
            r == (self@ == other@),
    {
        if self.selector.len() != other.selector.len() {
            proof {
                assert(self@.selector.len() != other@.selector.len());
            }
            return false;
        }
        let mut i: usize = 0;
        while i < self.selector.len()
            invariant
                i <= self.selector@.len(),
                self.selector@.len() == other.selector@.len(),
                forall|j: int| 0 <= j < i ==> operator_text(self.selector@[j]) == operator_text(
                    other.selector@[j],
                ),
            decreases self.selector.len() - i,
        {
            let same = match (&self.selector[i], &other.selector[i]) {
                (CosmeticFilterOperator::CssSelector(a), CosmeticFilterOperator::CssSelector(b)) => {
                    str_eq(a.as_str(), b.as_str())
                },
            };
            if !same {
                proof {
                    assert(self@.selector[i as int] != other@.selector[i as int]);
                }
                return false;
            }
            i += 1;
        }
        proof {
            assert(self@.selector =~= other@.selector);
        }
        match (&self.action, &other.action) {
            (None, None) => true,
            (Some(CosmeticFilterAction::Style(a)), Some(CosmeticFilterAction::Style(b))) => str_eq(
                a.as_str(),
                b.as_str(),
            ),
            _ => false,
        }
    }
}

/// The abstract value of each of `v`.
pub open spec fn procedurals_view(v: Seq<ProceduralOrActionFilter>) -> Seq<ProceduralView> {
    v.map_values(|p: ProceduralOrActionFilter| p@)
}

/// The set of the abstract values of `v`.
pub open spec fn procedural_set(v: Seq<ProceduralOrActionFilter>) -> Set<ProceduralView> {
    procedurals_view(v).to_set()
}

fn contains_procedural(v: &Vec<ProceduralOrActionFilter>, p: &ProceduralOrActionFilter) -> (r: bool)
    ensures
        r == procedural_set(v@).contains(p@),
{
    let mut i: usize = 0;
    while i < v.len()
        invariant
            i <= v@.len(),
            forall|j: int| 0 <= j < i ==> v@[j]@ != p@,
        decreases v.len() - i,
    {
        if v[i].same_as(p) {
            proof {
                assert(procedurals_view(v@)[i as int] == p@);
            }
            return true;
        }
        i += 1;
    }
    proof {
        if procedurals_view(v@).contains(p@) {
            let j = choose|j: int| 0 <= j < procedurals_view(v@).len() && procedurals_view(v@)[j] == p@;
            assert(v@[j]@ == p@);
        }
    }
    false
}

fn insert_procedural(v: &mut Vec<ProceduralOrActionFilter>, p: ProceduralOrActionFilter)
    requires
        procedurals_view(old(v)@).no_duplicates(),
    ensures
        procedural_set(final(v)@) == procedural_set(old(v)@).insert(p@),
        procedurals_view(final(v)@).no_duplicates(),
{
    if !contains_procedural(v, &p) {
        let ghost before = v@;
        let ghost pv = p@;
        v.push(p);
        proof {
            assert(procedurals_view(v@) =~= procedurals_view(before).push(pv));
            procedurals_view(before).lemma_push_to_set_commute(pv);
            assert forall|a: int, b: int|
                0 <= a < b < procedurals_view(v@).len() implies procedurals_view(v@)[a]
                != procedurals_view(v@)[b] by {
                if b == procedurals_view(before).len() {
                    assert(procedurals_view(before).contains(procedurals_view(v@)[a]));
                }
            }
        }
    } else {
        proof {
            assert(procedural_set(v@).insert(p@) =~= procedural_set(v@));
        }
    }
}

fn procedural_difference(a: &Vec<ProceduralOrActionFilter>, b: &Vec<ProceduralOrActionFilter>) -> (r:
    Vec<ProceduralOrActionFilter>)
    requires
        procedurals_view(a@).no_duplicates(),
    ensures
        procedural_set(r@) == procedural_set(a@).difference(procedural_set(b@)),
        procedurals_view(r@).no_duplicates(),
{
    let mut r: Vec<ProceduralOrActionFilter> = Vec::new();
    let mut i: usize = 0;
    while i < a.len()
        invariant
            i <= a@.len(),
            procedurals_view(a@).no_duplicates(),
            procedurals_view(r@).no_duplicates(),
            procedural_set(r@) == procedural_set(a@.take(i as int)).difference(procedural_set(b@)),
        decreases a.len() - i,
    {
        proof {
            assert(a@.take(i + 1) =~= a@.take(i as int).push(a@[i as int]));
            assert(procedurals_view(a@.take(i + 1)) =~= procedurals_view(a@.take(i as int)).push(
                a@[i as int]@,
            ));
            procedurals_view(a@.take(i as int)).lemma_push_to_set_commute(a@[i as int]@);
        }
        if !contains_procedural(b, &a[i]) {
            let ghost before = r@;
            proof {
                assert(!procedural_set(before).contains(a@[i as int]@)) by {
                    if procedural_set(before).contains(a@[i as int]@) {
                        let j = choose|j: int|
                            0 <= j < i && procedurals_view(a@.take(i as int))[j] == a@[i as int]@;
                        assert(procedurals_view(a@)[j] == procedurals_view(a@)[i as int]);
                    }
                }
            }
            r.push(a[i].duplicate());
            proof {
                assert(procedurals_view(r@) =~= procedurals_view(before).push(a@[i as int]@));
                procedurals_view(before).lemma_push_to_set_commute(a@[i as int]@);
                assert forall|x: int, y: int|
                    0 <= x < y < procedurals_view(r@).len() implies procedurals_view(r@)[x]
                    != procedurals_view(r@)[y] by {
                    if y == procedurals_view(before).len() {
                        assert(procedurals_view(before).contains(procedurals_view(r@)[x]));
                    }
                }
                assert(procedural_set(r@) =~= procedural_set(a@.take(i + 1)).difference(
                    procedural_set(b@),
                ));
            }
        } else {
            proof {
                assert(procedural_set(r@) =~= procedural_set(a@.take(i + 1)).difference(
                    procedural_set(b@),
                ));
            }
        }
        i += 1;
    }
    proof {
        assert(a@.take(a@.len() as int) =~= a@);
    }
    r
}

// ---------------------------------------------------------------------------------------------
// Hostname-specific rules
// ---------------------------------------------------------------------------------------------

/// How a hostname-specific rule acts on the pages it applies to.
#[derive(Debug)]
pub enum SpecificFilterType {
    Hide(String),
    Unhide(String),
    InjectScript(String),
    UninjectScript(String),
    ProceduralOrAction(ProceduralOrActionFilter),
    ProceduralOrActionException(ProceduralOrActionFilter),
}

/// Abstract value of a `SpecificFilterType`.
pub ghost enum SpecificKind {
    Hide(Seq<char>),
    Unhide(Seq<char>),
    InjectScript(Seq<char>),
    UninjectScript(Seq<char>),
    ProceduralOrAction(ProceduralView),
    ProceduralOrActionException(ProceduralView),
}

impl View for SpecificFilterType {
    type V = SpecificKind;

    open spec fn view(&self) -> SpecificKind {
        match self {
            SpecificFilterType::Hide(s) => SpecificKind::Hide(s@),
            SpecificFilterType::Unhide(s) => SpecificKind::Unhide(s@),
            SpecificFilterType::InjectScript(s) => SpecificKind::InjectScript(s@),
            SpecificFilterType::UninjectScript(s) => SpecificKind::UninjectScript(s@),
            SpecificFilterType::ProceduralOrAction(p) => SpecificKind::ProceduralOrAction(p@),
            SpecificFilterType::ProceduralOrActionException(p) => SpecificKind::ProceduralOrActionException(
                p@,
            ),
        }
    }
}

/// The opposite rule: hiding and its exception, injecting and its exception, and so on.
pub open spec fn spec_negated(k: SpecificKind) -> SpecificKind {
    match k {
        SpecificKind::Hide(s) => SpecificKind::Unhide(s),
        SpecificKind::Unhide(s) => SpecificKind::Hide(s),
        SpecificKind::InjectScript(s) => SpecificKind::UninjectScript(s),
        SpecificKind::UninjectScript(s) => SpecificKind::InjectScript(s),
        SpecificKind::ProceduralOrAction(p) => SpecificKind::ProceduralOrActionException(p),
        SpecificKind::ProceduralOrActionException(p) => SpecificKind::ProceduralOrAction(p),
    }
}

impl SpecificFilterType {
    fn negated(self) -> (r: Self)
        ensures
            r@ == spec_negated(self@),
    {
        match self {
            SpecificFilterType::Hide(s) => SpecificFilterType::Unhide(s),
            SpecificFilterType::Unhide(s) => SpecificFilterType::Hide(s),
            SpecificFilterType::InjectScript(s) => SpecificFilterType::UninjectScript(s),
            SpecificFilterType::UninjectScript(s) => SpecificFilterType::InjectScript(s),
            SpecificFilterType::ProceduralOrAction(p) => SpecificFilterType::ProceduralOrActionException(
                p,
            ),
            SpecificFilterType::ProceduralOrActionException(p) => SpecificFilterType::ProceduralOrAction(
                p,
            ),
        }
    }

    fn duplicate(&self) -> (r: Self)
        ensures
            r@ == self@,
    {
        match self {
            SpecificFilterType::Hide(s) => SpecificFilterType::Hide(s.clone()),
            SpecificFilterType::Unhide(s) => SpecificFilterType::Unhide(s.clone()),
            SpecificFilterType::InjectScript(s) => SpecificFilterType::InjectScript(s.clone()),
            SpecificFilterType::UninjectScript(s) => SpecificFilterType::UninjectScript(s.clone()),
            SpecificFilterType::ProceduralOrAction(p) => SpecificFilterType::ProceduralOrAction(
                p.duplicate(),
            ),
            SpecificFilterType::ProceduralOrActionException(p) => SpecificFilterType::ProceduralOrActionException(
                p.duplicate(),
            ),
        }
    }
}

/// The rule that a filter with this mask, selector and style files; `None` for a script
/// injection with a style, which is filed nowhere.
pub open spec fn spec_kind_of(mask: u8, selector: Seq<char>, style: Option<Seq<char>>) -> Option<
    SpecificKind,
> {
    let script = mask & SCRIPT_INJECT == SCRIPT_INJECT;
    let base = match style {
        None => if script {
            Some(SpecificKind::InjectScript(selector))
        } else {
            Some(SpecificKind::Hide(selector))
        },
        Some(st) => if script {
            None
        } else {
            Some(
                SpecificKind::ProceduralOrAction(
                    ProceduralView { selector: seq![selector], style: Some(st) },
                ),
            )
        },
    };
    if mask & UNHIDE == UNHIDE {
        match base {
            Some(k) => Some(spec_negated(k)),
            None => None,
        }
    } else {
        base
    }
}

/// The rule a hostname-specific filter files under each of its hostnames and entities.
pub open spec fn spec_filter_kind(f: CosmeticFilterView) -> Option<SpecificKind> {
    spec_kind_of(f.mask, f.selector, f.style)
}

/// The hashes of an optional list, none when it is absent.
pub open spec fn opt_hashes(o: Option<Seq<u64>>) -> Seq<u64> {
    match o {
        Some(s) => s,
        None => Seq::empty(),
    }
}

/// `k` filed under each of `hs`.
pub open spec fn tagged(hs: Seq<u64>, k: SpecificKind) -> Seq<(u64, SpecificKind)> {
    hs.map_values(|h: u64| (h, k))
}

/// What a hostname-specific filter files: its rule under its hostnames and then its entities,
/// and the opposite rule under its negated hostnames and then its negated entities.
pub open spec fn rule_entries(f: CosmeticFilterView) -> Seq<(u64, SpecificKind)> {
    match spec_filter_kind(f) {
        None => Seq::empty(),
        Some(k) => tagged(opt_hashes(f.hostnames) + opt_hashes(f.entities), k) + tagged(
            opt_hashes(f.not_hostnames) + opt_hashes(f.not_entities),
            spec_negated(k),
        ),
    }
}

// ---------------------------------------------------------------------------------------------
// The cache
// ---------------------------------------------------------------------------------------------

/// The cosmetic filters of an engine, filed for querying.
#[derive(Debug)]
pub struct CosmeticFilterCache {
    /// Classes that are hidden wherever they appear (`##.class`).
    simple_class_rules: Vec<String>,
    /// Ids that are hidden wherever they appear (`###id`).
    simple_id_rules: Vec<String>,
    /// Generic selectors that start with neither a class nor an id.
    misc_generic_selectors: Vec<String>,
    /// Generic selectors that start with a class, with that class, in the order filed.
    complex_class_rules: Vec<(String, String)>,
    /// Generic selectors that start with an id, with that id, in the order filed.
    complex_id_rules: Vec<(String, String)>,
    /// Hostname-specific rules, each with the hash it is filed under, in the order filed.
    specific_rules: Vec<(u64, SpecificFilterType)>,
}

/// Abstract value of the cache.
pub ghost struct CacheView {
    pub simple_class: Set<Seq<char>>,
    pub simple_id: Set<Seq<char>>,
    pub misc: Set<Seq<char>>,
    pub complex_class: Seq<(Seq<char>, Seq<char>)>,
    pub complex_id: Seq<(Seq<char>, Seq<char>)>,
    pub specific: Seq<(u64, SpecificKind)>,
}

/// The texts of each pair of `v`.
pub open spec fn pairs_view(v: Seq<(String, String)>) -> Seq<(Seq<char>, Seq<char>)> {
    v.map_values(|p: (String, String)| (p.0@, p.1@))
}

/// The abstract value of each filed rule of `v`.
pub open spec fn specifics_view(v: Seq<(u64, SpecificFilterType)>) -> Seq<(u64, SpecificKind)> {
    v.map_values(|p: (u64, SpecificFilterType)| (p.0, p.1@))
}

impl View for CosmeticFilterCache {
    type V = CacheView;

    closed spec fn view(&self) -> CacheView {
        CacheView {
            simple_class: set_of(self.simple_class_rules@),
            simple_id: set_of(self.simple_id_rules@),
            misc: set_of(self.misc_generic_selectors@),
            complex_class: pairs_view(self.complex_class_rules@),
            complex_id: pairs_view(self.complex_id_rules@),
            specific: specifics_view(self.specific_rules@),
        }
    }
}

/// The cache that holds nothing.
pub open spec fn empty_cache() -> CacheView {
    CacheView {
        simple_class: Set::empty(),
        simple_id: Set::empty(),
        misc: Set::empty(),
        complex_class: Seq::empty(),
        complex_id: Seq::empty(),
        specific: Seq::empty(),
    }
}

/// Files a generic selector: a selector that is nothing but a class (or an id) among the
/// simple classes (ids); one that starts with a class (id) under that class (id); one whose
/// first class or id cannot be read nowhere; any other among the other selectors.
pub open spec fn spec_add_generic(c: CacheView, sel: Seq<char>) -> CacheView {
    if sel.len() > 0 && (sel[0] == '.' || sel[0] == '#') {
        match spec_key_from_selector(sel) {
            Ok(key) => if key.len() == 0 {
                c
            } else if sel[0] == '.' {
                if key == sel {
                    CacheView { simple_class: c.simple_class.insert(key.drop_first()), ..c }
                } else {
                    CacheView { complex_class: c.complex_class.push((key.drop_first(), sel)), ..c }
                }
            } else {
                if key == sel {
                    CacheView { simple_id: c.simple_id.insert(key.drop_first()), ..c }
                } else {
                    CacheView { complex_id: c.complex_id.push((key.drop_first(), sel)), ..c }
                }
            },
            Err(_) => c,
        }
    } else {
        CacheView { misc: c.misc.insert(sel), ..c }
    }
}

/// Whether a filter names hostnames or entities, negated or not.
pub open spec fn has_hostname_constraint(f: CosmeticFilterView) -> bool {
    f.hostnames is Some || f.entities is Some || f.not_entities is Some || f.not_hostnames is Some
}

/// Whether a filter with only negated hostnames or entities also hides its selector everywhere
/// else: when it neither styles nor injects a script.
pub open spec fn has_hidden_generic(f: CosmeticFilterView) -> bool {
    f.hostnames is None && f.entities is None && (f.not_hostnames is Some || f.not_entities is Some)
        && f.style is None && f.mask & SCRIPT_INJECT != SCRIPT_INJECT
}

/// Files a filter: a generic filter as a generic selector; one with hostnames or entities under
/// their hashes, after its selector as a generic one when it has a hidden generic rule.
pub open spec fn spec_add_filter(c: CacheView, f: CosmeticFilterView) -> CacheView {
    if has_hostname_constraint(f) {
        let c1 = if has_hidden_generic(f) {
            spec_add_generic(c, f.selector)
        } else {
            c
        };
        CacheView { specific: c1.specific + rule_entries(f), ..c1 }
    } else {
        spec_add_generic(c, f.selector)
    }
}

/// Files all of `fs`, in order.
pub open spec fn spec_add_all(c: CacheView, fs: Seq<CosmeticFilterView>) -> CacheView
    decreases fs.len(),
{
    if fs.len() == 0 {
        c
    } else {
        spec_add_filter(spec_add_all(c, fs.drop_last()), fs.last())
    }
}

/// The abstract value of each of `v`.
pub open spec fn filters_view(v: Seq<CosmeticFilter>) -> Seq<CosmeticFilterView> {
    v.map_values(|f: CosmeticFilter| f@)
}

impl CosmeticFilterCache {
    /// A cache that holds nothing.
    pub fn empty() -> (r: Self)
        ensures
            r@ == empty_cache(),
    {
        let r = CosmeticFilterCache {
            simple_class_rules: Vec::new(),
            simple_id_rules: Vec::new(),
            misc_generic_selectors: Vec::new(),
            complex_class_rules: Vec::new(),
            complex_id_rules: Vec::new(),
            specific_rules: Vec::new(),
        };
        proof {
            assert(r@.simple_class =~= Set::<Seq<char>>::empty());
            assert(r@.simple_id =~= Set::<Seq<char>>::empty());
            assert(r@.misc =~= Set::<Seq<char>>::empty());
            assert(r@.complex_class =~= Seq::<(Seq<char>, Seq<char>)>::empty());
            assert(r@.complex_id =~= Seq::<(Seq<char>, Seq<char>)>::empty());
            assert(r@.specific =~= Seq::<(u64, SpecificKind)>::empty());
        }
        r
    }

    /// A cache holding `rules`, filed in order.
    pub fn new(rules: Vec<CosmeticFilter>) -> (r: Self)
        ensures
            r@ == spec_add_all(empty_cache(), filters_view(rules@)),
    {
        let mut c = CosmeticFilterCache::empty();
        let mut i: usize = 0;
        while i < rules.len()
            invariant
                i <= rules@.len(),
                c@ == spec_add_all(empty_cache(), filters_view(rules@).take(i as int)),
            decreases rules.len() - i,
        {
            proof {
                assert(filters_view(rules@).take(i + 1).drop_last() =~= filters_view(rules@).take(
                    i as int,
                ));
            }
            c.add_filter(rules[i].clone());
            i += 1;
        }
        proof {
            assert(filters_view(rules@).take(rules@.len() as int) =~= filters_view(rules@));
        }
        c
    }

    /// Files a filter (see `spec_add_filter`).
    pub fn add_filter(&mut self, rule: CosmeticFilter)
        ensures
            final(self)@ == spec_add_filter(old(self)@, rule@),
    {
        if rule.has_hostname_constraint() {
            match rule.hidden_generic_rule() {
                Some(generic_rule) => self.add_generic_filter(generic_rule),
                None => {},
            }
            self.store_hostname_rule(rule);
        } else {
            self.add_generic_filter(rule);
        }
    }

    /// Files a filter's selector as a generic one (see `spec_add_generic`).
    fn add_generic_filter(&mut self, rule: CosmeticFilter)
        ensures
            final(self)@ == spec_add_generic(old(self)@, rule@.selector),
    {
        let selector = rule.selector;
        let chars = str_to_chars(selector.as_str());
        if chars.len() > 0 && (chars[0] == '.' || chars[0] == '#') {
            match key_from_selector(selector.as_str()) {
                Ok(key) => {
                    let kc = str_to_chars(key.as_str());
                    if kc.len() == 0 {
                        return;
                    }
                    let name = chars_to_string(kc.as_slice(), 1, kc.len());
                    proof {
                        assert(name@ == key@.drop_first());
                    }
                    let simple = str_eq(key.as_str(), selector.as_str());
                    if chars[0] == '.' {
                        if simple {
                            insert_str(&mut self.simple_class_rules, name);
                        } else {
                            let ghost before = self.complex_class_rules@;
                            self.complex_class_rules.push((name, selector));
                            proof {
                                assert(pairs_view(self.complex_class_rules@) =~= pairs_view(
                                    before,
                                ).push((key@.drop_first(), chars@)));
                            }
                        }
                    } else {
                        if simple {
                            insert_str(&mut self.simple_id_rules, name);
                        } else {
                            let ghost before = self.complex_id_rules@;
                            self.complex_id_rules.push((name, selector));
                            proof {
                                assert(pairs_view(self.complex_id_rules@) =~= pairs_view(
                                    before,
                                ).push((key@.drop_first(), chars@)));
                            }
                        }
                    }
                },
                Err(_) => {},
            }
        } else {
            insert_str(&mut self.misc_generic_selectors, selector);
        }
    }

    /// Files `kind` under each of `hashes`.
    fn store_all(&mut self, hashes: &Option<Vec<u64>>, kind: &SpecificFilterType)
        ensures
            final(self)@ == (CacheView {
                specific: old(self)@.specific + tagged(opt_hashes(hashes.deep_view()), kind@),
                ..old(self)@
            }),
    {
        match hashes {
            Some(hs) => {
                let ghost start = self.specific_rules@;
                let mut i: usize = 0;
                while i < hs.len()
                    invariant
                        i <= hs@.len(),
                        self@ == (CacheView {
                            specific: specifics_view(start) + tagged(hs@.take(i as int), kind@),
                            ..old(self)@
                        }),
                        specifics_view(start) == old(self)@.specific,
                    decreases hs.len() - i,
                {
                    let ghost before = self.specific_rules@;
                    self.specific_rules.push((hs[i], kind.duplicate()));
                    proof {
                        assert(hs@.take(i + 1) =~= hs@.take(i as int).push(hs@[i as int]));
                        assert(specifics_view(self.specific_rules@) =~= specifics_view(before).push(
                            (hs@[i as int], kind@),
                        ));
                        assert(tagged(hs@.take(i + 1), kind@) =~= tagged(hs@.take(i as int), kind@).push(
                            (hs@[i as int], kind@),
                        ));
                        assert(specifics_view(self.specific_rules@) =~= specifics_view(start)
                            + tagged(hs@.take(i + 1), kind@));
                    }
                    i += 1;
                }
                proof {
                    assert(hs@.take(hs@.len() as int) =~= hs@);
                    assert(hashes.deep_view() == Some(hs@));
                }
            },
            None => {
                proof {
                    assert(tagged(Seq::<u64>::empty(), kind@) =~= Seq::<(u64, SpecificKind)>::empty());
                    assert(old(self)@.specific + Seq::<(u64, SpecificKind)>::empty()
                        =~= old(self)@.specific);
                }
            },
        }
    }

    /// Files a hostname-specific filter (see `rule_entries`).
    fn store_hostname_rule(&mut self, rule: CosmeticFilter)
        ensures
            final(self)@ == (CacheView {
                specific: old(self)@.specific + rule_entries(rule@),
                ..old(self)@
            }),
    {
        let ghost f = rule@;
        match kind_of(rule.mask, rule.selector, rule.style) {
            None => {
                proof {
                    assert(rule_entries(f) =~= Seq::<(u64, SpecificKind)>::empty());
                    assert(old(self)@.specific + rule_entries(f) =~= old(self)@.specific);
                }
            },
            Some(kind) => {
                let ghost k = kind@;
                let ghost s0 = self@.specific;
                self.store_all(&rule.hostnames, &kind);
                self.store_all(&rule.entities, &kind);
                let negated = kind.negated();
                self.store_all(&rule.not_hostnames, &negated);
                self.store_all(&rule.not_entities, &negated);
                proof {
                    let a = opt_hashes(f.hostnames);
                    let b = opt_hashes(f.entities);
                    let c = opt_hashes(f.not_hostnames);
                    let d = opt_hashes(f.not_entities);
                    assert(tagged(a + b, k) =~= tagged(a, k) + tagged(b, k));
                    assert(tagged(c + d, spec_negated(k)) =~= tagged(c, spec_negated(k)) + tagged(
                        d,
                        spec_negated(k),
                    ));
                    assert(self@.specific =~= s0 + rule_entries(f));
                }
            },
        }
    }
}

/// The rule that a filter with this mask, selector and style files.
fn kind_of(mask: crate::filters::cosmetic::CosmeticFilterMask, selector: String, style: Option<String>) -> (r:
    Option<SpecificFilterType>)
    ensures
        match r {
            Some(k) => spec_kind_of(mask.bits, selector@, style.deep_view()) == Some(k@),
            None => spec_kind_of(mask.bits, selector@, style.deep_view()) is None,
        },
{
    let unhide = mask.contains(UNHIDE);
    let script_inject = mask.contains(SCRIPT_INJECT);
    let kind = match (script_inject, style) {
        (false, None) => SpecificFilterType::Hide(selector),
        (true, None) => SpecificFilterType::InjectScript(selector),
        (false, Some(st)) => SpecificFilterType::ProceduralOrAction(
            ProceduralOrActionFilter::from_css(selector, st),
        ),
        (true, Some(_)) => {
            return None;
        },
    };
    if unhide {
        Some(kind.negated())
    } else {
        Some(kind)
    }
}

// ---------------------------------------------------------------------------------------------
// Generic rules for the classes and ids of a page
// ---------------------------------------------------------------------------------------------

/// The selectors filed under `key` among `rules`, in order, but those among the exceptions.
pub open spec fn complex_matches(
    rules: Seq<(Seq<char>, Seq<char>)>,
    key: Seq<char>,
    exc: Set<Seq<char>>,
) -> Seq<Seq<char>>
    decreases rules.len(),
{
    if rules.len() == 0 {
        Seq::empty()
    } else {
        let prev = complex_matches(rules.drop_last(), key, exc);
        let r = rules.last();
        if r.0 == key && !exc.contains(r.1) {
            prev.push(r.1)
        } else {
            prev
        }
    }
}

/// The selectors that a class (with sigil `.`) or an id (`#`) of a page makes relevant: the
/// class or id itself when it is a simple rule and not excepted, then the other selectors
/// filed under it.
pub open spec fn key_selectors(
    simple: Set<Seq<char>>,
    complex: Seq<(Seq<char>, Seq<char>)>,
    sigil: char,
    key: Seq<char>,
    exc: Set<Seq<char>>,
) -> Seq<Seq<char>> {
    (if simple.contains(key) && !exc.contains(seq![sigil] + key) {
        seq![seq![sigil] + key]
    } else {
        Seq::empty()
    }) + complex_matches(complex, key, exc)
}

/// `key_selectors` of each of `keys`, in order.
pub open spec fn all_key_selectors(
    simple: Set<Seq<char>>,
    complex: Seq<(Seq<char>, Seq<char>)>,
    sigil: char,
    keys: Seq<Seq<char>>,
    exc: Set<Seq<char>>,
) -> Seq<Seq<char>>
    decreases keys.len(),
{
    if keys.len() == 0 {
        Seq::empty()
    } else {
        all_key_selectors(simple, complex, sigil, keys.drop_last(), exc) + key_selectors(
            simple,
            complex,
            sigil,
            keys.last(),
            exc,
        )
    }
}

/// The generic selectors to hide for the classes and then the ids of a page.
pub open spec fn spec_hidden_class_id_selectors(
    c: CacheView,
    classes: Seq<Seq<char>>,
    ids: Seq<Seq<char>>,
    exc: Set<Seq<char>>,
) -> Seq<Seq<char>> {
    all_key_selectors(c.simple_class, c.complex_class, '.', classes, exc) + all_key_selectors(
        c.simple_id,
        c.complex_id,
        '#',
        ids,
        exc,
    )
}

/// Appends `key_selectors` of `key` to `out`.
fn push_key_selectors(
    out: &mut Vec<String>,
    simple: &Vec<String>,
    complex: &Vec<(String, String)>,
    sigil: char,
    key: &str,
    exceptions: &[String],
)
    ensures
        texts_view(final(out)@) == texts_view(old(out)@) + key_selectors(
            set_of(simple@),
            pairs_view(complex@),
            sigil,
            key@,
            set_of(exceptions@),
        ),
{
    let ghost exc = set_of(exceptions@);
    let ghost start = texts_view(out@);
    if contains_str(simple.as_slice(), key) {
        let whole = prefixed(sigil, key);
        if !contains_str(exceptions, whole.as_str()) {
            out.push(whole);
        }
    }
    proof {
        assert(texts_view(out@) =~= start + (if set_of(simple@).contains(key@) && !exc.contains(
            seq![sigil] + key@,
        ) {
            seq![seq![sigil] + key@]
        } else {
            Seq::<Seq<char>>::empty()
        }));
    }
    let ghost mid = texts_view(out@);
    let ghost rules = pairs_view(complex@);
    let mut i: usize = 0;
    while i < complex.len()
        invariant
            i <= complex@.len(),
            rules == pairs_view(complex@),
            texts_view(out@) == mid + complex_matches(rules.take(i as int), key@, exc),
            exc == set_of(exceptions@),
        decreases complex.len() - i,
    {
        proof {
            assert(rules.take(i + 1).drop_last() =~= rules.take(i as int));
            assert(rules.take(i + 1).last() == rules[i as int]);
        }
        if str_eq(complex[i].0.as_str(), key) && !contains_str(exceptions, complex[i].1.as_str()) {
            let ghost before = texts_view(out@);
            out.push(complex[i].1.clone());
            proof {
                assert(texts_view(out@) =~= before.push(complex@[i as int].1@));
            }
        }
        i += 1;
    }
    proof {
        assert(rules.take(complex@.len() as int) =~= rules);
        assert(texts_view(out@) =~= start + key_selectors(
            set_of(simple@),
            rules,
            sigil,
            key@,
            exc,
        ));
    }
}

/// Appends `all_key_selectors` of `keys` to `out`.
fn push_all_key_selectors(
    out: &mut Vec<String>,
    simple: &Vec<String>,
    complex: &Vec<(String, String)>,
    sigil: char,
    keys: &[String],
    exceptions: &[String],
)
    ensures
        texts_view(final(out)@) == texts_view(old(out)@) + all_key_selectors(
            set_of(simple@),
            pairs_view(complex@),
            sigil,
            texts_view(keys@),
            set_of(exceptions@),
        ),
{
    let ghost start = texts_view(out@);
    let ghost ks = texts_view(keys@);
    let mut i: usize = 0;
    while i < keys.len()
        invariant
            i <= keys@.len(),
            ks == texts_view(keys@),
            texts_view(out@) == start + all_key_selectors(
                set_of(simple@),
                pairs_view(complex@),
                sigil,
                ks.take(i as int),
                set_of(exceptions@),
            ),
        decreases keys.len() - i,
    {
        proof {
            assert(ks.take(i + 1).drop_last() =~= ks.take(i as int));
            assert(ks.take(i + 1).last() == keys@[i as int]@);
        }
        let ghost before = texts_view(out@);
        push_key_selectors(out, simple, complex, sigil, keys[i].as_str(), exceptions);
        proof {
            assert(texts_view(out@) =~= start + all_key_selectors(
                set_of(simple@),
                pairs_view(complex@),
                sigil,
                ks.take(i + 1),
                set_of(exceptions@),
            ));
        }
        i += 1;
    }
    proof {
        assert(ks.take(keys@.len() as int) =~= ks);
    }
}

impl CosmeticFilterCache {
    /// The generic selectors to hide, given the classes and ids that have appeared on a page and
    /// the page's exceptions (as returned for it by `hostname_cosmetic_resources`): for each
    /// class, then each id, the class or id itself if it is a simple rule, then the selectors
    /// filed under it, leaving out the exceptions.
    pub fn hidden_class_id_selectors(
        &self,
        classes: &[String],
        ids: &[String],
        exceptions: &[String],
    ) -> (r: Vec<String>)
        ensures
            texts_view(r@) == spec_hidden_class_id_selectors(
                self@,
                texts_view(classes@),
                texts_view(ids@),
                set_of(exceptions@),
            ),
    {
        let mut out: Vec<String> = Vec::new();
        push_all_key_selectors(
            &mut out,
            &self.simple_class_rules,
            &self.complex_class_rules,
            '.',
            classes,
            exceptions,
        );
        push_all_key_selectors(
            &mut out,
            &self.simple_id_rules,
            &self.complex_id_rules,
            '#',
            ids,
            exceptions,
        );
        proof {
            assert(texts_view(Seq::<String>::empty()) =~= Seq::<Seq<char>>::empty());
            assert(texts_view(out@) =~= spec_hidden_class_id_selectors(
                self@,
                texts_view(classes@),
                texts_view(ids@),
                set_of(exceptions@),
            ));
        }
        out
    }
}

// ---------------------------------------------------------------------------------------------
// Resources for a hostname
// ---------------------------------------------------------------------------------------------

/// The cosmetic filtering to apply to a page.
#[derive(Debug)]
pub struct UrlSpecificResources {
    /// Selectors of the elements to hide.
    pub hide_selectors: Vec<String>,
    /// Filters that style the elements they select.
    pub procedural_actions: Vec<ProceduralOrActionFilter>,
    /// Selectors excepted on the page; generic class and id rules for them are not to be applied
    /// (see `hidden_class_id_selectors`).
    pub exceptions: Vec<String>,
    /// Arguments of the scriptlets to inject into the page (`name, arg, ...`).
    pub script_injections: Vec<String>,
    /// Whether a `$generichide` exception applies to the page: generic rules are then left out,
    /// and `hidden_class_id_selectors` is not to be queried.
    pub generichide: bool,
}

/// Abstract value of the resources of a page: sets of selectors, filters and scriptlets.
pub ghost struct ResourcesView {
    pub hide_selectors: Set<Seq<char>>,
    pub procedural_actions: Set<ProceduralView>,
    pub exceptions: Set<Seq<char>>,
    pub script_injections: Set<Seq<char>>,
    pub generichide: bool,
}

impl View for UrlSpecificResources {
    type V = ResourcesView;

    open spec fn view(&self) -> ResourcesView {
        ResourcesView {
            hide_selectors: set_of(self.hide_selectors@),
            procedural_actions: procedural_set(self.procedural_actions@),
            exceptions: set_of(self.exceptions@),
            script_injections: set_of(self.script_injections@),
            generichide: self.generichide,
        }
    }
}

/// No vector of the resources repeats an item.
pub open spec fn resources_distinct(r: UrlSpecificResources) -> bool {
    &&& texts_view(r.hide_selectors@).no_duplicates()
    &&& procedurals_view(r.procedural_actions@).no_duplicates()
    &&& texts_view(r.exceptions@).no_duplicates()
    &&& texts_view(r.script_injections@).no_duplicates()
}

impl UrlSpecificResources {
    /// Resources that do nothing.
    pub fn empty() -> (r: Self)
        ensures
            r@ == (ResourcesView {
                hide_selectors: Set::empty(),
                procedural_actions: Set::empty(),
                exceptions: Set::empty(),
                script_injections: Set::empty(),
                generichide: false,
            }),
            resources_distinct(r),
    {
        let r = UrlSpecificResources {
            hide_selectors: Vec::new(),
            procedural_actions: Vec::new(),
            exceptions: Vec::new(),
            script_injections: Vec::new(),
            generichide: false,
        };
        proof {
            assert(set_of(r.hide_selectors@) =~= Set::<Seq<char>>::empty());
            assert(procedural_set(r.procedural_actions@) =~= Set::<ProceduralView>::empty());
            assert(texts_view(r.hide_selectors@) =~= Seq::<Seq<char>>::empty());
            assert(procedurals_view(r.procedural_actions@) =~= Seq::<ProceduralView>::empty());
        }
        r
    }
}

/// Which text of a filed rule to collect.
#[derive(Clone, Copy, PartialEq, Eq, Structural)]
pub enum TextKind {
    Hide,
    Unhide,
    InjectScript,
    UninjectScript,
}

/// The text of a filed rule of the given kind.
pub open spec fn text_of(k: SpecificKind, t: TextKind) -> Option<Seq<char>> {
    match (k, t) {
        (SpecificKind::Hide(s), TextKind::Hide) => Some(s),
        (SpecificKind::Unhide(s), TextKind::Unhide) => Some(s),
        (SpecificKind::InjectScript(s), TextKind::InjectScript) => Some(s),
        (SpecificKind::UninjectScript(s), TextKind::UninjectScript) => Some(s),
        _ => None,
    }
}

/// The texts of the given kind filed under any of `hs`.
pub open spec fn texts_for(rules: Seq<(u64, SpecificKind)>, hs: Set<u64>, t: TextKind) -> Set<
    Seq<char>,
>
    decreases rules.len(),
{
    if rules.len() == 0 {
        Set::empty()
    } else {
        let prev = texts_for(rules.drop_last(), hs, t);
        let r = rules.last();
        if hs.contains(r.0) {
            match text_of(r.1, t) {
                Some(x) => prev.insert(x),
                None => prev,
            }
        } else {
            prev
        }
    }
}

/// The styling filter of a filed rule (or of its exception).
pub open spec fn procedural_of(k: SpecificKind, exception: bool) -> Option<ProceduralView> {
    match k {
        SpecificKind::ProceduralOrAction(p) => if exception {
            None
        } else {
            Some(p)
        },
        SpecificKind::ProceduralOrActionException(p) => if exception {
            Some(p)
        } else {
            None
        },
        _ => None,
    }
}

/// The styling filters (or their exceptions) filed under any of `hs`.
pub open spec fn procedurals_for(rules: Seq<(u64, SpecificKind)>, hs: Set<u64>, exception: bool) -> Set<
    ProceduralView,
>
    decreases rules.len(),
{
    if rules.len() == 0 {
        Set::empty()
    } else {
        let prev = procedurals_for(rules.drop_last(), hs, exception);
        let r = rules.last();
        if hs.contains(r.0) {
            match procedural_of(r.1, exception) {
                Some(x) => prev.insert(x),
                None => prev,
            }
        } else {
            prev
        }
    }
}

/// The hashes a page's hostname is looked up under: those of its entities (the hostname without
/// its public suffix, and each of its parent domains), then those of the hostname and each of
/// its parent domains down to its registrable domain.
pub open spec fn request_hashes(hostname: Seq<char>) -> Seq<u64> {
    let domain = spec_host_domain(hostname);
    spec_entity_hashes(hostname, domain) + spec_hashes_from_labels(
        hostname,
        hostname.len() as int,
        hostname.len() - domain.len(),
    )
}

/// The resources of a page looked up under the hashes `hs`: the hiding rules filed for it, but
/// those it excepts, with the other generic selectors (but the excepted ones) unless
/// `generichide`; the styling filters filed for it, but those it excepts; its exceptions; and
/// the scriptlets filed for it, but those it excepts, or none at all when it excepts the empty
/// scriptlet.
pub open spec fn resources_for(c: CacheView, hs: Set<u64>, generichide: bool) -> ResourcesView {
    let hides = texts_for(c.specific, hs, TextKind::Hide);
    let unhides = texts_for(c.specific, hs, TextKind::Unhide);
    let injects = texts_for(c.specific, hs, TextKind::InjectScript);
    let uninjects = texts_for(c.specific, hs, TextKind::UninjectScript);
    let specific_hide = hides.difference(unhides);
    ResourcesView {
        hide_selectors: if generichide {
            specific_hide
        } else {
            specific_hide.union(c.misc.difference(unhides))
        },
        procedural_actions: procedurals_for(c.specific, hs, false).difference(
            procedurals_for(c.specific, hs, true),
        ),
        exceptions: unhides,
        script_injections: if uninjects.contains(Seq::empty()) {
            Set::empty()
        } else {
            injects.difference(uninjects)
        },
        generichide,
    }
}

/// What `hostname_cosmetic_resources` gives for a page of `hostname`.
pub open spec fn spec_hostname_resources(c: CacheView, hostname: Seq<char>, generichide: bool) -> ResourcesView {
    resources_for(c, request_hashes(hostname).to_set(), generichide)
}

/// The hashes a page of `hostname` is looked up under.
fn request_hash_list(hostname: &str) -> (r: Vec<u64>)
    ensures
        r@ == request_hashes(hostname@),
{
    let (ds, de) = get_host_domain(hostname);
    let h = str_to_chars(hostname);
    let domain = chars_to_string(h.as_slice(), ds, h.len());
    proof {
        assert(domain@ == spec_host_domain(hostname@));
        crate::utils::lemma_index_of(domain@, '.');
        assert(crate::filters::cosmetic::suffix_fits(hostname@, domain@));
    }
    let (mut hashes, mut hosts) = hostname_domain_hashes(hostname, domain.as_str());
    hashes.append(&mut hosts);
    hashes
}

/// The entity hashes and the hostname hashes of a hostname with the given domain.
fn hostname_domain_hashes(hostname: &str, domain: &str) -> (r: (Vec<u64>, Vec<u64>))
    requires
        crate::filters::cosmetic::suffix_fits(hostname@, domain@),
        domain@.len() <= hostname@.len(),
    ensures
        r.0@ == spec_entity_hashes(hostname@, domain@),
        r.1@ == spec_hashes_from_labels(
            hostname@,
            hostname@.len() as int,
            hostname@.len() - domain@.len(),
        ),
{
    let request_entities = get_entity_hashes_from_labels(hostname, domain);
    let request_hostnames = get_hostname_hashes_from_labels(hostname, domain);
    (request_entities, request_hostnames)
}

fn contains_hash(v: &Vec<u64>, h: u64) -> (r: bool)
    ensures
        r == v@.contains(h),
{
    let mut i: usize = 0;
    while i < v.len()
        invariant
            i <= v@.len(),
            forall|j: int| 0 <= j < i ==> v@[j] != h,
        decreases v.len() - i,
    {
        if v[i] == h {
            return true;
        }
        i += 1;
    }
    false
}

fn kind_text(k: &SpecificFilterType, t: TextKind) -> (r: Option<&String>)
    ensures
        match r {
            Some(x) => text_of(k@, t) == Some(x@),
            None => text_of(k@, t) is None,
        },
{
    match (k, t) {
        (SpecificFilterType::Hide(s), TextKind::Hide) => Some(s),
        (SpecificFilterType::Unhide(s), TextKind::Unhide) => Some(s),
        (SpecificFilterType::InjectScript(s), TextKind::InjectScript) => Some(s),
        (SpecificFilterType::UninjectScript(s), TextKind::UninjectScript) => Some(s),
        _ => None,
    }
}

fn kind_procedural(k: &SpecificFilterType, exception: bool) -> (r: Option<&ProceduralOrActionFilter>)
    ensures
        match r {
            Some(x) => procedural_of(k@, exception) == Some(x@),
            None => procedural_of(k@, exception) is None,
        },
{
    match k {
        SpecificFilterType::ProceduralOrAction(p) => if exception {
            None
        } else {
            Some(p)
        },
        SpecificFilterType::ProceduralOrActionException(p) => if exception {
            Some(p)
        } else {
            None
        },
        _ => None,
    }
}

/// The texts of the given kind filed under any of `hashes`.
fn collect_texts(rules: &Vec<(u64, SpecificFilterType)>, hashes: &Vec<u64>, t: TextKind) -> (r: Vec<
    String,
>)
    ensures
        set_of(r@) == texts_for(specifics_view(rules@), hashes@.to_set(), t),
        texts_view(r@).no_duplicates(),
{
    let ghost all = specifics_view(rules@);
    let ghost hs = hashes@.to_set();
    let mut out: Vec<String> = Vec::new();
    let mut i: usize = 0;
    proof {
        assert(set_of(out@) =~= Set::<Seq<char>>::empty());
        assert(texts_view(out@) =~= Seq::<Seq<char>>::empty());
    }
    while i < rules.len()
        invariant
            i <= rules@.len(),
            all == specifics_view(rules@),
            hs == hashes@.to_set(),
            set_of(out@) == texts_for(all.take(i as int), hs, t),
            texts_view(out@).no_duplicates(),
        decreases rules.len() - i,
    {
        proof {
            assert(all.take(i + 1).drop_last() =~= all.take(i as int));
            assert(all.take(i + 1).last() == (rules@[i as int].0, rules@[i as int].1@));
        }
        if contains_hash(hashes, rules[i].0) {
            match kind_text(&rules[i].1, t) {
                Some(x) => insert_str(&mut out, x.clone()),
                None => {},
            }
        }
        i += 1;
    }
    proof {
        assert(all.take(rules@.len() as int) =~= all);
    }
    out
}

/// The styling filters (or their exceptions) filed under any of `hashes`.
fn collect_procedurals(rules: &Vec<(u64, SpecificFilterType)>, hashes: &Vec<u64>, exception: bool) -> (r:
    Vec<ProceduralOrActionFilter>)
    ensures
        procedural_set(r@) == procedurals_for(specifics_view(rules@), hashes@.to_set(), exception),
        procedurals_view(r@).no_duplicates(),
{
    let ghost all = specifics_view(rules@);
    let ghost hs = hashes@.to_set();
    let mut out: Vec<ProceduralOrActionFilter> = Vec::new();
    let mut i: usize = 0;
    proof {
        assert(procedural_set(out@) =~= Set::<ProceduralView>::empty());
        assert(procedurals_view(out@) =~= Seq::<ProceduralView>::empty());
    }
    while i < rules.len()
        invariant
            i <= rules@.len(),
            all == specifics_view(rules@),
            hs == hashes@.to_set(),
            procedural_set(out@) == procedurals_for(all.take(i as int), hs, exception),
            procedurals_view(out@).no_duplicates(),
        decreases rules.len() - i,
    {
        proof {
            assert(all.take(i + 1).drop_last() =~= all.take(i as int));
            assert(all.take(i + 1).last() == (rules@[i as int].0, rules@[i as int].1@));
        }
        if contains_hash(hashes, rules[i].0) {
            match kind_procedural(&rules[i].1, exception) {
                Some(x) => insert_procedural(&mut out, x.duplicate()),
                None => {},
            }
        }
        i += 1;
    }
    proof {
        assert(all.take(rules@.len() as int) =~= all);
    }
    out
}

/// Adds to `out` each of `src` that is not in `skip`.
fn union_except(out: &mut Vec<String>, src: &Vec<String>, skip: &Vec<String>)
    ensures
        set_of(final(out)@) == set_of(old(out)@).union(set_of(src@).difference(set_of(skip@))),
        texts_view(old(out)@).no_duplicates() ==> texts_view(final(out)@).no_duplicates(),
{
    let mut i: usize = 0;
    while i < src.len()
        invariant
            i <= src@.len(),
            set_of(out@) == set_of(old(out)@).union(set_of(src@.take(i as int)).difference(
                set_of(skip@),
            )),
            texts_view(old(out)@).no_duplicates() ==> texts_view(out@).no_duplicates(),
        decreases src.len() - i,
    {
        proof {
            assert(src@.take(i + 1) =~= src@.take(i as int).push(src@[i as int]));
            assert(texts_view(src@.take(i + 1)) =~= texts_view(src@.take(i as int)).push(
                src@[i as int]@,
            ));
            texts_view(src@.take(i as int)).lemma_push_to_set_commute(src@[i as int]@);
        }
        if !contains_str(skip.as_slice(), src[i].as_str()) {
            insert_str(out, src[i].clone());
        }
        proof {
            assert(set_of(out@) =~= set_of(old(out)@).union(set_of(src@.take(i + 1)).difference(
                set_of(skip@),
            )));
        }
        i += 1;
    }
    proof {
        assert(src@.take(src@.len() as int) =~= src@);
    }
}

impl CosmeticFilterCache {
    /// The cosmetic filtering to apply to a page of `hostname`, given whether a `$generichide`
    /// exception applies to it (see `spec_hostname_resources`).
    pub fn hostname_cosmetic_resources(&self, hostname: &str, generichide: bool) -> (r:
        UrlSpecificResources)
        ensures
            r@ == spec_hostname_resources(self@, hostname@, generichide),
            resources_distinct(r),
    {
        let hashes = request_hash_list(hostname);
        self.resources_for_hashes(&hashes, generichide)
    }

    /// The resources of a page looked up under `hashes` (see `resources_for`).
    fn resources_for_hashes(&self, hashes: &Vec<u64>, generichide: bool) -> (r: UrlSpecificResources)
        ensures
            r@ == resources_for(self@, hashes@.to_set(), generichide),
            resources_distinct(r),
    {
        let hides = collect_texts(&self.specific_rules, hashes, TextKind::Hide);
        let unhides = collect_texts(&self.specific_rules, hashes, TextKind::Unhide);
        let injects = collect_texts(&self.specific_rules, hashes, TextKind::InjectScript);
        let uninjects = collect_texts(&self.specific_rules, hashes, TextKind::UninjectScript);
        let procs = collect_procedurals(&self.specific_rules, hashes, false);
        let proc_exceptions = collect_procedurals(&self.specific_rules, hashes, true);
        let mut hide_selectors = difference(&hides, &unhides);
        if !generichide {
            union_except(&mut hide_selectors, &self.misc_generic_selectors, &unhides);
        }
        let procedural_actions = procedural_difference(&procs, &proc_exceptions);
        let script_injections = if contains_str(uninjects.as_slice(), "") {
            proof {
                reveal_strlit("");
                assert(""@ =~= Seq::<char>::empty());
            }
            Vec::new()
        } else {
            proof {
                reveal_strlit("");
                assert(""@ =~= Seq::<char>::empty());
            }
            difference(&injects, &uninjects)
        };
        proof {
            assert(set_of(Seq::<String>::empty()) =~= Set::<Seq<char>>::empty());
            assert(texts_view(Seq::<String>::empty()) =~= Seq::<Seq<char>>::empty());
        }
        UrlSpecificResources {
            hide_selectors,
            procedural_actions,
            exceptions: unhides,
            script_injections,
            generichide,
        }
    }
}

// ---------------------------------------------------------------------------------------------
// Laws
// ---------------------------------------------------------------------------------------------

proof fn lemma_complex_matches_skip(rules: Seq<(Seq<char>, Seq<char>)>, key: Seq<char>, exc: Set<Seq<char>>)
    ensures
        forall|i: int|
            0 <= i < complex_matches(rules, key, exc).len() ==> !exc.contains(
                #[trigger] complex_matches(rules, key, exc)[i],
            ),
    decreases rules.len(),
{
    if rules.len() > 0 {
        lemma_complex_matches_skip(rules.drop_last(), key, exc);
        let prev = complex_matches(rules.drop_last(), key, exc);
        let r = rules.last();
        if r.0 == key && !exc.contains(r.1) {
            assert forall|i: int| 0 <= i < prev.push(r.1).len() implies !exc.contains(
                #[trigger] prev.push(r.1)[i],
            ) by {
                if i < prev.len() {
                    assert(prev.push(r.1)[i] == prev[i]);
                }
            }
        }
    }
}

proof fn lemma_all_key_selectors_skip(
    simple: Set<Seq<char>>,
    complex: Seq<(Seq<char>, Seq<char>)>,
    sigil: char,
    keys: Seq<Seq<char>>,
    exc: Set<Seq<char>>,
)
    ensures
        forall|i: int|
            0 <= i < all_key_selectors(simple, complex, sigil, keys, exc).len() ==> !exc.contains(
                #[trigger] all_key_selectors(simple, complex, sigil, keys, exc)[i],
            ),
    decreases keys.len(),
{
    if keys.len() > 0 {
        lemma_all_key_selectors_skip(simple, complex, sigil, keys.drop_last(), exc);
        lemma_complex_matches_skip(complex, keys.last(), exc);
        let prev = all_key_selectors(simple, complex, sigil, keys.drop_last(), exc);
        let here = key_selectors(simple, complex, sigil, keys.last(), exc);
        assert forall|i: int| 0 <= i < here.len() implies !exc.contains(#[trigger] here[i]) by {
            let head = if simple.contains(keys.last()) && !exc.contains(seq![sigil] + keys.last()) {
                seq![seq![sigil] + keys.last()]
            } else {
                Seq::<Seq<char>>::empty()
            };
            if i >= head.len() {
                assert(here[i] == complex_matches(complex, keys.last(), exc)[i - head.len()]);
            }
        }
        assert forall|i: int|
            0 <= i < (prev + here).len() implies !exc.contains(#[trigger] (prev + here)[i]) by {
            if i >= prev.len() {
                assert((prev + here)[i] == here[i - prev.len()]);
            }
        }
    }
}

/// No selector that `hidden_class_id_selectors` returns is among the exceptions it is given:
/// what it returns is safe to hide on the page whose exceptions they are.
pub proof fn law_hidden_selectors_skip_exceptions(
    c: CacheView,
    classes: Seq<Seq<char>>,
    ids: Seq<Seq<char>>,
    exc: Set<Seq<char>>,
)
    ensures
        forall|i: int|
            0 <= i < spec_hidden_class_id_selectors(c, classes, ids, exc).len() ==> !exc.contains(
                #[trigger] spec_hidden_class_id_selectors(c, classes, ids, exc)[i],
            ),
{
    let a = all_key_selectors(c.simple_class, c.complex_class, '.', classes, exc);
    let b = all_key_selectors(c.simple_id, c.complex_id, '#', ids, exc);
    lemma_all_key_selectors_skip(c.simple_class, c.complex_class, '.', classes, exc);
    lemma_all_key_selectors_skip(c.simple_id, c.complex_id, '#', ids, exc);
    assert forall|i: int| 0 <= i < (a + b).len() implies !exc.contains(#[trigger] (a + b)[i]) by {
        if i >= a.len() {
            assert((a + b)[i] == b[i - a.len()]);
        }
    }
}

/// The resources of a page never hide a selector that the page excepts.
pub proof fn law_exceptions_never_hidden(c: CacheView, hostname: Seq<char>, generichide: bool)
    ensures
        spec_hostname_resources(c, hostname, generichide).hide_selectors.disjoint(
            spec_hostname_resources(c, hostname, generichide).exceptions,
        ),
{
}

/// A `$generichide` exception only takes generic selectors away from a page: the selectors it
/// hides with one are among those it hides without, and everything else is the same.
pub proof fn law_generichide_only_removes(c: CacheView, hostname: Seq<char>)
    ensures
        spec_hostname_resources(c, hostname, true).hide_selectors.subset_of(
            spec_hostname_resources(c, hostname, false).hide_selectors,
        ),
        spec_hostname_resources(c, hostname, true).exceptions == spec_hostname_resources(
            c,
            hostname,
            false,
        ).exceptions,
        spec_hostname_resources(c, hostname, true).procedural_actions == spec_hostname_resources(
            c,
            hostname,
            false,
        ).procedural_actions,
        spec_hostname_resources(c, hostname, true).script_injections == spec_hostname_resources(
            c,
            hostname,
            false,
        ).script_injections,
{
}

proof fn lemma_texts_for_append(
    a: Seq<(u64, SpecificKind)>,
    b: Seq<(u64, SpecificKind)>,
    hs: Set<u64>,
    t: TextKind,
)
    ensures
        texts_for(a + b, hs, t) == texts_for(a, hs, t).union(texts_for(b, hs, t)),
    decreases b.len(),
{
    if b.len() == 0 {
        assert(a + b =~= a);
        assert(texts_for(a, hs, t).union(Set::empty()) =~= texts_for(a, hs, t));
    } else {
        lemma_texts_for_append(a, b.drop_last(), hs, t);
        assert((a + b).drop_last() =~= a + b.drop_last());
        assert((a + b).last() == b.last());
        assert(texts_for(a + b, hs, t) =~= texts_for(a, hs, t).union(texts_for(b, hs, t)));
    }
}

proof fn lemma_texts_for_tagged(hs_rule: Seq<u64>, k: SpecificKind, hs: Set<u64>, t: TextKind, i: int)
    requires
        0 <= i < hs_rule.len(),
        hs.contains(hs_rule[i]),
        text_of(k, t) is Some,
    ensures
        texts_for(tagged(hs_rule, k), hs, t).contains(text_of(k, t)->0),
    decreases hs_rule.len(),
{
    let tg = tagged(hs_rule, k);
    assert(tg.drop_last() =~= tagged(hs_rule.drop_last(), k));
    if i < hs_rule.len() - 1 {
        lemma_texts_for_tagged(hs_rule.drop_last(), k, hs, t, i);
    }
}

/// A hiding rule filed for a hostname or entity of a page hides its selector on that page,
/// unless the page excepts it.
pub proof fn law_added_hiding_rule_applies(
    c: CacheView,
    f: CosmeticFilterView,
    hostname: Seq<char>,
    generichide: bool,
    i: int,
)
    requires
        f.mask & UNHIDE != UNHIDE,
        f.mask & SCRIPT_INJECT != SCRIPT_INJECT,
        f.style is None,
        0 <= i < (opt_hashes(f.hostnames) + opt_hashes(f.entities)).len(),
        request_hashes(hostname).contains((opt_hashes(f.hostnames) + opt_hashes(f.entities))[i]),
    ensures
        spec_hostname_resources(spec_add_filter(c, f), hostname, generichide).hide_selectors.contains(
            f.selector,
        ) || spec_hostname_resources(spec_add_filter(c, f), hostname, generichide).exceptions.contains(
            f.selector,
        ),
{
    let pos = opt_hashes(f.hostnames) + opt_hashes(f.entities);
    let hs = request_hashes(hostname).to_set();
    let k = SpecificKind::Hide(f.selector);
    assert(spec_filter_kind(f) == Some(k));
    assert(f.hostnames is Some || f.entities is Some);
    let c1 = if has_hidden_generic(f) {
        spec_add_generic(c, f.selector)
    } else {
        c
    };
    let neg = tagged(opt_hashes(f.not_hostnames) + opt_hashes(f.not_entities), spec_negated(k));
    assert(rule_entries(f) == tagged(pos, k) + neg);
    lemma_texts_for_tagged(pos, k, hs, TextKind::Hide, i);
    lemma_texts_for_append(tagged(pos, k), neg, hs, TextKind::Hide);
    lemma_texts_for_append(c1.specific, rule_entries(f), hs, TextKind::Hide);
    assert(spec_add_filter(c, f).specific == c1.specific + rule_entries(f));
    assert(texts_for(spec_add_filter(c, f).specific, hs, TextKind::Hide).contains(f.selector));
}

} // verus!
