//! Catalogs of filter lists that can be fetched from the web, and the description of such a
//! source.

use vstd::prelude::*;

use crate::lists::FilterFormat;

pub mod default;
pub mod regions;
pub mod slimlist;

verus! {

/// Describes an online source of adblock rules.
#[derive(Debug, Clone)]
pub struct RemoteFilterSource {
    pub uuid: String,
    pub url: String,
    pub title: String,
    pub format: FilterFormat,
    pub langs: Vec<String>,
    pub support_url: String,
    pub component_id: String,
    pub base64_public_key: String,
    pub desc: String,
}

/// A filter list of a catalog: where to fetch it, what it is called, which languages it is
/// meant for, and how its updates are signed.
#[derive(Debug, Clone)]
pub struct FilterList {
    pub uuid: String,
    pub url: String,
    pub title: String,
    pub langs: Vec<String>,
    pub support_url: String,
    pub component_id: String,
    pub base64_public_key: String,
    pub desc: String,
}

/// The text of each field of a filter list.
pub ghost struct FilterListView {
    pub uuid: Seq<char>,
    pub url: Seq<char>,
    pub title: Seq<char>,
    pub langs: Seq<Seq<char>>,
    pub support_url: Seq<char>,
    pub component_id: Seq<char>,
    pub base64_public_key: Seq<char>,
    pub desc: Seq<char>,
}

/// The text of each of `v`.
pub open spec fn strings_view(v: Seq<String>) -> Seq<Seq<char>> {
    v.map_values(|s: String| s@)
}

impl View for FilterList {
    type V = FilterListView;

    open spec fn view(&self) -> FilterListView {
        FilterListView {
            uuid: self.uuid@,
            url: self.url@,
            title: self.title@,
            langs: strings_view(self.langs@),
            support_url: self.support_url@,
            component_id: self.component_id@,
            base64_public_key: self.base64_public_key@,
            desc: self.desc@,
        }
    }
}

/// The view of each of `v`.
pub open spec fn lists_view(v: Seq<FilterList>) -> Seq<FilterListView> {
    v.map_values(|l: FilterList| l@)
}

pub(crate) fn langs0() -> (r: Vec<String>)
    ensures
        strings_view(r@) == Seq::<Seq<char>>::empty(),
{
    let r: Vec<String> = Vec::new();
    proof {
        assert(strings_view(r@) =~= Seq::<Seq<char>>::empty());
    }
    r
}

pub(crate) fn langs1(a: &str) -> (r: Vec<String>)
    ensures
        strings_view(r@) == seq![a@],
{
    let r = vec![a.to_owned()];
    proof {
        assert(strings_view(r@) =~= seq![a@]);
    }
    r
}

pub(crate) fn langs2(a: &str, b: &str) -> (r: Vec<String>)
    ensures
        strings_view(r@) == seq![a@, b@],
{
    let r = vec![a.to_owned(), b.to_owned()];
    proof {
        assert(strings_view(r@) =~= seq![a@, b@]);
    }
    r
}

pub(crate) fn langs3(a: &str, b: &str, c: &str) -> (r: Vec<String>)
    ensures
        strings_view(r@) == seq![a@, b@, c@],
{
    let r = vec![a.to_owned(), b.to_owned(), c.to_owned()];
    proof {
        assert(strings_view(r@) =~= seq![a@, b@, c@]);
    }
    r
}

pub(crate) fn entry(
    uuid: &str,
    url: &str,
    title: &str,
    langs: Vec<String>,
    support_url: &str,
    component_id: &str,
    base64_public_key: &str,
    desc: &str,
) -> (r: FilterList)
    ensures
        r@ == (FilterListView {
            uuid: uuid@,
            url: url@,
            title: title@,
            langs: strings_view(langs@),
            support_url: support_url@,
            component_id: component_id@,
            base64_public_key: base64_public_key@,
            desc: desc@,
        }),
{
    FilterList {
        uuid: uuid.to_owned(),
        url: url.to_owned(),
        title: title.to_owned(),
        langs,
        support_url: support_url.to_owned(),
        component_id: component_id.to_owned(),
        base64_public_key: base64_public_key.to_owned(),
        desc: desc.to_owned(),
    }
}

} // verus!
