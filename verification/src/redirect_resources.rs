//! Storage of the resources that `$redirect` filters can point to, by name and by alias.

use vstd::prelude::*;

use crate::resources::{spec_mime_str, Resource, ResourceType};
use crate::utils::str_eq;

verus! {

/// A resource that a request can be redirected to.
#[derive(Debug)]
pub struct RedirectResource {
    pub content_type: String,
    pub data: String,
}

impl Clone for RedirectResource {
    fn clone(&self) -> (r: Self)
        ensures
            r@ == self@,
    {
        RedirectResource { content_type: self.content_type.clone(), data: self.data.clone() }
    }
}

impl View for RedirectResource {
    type V = (Seq<char>, Seq<char>);

    open spec fn view(&self) -> (Seq<char>, Seq<char>) {
        (self.content_type@, self.data@)
    }
}

/// Map from names to resources of a sequence of insertions, later ones winning.
pub open spec fn entries_map(s: Seq<(Seq<char>, (Seq<char>, Seq<char>))>) -> Map<
    Seq<char>,
    (Seq<char>, Seq<char>),
>
    decreases s.len(),
{
    if s.len() == 0 {
        Map::empty()
    } else {
        entries_map(s.drop_last()).insert(s.last().0, s.last().1)
    }
}

/// The entries of a storage, viewed.
pub open spec fn entries_view(v: Seq<(String, RedirectResource)>) -> Seq<
    (Seq<char>, (Seq<char>, Seq<char>)),
> {
    v.map_values(|e: (String, RedirectResource)| (e.0@, e.1@))
}

/// Redirect resources by name (and alias).
#[derive(Debug)]
pub struct RedirectResourceStorage {
    /// Insertions in order; a later insertion under a name replaces earlier ones.
    pub resources: Vec<(String, RedirectResource)>,
}

impl View for RedirectResourceStorage {
    type V = Map<Seq<char>, (Seq<char>, Seq<char>)>;

    open spec fn view(&self) -> Map<Seq<char>, (Seq<char>, Seq<char>)> {
        entries_map(entries_view(self.resources@))
    }
}

/// The redirect resources described by a resource: one under its name and one under each alias,
/// for MIME resources; none for templates.
pub open spec fn resource_entries(r: Resource) -> Seq<(Seq<char>, (Seq<char>, Seq<char>))> {
    match r.kind {
        ResourceType::Mime(m) => r.aliases@.map_values(
            |a: String| (a@, (spec_mime_str(m), r.content@)),
        ).push((r.name@, (spec_mime_str(m), r.content@))),
        ResourceType::Template => Seq::empty(),
    }
}

/// The storage after inserting the redirect resources of `res`, in order.
pub open spec fn add_all(m: Map<Seq<char>, (Seq<char>, Seq<char>)>, es: Seq<
    (Seq<char>, (Seq<char>, Seq<char>)),
>) -> Map<Seq<char>, (Seq<char>, Seq<char>)>
    decreases es.len(),
{
    if es.len() == 0 {
        m
    } else {
        add_all(m, es.drop_last()).insert(es.last().0, es.last().1)
    }
}

/// The storage built from a list of resources, in order.
pub open spec fn resources_map(rs: Seq<Resource>) -> Map<Seq<char>, (Seq<char>, Seq<char>)>
    decreases rs.len(),
{
    if rs.len() == 0 {
        Map::empty()
    } else {
        add_all(resources_map(rs.drop_last()), resource_entries(rs.last()))
    }
}

proof fn lemma_entries_push(v: Seq<(String, RedirectResource)>, e: (String, RedirectResource))
    ensures
        entries_map(entries_view(v.push(e))) == entries_map(entries_view(v)).insert(e.0@, e.1@),
{
    assert(entries_view(v.push(e)).drop_last() =~= entries_view(v));
}

impl Default for RedirectResourceStorage {
    fn default() -> (r: Self)
        ensures
            r@ == Map::<Seq<char>, (Seq<char>, Seq<char>)>::empty(),
    {
        RedirectResourceStorage::new()
    }
}

impl RedirectResourceStorage {
    /// An empty storage.
    pub fn new() -> (r: Self)
        ensures
            r@ == Map::<Seq<char>, (Seq<char>, Seq<char>)>::empty(),
    {
        RedirectResourceStorage { resources: Vec::new() }
    }

    fn insert(&mut self, name: String, res: RedirectResource)
        ensures
            final(self)@ == old(self)@.insert(name@, res@),
    {
        proof {
            lemma_entries_push(self.resources@, (name, res));
        }
        self.resources.push((name, res));
    }

    /// The resource stored under `name`, if any.
    pub fn get_resource(&self, name: &str) -> (r: Option<&RedirectResource>)
        ensures
            match r {
                Some(x) => self@.contains_key(name@) && self@[name@] == x@,
                None => !self@.contains_key(name@),
            },
    {
        let ghost full = entries_view(self.resources@);
        let mut i = self.resources.len();
        proof {
            assert(full.subrange(0, i as int) =~= full);
        }
        while i > 0
            invariant
                i <= self.resources@.len(),
                full == entries_view(self.resources@),
                entries_map(full).contains_key(name@) == entries_map(full.subrange(0, i as int)).contains_key(name@),
                entries_map(full).contains_key(name@) ==> entries_map(full)[name@] == entries_map(full.subrange(0, i as int))[name@],
            decreases i,
        {
            proof {
                assert(full.subrange(0, i as int).drop_last() =~= full.subrange(0, i - 1));
                assert(full.subrange(0, i as int).last() == full[i - 1]);
            }
            if str_eq(self.resources[i - 1].0.as_str(), name) {
                return Some(&self.resources[i - 1].1);
            }
            i -= 1;
        }
        proof {
            assert(full.subrange(0, 0) =~= Seq::<(Seq<char>, (Seq<char>, Seq<char>))>::empty());
        }
        None
    }

    /// Adds the redirect resources described by `resource`: under its name and each alias, for
    /// a MIME resource; nothing for a template.
    pub fn add_resource(&mut self, resource: Resource)
        ensures
            final(self)@ == add_all(old(self)@, resource_entries(resource)),
    {
        self.add_resource_ref(&resource);
    }

    fn add_resource_ref(&mut self, resource: &Resource)
        ensures
            final(self)@ == add_all(old(self)@, resource_entries(*resource)),
    {
        match resource.kind {
            ResourceType::Mime(m) => {
                let ct = m.as_string();
                let ghost es = resource_entries(*resource);
                let ghost al = resource.aliases@.map_values(
                    |a: String| (a@, (spec_mime_str(m), resource.content@)),
                );
                let mut i: usize = 0;
                while i < resource.aliases.len()
                    invariant
                        i <= resource.aliases@.len(),
                        ct@ == spec_mime_str(m),
                        al == resource.aliases@.map_values(
                            |a: String| (a@, (spec_mime_str(m), resource.content@)),
                        ),
                        self@ == add_all(old(self)@, al.subrange(0, i as int)),
                    decreases resource.aliases.len() - i,
                {
                    let rr = RedirectResource {
                        content_type: ct.clone(),
                        data: resource.content.clone(),
                    };
                    self.insert(resource.aliases[i].clone(), rr);
                    i += 1;
                    proof {
                        assert(al.subrange(0, i as int).drop_last() =~= al.subrange(0, i - 1));
                    }
                }
                proof {
                    assert(al.subrange(0, al.len() as int) =~= al);
                    assert(es.drop_last() =~= al);
                }
                let rr = RedirectResource { content_type: ct, data: resource.content.clone() };
                self.insert(resource.name.clone(), rr);
            },
            ResourceType::Template => {},
        }
    }

    /// A storage holding the redirect resources of all `resources`, in order.
    pub fn from_resources(resources: &[Resource]) -> (r: Self)
        ensures
            r@ == resources_map(resources@),
    {
        let mut s = RedirectResourceStorage::new();
        let mut i: usize = 0;
        while i < resources.len()
            invariant
                i <= resources@.len(),
                s@ == resources_map(resources@.subrange(0, i as int)),
            decreases resources.len() - i,
        {
            s.add_resource_ref(&resources[i]);
            i += 1;
            proof {
                assert(resources@.subrange(0, i as int).drop_last() =~= resources@.subrange(
                    0,
                    i - 1,
                ));
            }
        }
        proof {
            assert(resources@.subrange(0, resources@.len() as int) =~= resources@);
        }
        s
    }
}

proof fn lemma_add_all_hit(
    m: Map<Seq<char>, (Seq<char>, Seq<char>)>,
    es: Seq<(Seq<char>, (Seq<char>, Seq<char>))>,
    v: (Seq<char>, Seq<char>),
    i: int,
)
    requires
        0 <= i < es.len(),
        forall|j: int| 0 <= j < es.len() ==> (#[trigger] es[j]).1 == v,
    ensures
        add_all(m, es).contains_key(es[i].0),
        add_all(m, es)[es[i].0] == v,
    decreases es.len(),
{
    if i < es.len() - 1 {
        let init = es.drop_last();
        assert forall|j: int| 0 <= j < init.len() implies (#[trigger] init[j]).1 == v by {
            assert(init[j] == es[j]);
        }
        assert(init[i] == es[i]);
        lemma_add_all_hit(m, init, v, i);
    }
}

proof fn lemma_add_all_other(
    m: Map<Seq<char>, (Seq<char>, Seq<char>)>,
    es: Seq<(Seq<char>, (Seq<char>, Seq<char>))>,
    k: Seq<char>,
)
    requires
        forall|j: int| 0 <= j < es.len() ==> (#[trigger] es[j]).0 != k,
    ensures
        add_all(m, es).contains_key(k) == m.contains_key(k),
        m.contains_key(k) ==> add_all(m, es)[k] == m[k],
    decreases es.len(),
{
    if es.len() > 0 {
        let init = es.drop_last();
        assert(es[es.len() - 1].0 != k);
        assert forall|j: int| 0 <= j < init.len() implies (#[trigger] init[j]).0 != k by {
            assert(init[j] == es[j]);
        }
        lemma_add_all_other(m, init, k);
    }
}

/// Once a MIME resource is added, its name and each of its aliases give it back (with its
/// content type and content), and every other name gives what it gave before.
pub proof fn law_added_resource_found(m: Map<Seq<char>, (Seq<char>, Seq<char>)>, r: Resource)
    requires
        r.kind is Mime,
    ensures
        add_all(m, resource_entries(r)).contains_key(r.name@),
        add_all(m, resource_entries(r))[r.name@] == (spec_mime_str(r.kind->0), r.content@),
        forall|i: int|
            0 <= i < r.aliases@.len() ==> add_all(m, resource_entries(r)).contains_key(
                (#[trigger] r.aliases@[i])@,
            ) && add_all(m, resource_entries(r))[r.aliases@[i]@] == (
                spec_mime_str(r.kind->0),
                r.content@,
            ),
        forall|k: Seq<char>|
            #![trigger add_all(m, resource_entries(r)).contains_key(k)]
            k != r.name@ && (forall|i: int| 0 <= i < r.aliases@.len() ==> (#[trigger] r.aliases@[i])@
                != k) ==> add_all(m, resource_entries(r)).contains_key(k) == m.contains_key(k),
        forall|k: Seq<char>|
            #![trigger add_all(m, resource_entries(r))[k]]
            k != r.name@ && (forall|i: int| 0 <= i < r.aliases@.len() ==> (#[trigger] r.aliases@[i])@
                != k) && m.contains_key(k) ==> add_all(m, resource_entries(r))[k] == m[k],
{
    let v = (spec_mime_str(r.kind->0), r.content@);
    let es = resource_entries(r);
    let n = r.aliases@.len() as int;
    assert(es.len() == n + 1);
    assert forall|j: int| 0 <= j < es.len() implies (#[trigger] es[j]).1 == v by {}
    assert(es[n].0 == r.name@);
    lemma_add_all_hit(m, es, v, n);
    assert forall|i: int| 0 <= i < n implies add_all(m, es).contains_key(
        (#[trigger] r.aliases@[i])@,
    ) && add_all(m, es)[r.aliases@[i]@] == v by {
        assert(es[i].0 == r.aliases@[i]@);
        lemma_add_all_hit(m, es, v, i);
    }
    assert forall|k: Seq<char>|
        #![trigger add_all(m, es).contains_key(k)]
        k != r.name@ && (forall|i: int| 0 <= i < n ==> (#[trigger] r.aliases@[i])@ != k) implies add_all(
        m,
        es,
    ).contains_key(k) == m.contains_key(k) by {
        assert forall|j: int| 0 <= j < es.len() implies (#[trigger] es[j]).0 != k by {
            if j < n {
                assert(es[j].0 == r.aliases@[j]@);
            }
        }
        lemma_add_all_other(m, es, k);
    }
    assert forall|k: Seq<char>|
        #![trigger add_all(m, es)[k]]
        k != r.name@ && (forall|i: int| 0 <= i < n ==> (#[trigger] r.aliases@[i])@ != k)
            && m.contains_key(k) implies add_all(m, es)[k] == m[k] by {
        assert forall|j: int| 0 <= j < es.len() implies (#[trigger] es[j]).0 != k by {
            if j < n {
                assert(es[j].0 == r.aliases@[j]@);
            }
        }
        lemma_add_all_other(m, es, k);
    }
}

} // verus!
