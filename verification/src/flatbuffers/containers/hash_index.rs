//! A map from non-empty string keys to values with open addressing in a table whose size is a
//! power of two. Collisions are resolved by triangular probing: from the slot of the key's hash,
//! the probe moves 1, 2, 3, ... slots further (modulo the table size), which visits every slot
//! of the table within as many steps as the table has slots. An empty key marks a free slot. The
//! table is kept at most half full: once it is fuller, it doubles and every entry is placed
//! again.

use std::hash::Hash;
use std::hash::Hasher;
use vstd::multiset::Multiset;
use vstd::prelude::*;

verus! {

// ---------------------------------------------------------------------------------------------
// Triangular probing
// ---------------------------------------------------------------------------------------------

/// `2` to the power `k`.
pub open spec fn pow2(k: nat) -> nat
    decreases k,
{
    if k == 0 {
        1
    } else {
        2 * pow2((k - 1) as nat)
    }
}

/// Whether `n` is a power of two.
pub open spec fn is_pow2(n: int) -> bool {
    exists|k: nat| pow2(k) == n
}

/// `0 + 1 + ... + j`.
pub open spec fn tri(j: nat) -> nat
    decreases j,
{
    if j == 0 {
        0
    } else {
        tri((j - 1) as nat) + j
    }
}

/// The slot visited at step `j` of the probe that starts from hash `h` in a table of `n`
/// slots.
pub open spec fn probe_pos(h: int, j: nat, n: int) -> int {
    (h + tri(j)) % n
}

proof fn lemma_pow2_pos(k: nat)
    ensures
        pow2(k) >= 1,
    decreases k,
{
    if k > 0 {
        lemma_pow2_pos((k - 1) as nat);
    }
}

proof fn lemma_tri_closed(j: nat)
    ensures
        2 * tri(j) == (j as int) * (j as int + 1),
    decreases j,
{
    if j > 0 {
        let i: int = j - 1;
        lemma_tri_closed(i as nat);
        assert(2 * tri(j) == i * (i + 1) + 2 * (i + 1));
        assert(i * (i + 1) + 2 * (i + 1) == (i + 1) * (i + 2)) by (nonlinear_arith);
        let jj: int = j as int;
        assert(jj * (jj + 1) == (i + 1) * (i + 2)) by (nonlinear_arith)
            requires
                jj == i + 1,
        ;
        assert(2 * tri(j) == jj * (jj + 1));
    } else {
        let jj: int = j as int;
        assert(jj * (jj + 1) == 0) by (nonlinear_arith)
            requires
                jj == 0,
        ;
    }
}

/// If an odd number times `s` is a multiple of `2^m`, so is `s`.
proof fn lemma_odd_factor(d: int, s: int, q: int, m: nat) -> (q2: int)
    requires
        d % 2 == 1,
        d * s == q * pow2(m),
    ensures
        s == q2 * pow2(m),
    decreases m,
{
    if m == 0 {
        assert(s == s * pow2(0));
        s
    } else {
        let p = pow2((m - 1) as nat);
        assert(pow2(m) == 2 * p);
        assert(q * pow2(m) == 2 * (q * p)) by (nonlinear_arith)
            requires
                pow2(m) == 2 * p,
        ;
        if s % 2 == 1 {
            let a = d / 2;
            let b = s / 2;
            assert(d == 2 * a + 1);
            assert(s == 2 * b + 1);
            assert(d * s == 2 * (2 * a * b + a + b) + 1) by (nonlinear_arith)
                requires
                    d == 2 * a + 1,
                    s == 2 * b + 1,
            ;
            assert(false);
        }
        let s2 = s / 2;
        assert(s == 2 * s2);
        assert(d * s == 2 * (d * s2)) by (nonlinear_arith)
            requires
                s == 2 * s2,
        ;
        assert(d * s2 == q * p);
        let q2 = lemma_odd_factor(d, s2, q, (m - 1) as nat);
        assert(s == q2 * pow2(m)) by (nonlinear_arith)
            requires
                s == 2 * s2,
                s2 == q2 * p,
                pow2(m) == 2 * p,
        ;
        q2
    }
}

/// A multiple of `m > 0` strictly between `0` and `m` does not exist.
proof fn lemma_no_small_multiple(x: int, q: int, m: int)
    requires
        m > 0,
    ensures
        !(0 < x < m && x == q * m),
{
    if q <= 0 {
        assert(q * m <= 0) by (nonlinear_arith)
            requires
                q <= 0,
                m > 0,
        ;
    } else {
        assert(q * m >= m) by (nonlinear_arith)
            requires
                q >= 1,
                m > 0,
        ;
    }
}

/// Two different steps below the table size visit different slots.
proof fn lemma_probe_injective(h: int, a: nat, b: nat, k: nat)
    requires
        a < b < pow2(k),
    ensures
        probe_pos(h, a, pow2(k) as int) != probe_pos(h, b, pow2(k) as int),
{
    let n = pow2(k) as int;
    lemma_pow2_pos(k);
    if probe_pos(h, a, n) == probe_pos(h, b, n) {
        let x = h + tri(a);
        let y = h + tri(b);
        vstd::arithmetic::div_mod::lemma_fundamental_div_mod(x, n);
        vstd::arithmetic::div_mod::lemma_fundamental_div_mod(y, n);
        let q = y / n - x / n;
        assert(y - x == n * (y / n) - n * (x / n));
        assert(n * (y / n) - n * (x / n) == q * n) by (nonlinear_arith)
            requires
                q == y / n - x / n,
        ;
        assert(tri(b) - tri(a) == q * n);
        lemma_tri_closed(a);
        lemma_tri_closed(b);
        let d: int = b - a;
        let s: int = (a + b + 1) as int;
        assert(d * s == b * (b + 1) - a * (a + 1)) by (nonlinear_arith)
            requires
                d == b - a,
                s == a + b + 1,
        ;
        assert(d * s == 2 * (tri(b) - tri(a)));
        assert(pow2(k + 1) == 2 * n);
        assert(d * s == q * pow2(k + 1)) by (nonlinear_arith)
            requires
                d * s == 2 * (q * n),
                pow2(k + 1) == 2 * n,
        ;
        if d % 2 == 1 {
            let q2 = lemma_odd_factor(d, s, q, k + 1);
            lemma_no_small_multiple(s, q2, 2 * n);
        } else {
            assert(s % 2 == 1);
            assert(s * d == q * pow2(k + 1)) by (nonlinear_arith)
                requires
                    d * s == q * pow2(k + 1),
            ;
            let q2 = lemma_odd_factor(s, d, q, k + 1);
            lemma_no_small_multiple(d, q2, 2 * n);
        }
    }
}

/// Within as many steps as the table has slots, the probe visits every slot.
pub proof fn lemma_probe_covers(h: int, k: nat, t: int)
    requires
        0 <= t < pow2(k),
    ensures
        exists|j: nat| j < pow2(k) && probe_pos(h, j, pow2(k) as int) == t,
{
    let n = pow2(k) as int;
    lemma_pow2_pos(k);
    let steps = vstd::set_lib::set_int_range(0, n);
    let f = |j: int| probe_pos(h, j as nat, n);
    let visited = steps.map(f);
    vstd::set_lib::lemma_int_range(0, n);
    assert(vstd::relations::injective_on(f, steps)) by {
        assert forall|a: int, b: int| steps.contains(a) && steps.contains(b) && #[trigger] f(a)
            == #[trigger] f(b) implies a == b by {
            if a < b {
                lemma_probe_injective(h, a as nat, b as nat, k);
            } else if b < a {
                lemma_probe_injective(h, b as nat, a as nat, k);
            }
        }
    }
    vstd::set_lib::lemma_map_size(steps, visited, f);
    assert(visited.subset_of(steps)) by {
        assert forall|x: int| visited.contains(x) implies steps.contains(x) by {
            let j = choose|j: int| steps.contains(j) && f(j) == x;
            vstd::arithmetic::div_mod::lemma_mod_bound(h + tri(j as nat), n);
        }
    }
    vstd::set_lib::lemma_subset_equality(visited, steps);
    assert(steps.contains(t));
    assert(visited.contains(t));
    let j = choose|j: int| steps.contains(j) && f(j) == t;
    assert(probe_pos(h, j as nat, n) == t);
}

// ---------------------------------------------------------------------------------------------
// Finding a slot
// ---------------------------------------------------------------------------------------------

/// The keys of a table, as character sequences; the empty sequence marks a free slot.
pub open spec fn keys_view(keys: Seq<String>) -> Seq<Seq<char>> {
    keys.map_values(|k: String| k@)
}

/// Whether a probe for `key` stops at slot `i`: the slot is free, or, where `stop_at_key`,
/// it holds `key`.
pub open spec fn slot_stops(keys: Seq<Seq<char>>, i: int, key: Seq<char>, stop_at_key: bool) -> bool {
    keys[i].len() == 0 || (stop_at_key && keys[i] == key)
}

/// `slot` is the first slot, along the triangular probe from hash `h`, at which a probe for
/// `key` stops.
pub open spec fn first_stop(
    keys: Seq<Seq<char>>,
    h: int,
    key: Seq<char>,
    stop_at_key: bool,
    slot: int,
) -> bool {
    exists|j: nat|
        {
            &&& j < keys.len()
            &&& slot == #[trigger] probe_pos(h, j, keys.len() as int)
            &&& slot_stops(keys, slot, key, stop_at_key)
            &&& forall|i: nat|
                i < j ==> !slot_stops(keys, #[trigger] probe_pos(h, i, keys.len() as int), key, stop_at_key)
        }
}

/// `slot` is the first slot, along the triangular probe from some hash, at which a probe for
/// `key` stops.
pub open spec fn probe_stops_at(keys: Seq<Seq<char>>, key: Seq<char>, stop_at_key: bool, slot: int) -> bool {
    exists|h: int| first_stop(keys, h, key, stop_at_key, slot)
}

/// A probe stops at one slot only.
proof fn lemma_first_stop_unique(keys: Seq<Seq<char>>, h: int, key: Seq<char>, stop_at_key: bool, a: int, b: int)
    requires
        first_stop(keys, h, key, stop_at_key, a),
        first_stop(keys, h, key, stop_at_key, b),
    ensures
        a == b,
{
    let n = keys.len() as int;
    let ja = choose|j: nat| {
        &&& j < keys.len()
        &&& a == #[trigger] probe_pos(h, j, n)
        &&& slot_stops(keys, a, key, stop_at_key)
        &&& forall|i: nat| i < j ==> !slot_stops(keys, #[trigger] probe_pos(h, i, n), key, stop_at_key)
    };
    let jb = choose|j: nat| {
        &&& j < keys.len()
        &&& b == #[trigger] probe_pos(h, j, n)
        &&& slot_stops(keys, b, key, stop_at_key)
        &&& forall|i: nat| i < j ==> !slot_stops(keys, #[trigger] probe_pos(h, i, n), key, stop_at_key)
    };
    if ja < jb {
        assert(!slot_stops(keys, probe_pos(h, ja, n), key, stop_at_key));
    } else if jb < ja {
        assert(!slot_stops(keys, probe_pos(h, jb, n), key, stop_at_key));
    }
}

/// The hash of `key` as computed by `rustc_hash::FxHasher` (the key is fed through
/// `std::hash::Hash` for `str` into a fresh hasher, and the hasher is finished). Nothing is
/// stated of the value: the hasher keeps a machine word as its state, so the same key hashes
/// differently on 32-bit and 64-bit machines.
#[verifier::external_body]
fn get_hash(key: &str) -> usize {
    let mut hasher = rustc_hash::FxHasher::default();
    key.hash(&mut hasher);
    hasher.finish() as usize
}

/// Whether a probe for `key` stops at slot `i` of `keys`.
fn stops_at(keys: &[String], i: usize, key: &str, stop_at_key: bool) -> (r: bool)
    requires
        i < keys@.len(),
    ensures
        r == slot_stops(keys_view(keys@), i as int, key@, stop_at_key),
{
    let k = keys[i].as_str();
    k.is_empty() || (stop_at_key && crate::utils::str_eq(k, key))
}

/// The slot at which the triangular probe from `hash` first stops: the first free slot, or,
/// where `stop_at_key`, the first slot holding `key` if that comes earlier.
pub fn find_slot_from(hash: usize, keys: &[String], key: &str, stop_at_key: bool) -> (slot: usize)
    requires
        is_pow2(keys@.len() as int),
        keys@.len() <= usize::MAX / 2,
        exists|i: int| 0 <= i < keys@.len() && slot_stops(keys_view(keys@), i, key@, stop_at_key),
    ensures
        slot < keys@.len(),
        slot_stops(keys_view(keys@), slot as int, key@, stop_at_key),
        first_stop(keys_view(keys@), hash as int, key@, stop_at_key, slot as int),
{
    let n = keys.len();
    let ghost kv = keys_view(keys@);
    let ghost h = hash as int;
    let ghost k: nat = choose|k: nat| pow2(k) == n;
    let ghost t: int = choose|i: int| 0 <= i < n && slot_stops(kv, i, key@, stop_at_key);
    proof {
        lemma_pow2_pos(k);
        lemma_probe_covers(h, k, t);
    }
    let ghost jw: nat = choose|j: nat| j < pow2(k) && probe_pos(h, j, pow2(k) as int) == t;
    let mut slot = hash % n;
    let mut step: usize = 0;
    assert(tri(0) == 0);
    loop
        invariant
            n == keys@.len(),
            kv == keys_view(keys@),
            h == hash as int,
            pow2(k) == n,
            0 < n <= usize::MAX / 2,
            step <= jw < n,
            0 <= t < n,
            probe_pos(h, jw, n as int) == t,
            slot_stops(kv, t, key@, stop_at_key),
            slot < n,
            slot == probe_pos(h, step as nat, n as int),
            forall|i: nat| i < step ==> !slot_stops(kv, #[trigger] probe_pos(h, i, n as int), key@, stop_at_key),
        decreases jw - step,
    {
        if stops_at(keys, slot, key, stop_at_key) {
            assert(first_stop(kv, h, key@, stop_at_key, slot as int)) by {
                assert(kv.len() == n);
                let j = step as nat;
                assert(slot == probe_pos(h, j, kv.len() as int));
                assert(forall|i: nat| i < j ==> !slot_stops(kv, #[trigger] probe_pos(h, i, kv.len() as int), key@, stop_at_key));
            }
            return slot;
        }
        assert(step != jw);
        let ghost prev = step;
        step = step + 1;
        slot = (slot + step) % n;
        proof {
            assert(tri(step as nat) == tri(prev as nat) + step);
            vstd::arithmetic::div_mod::lemma_add_mod_noop_right(step as int, h + tri(prev as nat), n as int);
            assert(slot == probe_pos(h, step as nat, n as int));
            assert forall|i: nat| i < step implies !slot_stops(kv, #[trigger] probe_pos(h, i, n as int), key@, stop_at_key) by {
                if i == prev {
                } else {
                    assert(i < prev);
                }
            }
        }
    }
}

/// The slot at which a probe for `key` stops, starting from the slot of the key's hash: the
/// first free slot, or, where `stop_at_key`, the first slot holding `key` if that comes
/// earlier. Which slot that is depends on the hash, of which nothing is stated.
pub fn find_slot(keys: &[String], key: &str, stop_at_key: bool) -> (slot: usize)
    requires
        is_pow2(keys@.len() as int),
        keys@.len() <= usize::MAX / 2,
        exists|i: int| 0 <= i < keys@.len() && slot_stops(keys_view(keys@), i, key@, stop_at_key),
    ensures
        slot < keys@.len(),
        slot_stops(keys_view(keys@), slot as int, key@, stop_at_key),
        probe_stops_at(keys_view(keys@), key@, stop_at_key, slot as int),
{
    let hash = get_hash(key);
    let slot = find_slot_from(hash, keys, key, stop_at_key);
    assert(first_stop(keys_view(keys@), hash as int, key@, stop_at_key, slot as int));
    slot
}

// ---------------------------------------------------------------------------------------------
// Entries of a table
// ---------------------------------------------------------------------------------------------

/// What a slot holding key `k` and value `v` contributes to the table's entries: nothing where
/// the slot is free.
pub open spec fn slot_entry<V>(k: Seq<char>, v: V) -> Multiset<(Seq<char>, V)> {
    if k.len() == 0 {
        Multiset::empty()
    } else {
        Multiset::singleton((k, v))
    }
}

/// The entries held by the first `i` slots.
pub open spec fn entries_upto<V>(keys: Seq<Seq<char>>, vals: Seq<V>, i: nat) -> Multiset<(Seq<char>, V)>
    decreases i,
{
    if i == 0 {
        Multiset::empty()
    } else {
        entries_upto(keys, vals, (i - 1) as nat).add(slot_entry(keys[i - 1], vals[i - 1]))
    }
}

/// The entries of a table: the key and value of each slot that is not free.
pub open spec fn table_entries<V>(keys: Seq<Seq<char>>, vals: Seq<V>) -> Multiset<(Seq<char>, V)> {
    entries_upto(keys, vals, keys.len())
}

proof fn lemma_entries_frame<V>(k1: Seq<Seq<char>>, v1: Seq<V>, k2: Seq<Seq<char>>, v2: Seq<V>, i: nat)
    requires
        forall|j: int| 0 <= j < i ==> k1[j] == k2[j] && v1[j] == v2[j],
    ensures
        entries_upto(k1, v1, i) == entries_upto(k2, v2, i),
    decreases i,
{
    if i > 0 {
        lemma_entries_frame(k1, v1, k2, v2, (i - 1) as nat);
    }
}

/// Writing key `k` and value `v` into slot `s` trades that slot's old entry for the new one.
proof fn lemma_entries_update<V>(keys: Seq<Seq<char>>, vals: Seq<V>, i: nat, s: int, k: Seq<char>, v: V)
    requires
        0 <= s < i <= keys.len(),
        i <= vals.len(),
    ensures
        entries_upto(keys.update(s, k), vals.update(s, v), i).add(slot_entry(keys[s], vals[s]))
            == entries_upto(keys, vals, i).add(slot_entry(k, v)),
    decreases i,
{
    broadcast use vstd::multiset::group_multiset_axioms;

    let k2 = keys.update(s, k);
    let v2 = vals.update(s, v);
    let p = (i - 1) as nat;
    if s == p {
        lemma_entries_frame(keys, vals, k2, v2, p);
        assert(entries_upto(k2, v2, i).add(slot_entry(keys[s], vals[s])) =~= entries_upto(
            keys,
            vals,
            i,
        ).add(slot_entry(k, v)));
    } else {
        lemma_entries_update(keys, vals, p, s, k, v);
        assert(k2[p as int] == keys[p as int] && v2[p as int] == vals[p as int]);
        let a = entries_upto(k2, v2, p);
        let b = entries_upto(keys, vals, p);
        let e_old = slot_entry(keys[s], vals[s]);
        let e_new = slot_entry(k, v);
        let e_p = slot_entry(keys[p as int], vals[p as int]);
        assert(a.add(e_old) == b.add(e_new));
        assert(a.add(e_p).add(e_old) =~= a.add(e_old).add(e_p));
        assert(b.add(e_new).add(e_p) =~= b.add(e_p).add(e_new));
    }
}

/// A slot in use contributes its key and value to the entries.
proof fn lemma_entries_contains<V>(keys: Seq<Seq<char>>, vals: Seq<V>, i: nat, s: int)
    requires
        0 <= s < i <= keys.len(),
        keys[s].len() > 0,
    ensures
        entries_upto(keys, vals, i).count((keys[s], vals[s])) >= 1,
    decreases i,
{
    broadcast use vstd::multiset::group_multiset_axioms;

    if s < i - 1 {
        lemma_entries_contains(keys, vals, (i - 1) as nat, s);
    }
}

/// The first `i` slots hold at most `i` entries, and fewer only where one of them is free.
proof fn lemma_entries_len<V>(keys: Seq<Seq<char>>, vals: Seq<V>, i: nat)
    requires
        i <= keys.len(),
    ensures
        entries_upto(keys, vals, i).len() <= i,
        entries_upto(keys, vals, i).len() < i ==> exists|j: int| 0 <= j < i && keys[j].len() == 0,
    decreases i,
{
    broadcast use vstd::multiset::group_multiset_axioms;

    if i > 0 {
        let p = (i - 1) as nat;
        lemma_entries_len(keys, vals, p);
        if entries_upto(keys, vals, i).len() < i && keys[p as int].len() != 0 {
            let j = choose|j: int| 0 <= j < p && keys[j].len() == 0;
            assert(0 <= j < i && keys[j].len() == 0);
        }
    }
}

/// A table with fewer entries than slots has a free slot.
proof fn lemma_free_slot<V>(keys: Seq<Seq<char>>, vals: Seq<V>)
    requires
        table_entries(keys, vals).len() < keys.len(),
    ensures
        exists|j: int| 0 <= j < keys.len() && keys[j].len() == 0,
{
    lemma_entries_len(keys, vals, keys.len());
}

// ---------------------------------------------------------------------------------------------
// Reading a table
// ---------------------------------------------------------------------------------------------

/// A read-only view of a table: its keys and, slot by slot, their values.
pub struct HashIndexView<V> {
    indexes: Vec<String>,
    values: Vec<V>,
}

impl<V: Copy> HashIndexView<V> {
    /// The keys of the table, slot by slot.
    pub closed spec fn keys(&self) -> Seq<Seq<char>> {
        keys_view(self.indexes@)
    }

    /// The values of the table, slot by slot.
    pub closed spec fn vals(&self) -> Seq<V> {
        self.values@
    }

    pub fn new(indexes: Vec<String>, values: Vec<V>) -> (r: Self)
        ensures
            r.keys() == keys_view(indexes@),
            r.vals() == values@,
    {
        HashIndexView { indexes, values }
    }

    /// The value of the first slot, along the probe for `key`, that holds `key`, unless a free
    /// slot comes first.
    pub fn get_single(&self, key: &str) -> (r: Option<V>)
        requires
            is_pow2(self.keys().len() as int),
            self.keys().len() <= usize::MAX / 2,
            self.vals().len() == self.keys().len(),
            exists|i: int| 0 <= i < self.keys().len() && slot_stops(self.keys(), i, key@, true),
        ensures
            exists|slot: int, h: int|
                {
                    &&& first_stop(self.keys(), h, key@, true, slot)
                    &&& r == if self.keys()[slot].len() == 0 {
                        None
                    } else {
                        Some(self.vals()[slot])
                    }
                },
    {
        let slot = find_slot(self.indexes.as_slice(), key, true);
        if self.indexes[slot].as_str().is_empty() {
            None
        } else {
            Some(self.values[slot])
        }
    }
}

// ---------------------------------------------------------------------------------------------
// Building a table
// ---------------------------------------------------------------------------------------------

/// All slots free: the table holds no entry.
proof fn lemma_entries_none<V>(keys: Seq<Seq<char>>, vals: Seq<V>, i: nat)
    requires
        i <= keys.len(),
        forall|j: int| 0 <= j < i ==> keys[j].len() == 0,
    ensures
        entries_upto(keys, vals, i) == Multiset::<(Seq<char>, V)>::empty(),
    decreases i,
{
    broadcast use vstd::multiset::group_multiset_axioms;

    if i > 0 {
        lemma_entries_none(keys, vals, (i - 1) as nat);
        assert(entries_upto(keys, vals, i) =~= Multiset::<(Seq<char>, V)>::empty());
    }
}

/// `n` free slots.
fn free_keys(n: usize) -> (r: Vec<String>)
    ensures
        r@.len() == n,
        forall|i: int| 0 <= i < n ==> (#[trigger] r@[i])@.len() == 0,
{
    let mut r: Vec<String> = Vec::new();
    let mut i: usize = 0;
    while i < n
        invariant
            i <= n,
            r@.len() == i,
            forall|j: int| 0 <= j < i ==> (#[trigger] r@[j])@.len() == 0,
        decreases n - i,
    {
        r.push(String::new());
        i += 1;
    }
    r
}

/// `n` default values.
fn default_values<V: Default>(n: usize) -> (r: Vec<V>)
    ensures
        r@.len() == n,
{
    let mut r: Vec<V> = Vec::new();
    let mut i: usize = 0;
    while i < n
        invariant
            i <= n,
            r@.len() == i,
        decreases n - i,
    {
        r.push(V::default());
        i += 1;
    }
    r
}

/// A table being filled. At most half of its slots hold entries: once an insertion makes it
/// fuller, it doubles and every entry is placed again.
pub struct HashIndexBuilder<V> {
    indexes: Vec<String>,
    values: Vec<V>,
    size: usize,
}

impl<V> HashIndexBuilder<V> {
    /// The keys of the table, slot by slot; a free slot has the empty key.
    pub closed spec fn keys(&self) -> Seq<Seq<char>> {
        keys_view(self.indexes@)
    }

    /// The values of the table, slot by slot.
    pub closed spec fn vals(&self) -> Seq<V> {
        self.values@
    }

    /// The number of entries that the table counts.
    pub closed spec fn count(&self) -> nat {
        self.size as nat
    }

    /// The entries of the table.
    pub open spec fn entries(&self) -> Multiset<(Seq<char>, V)> {
        table_entries(self.keys(), self.vals())
    }

    /// The table is well formed: a power-of-two number of slots, at least four, each with a
    /// value; a count that is the number of entries; at most half of the slots in use.
    pub open spec fn wf(&self) -> bool {
        &&& self.keys().len() == self.vals().len()
        &&& is_pow2(self.keys().len() as int)
        &&& 4 <= self.keys().len() <= usize::MAX / 2
        &&& self.count() == self.entries().len()
        &&& 2 * self.count() <= self.keys().len()
    }
}

/// What an insertion of `key` and `value` into `old` leaves, as `new`, where the probe stopped
/// at `slot`: at a free slot, a new entry, and the table doubles where it would be more than
/// half full; at a slot holding `key` (only where duplicates are not allowed), that entry's
/// value is replaced.
pub open spec fn insert_effect<V>(
    old: HashIndexBuilder<V>,
    new: HashIndexBuilder<V>,
    key: Seq<char>,
    value: V,
    allow_duplicates: bool,
    slot: int,
) -> bool {
    &&& probe_stops_at(old.keys(), key, !allow_duplicates, slot)
    &&& if old.keys()[slot].len() == 0 {
        &&& new.entries() == old.entries().insert((key, value))
        &&& if 2 * (old.entries().len() + 1) <= old.keys().len() {
            new.keys() == old.keys().update(slot, key) && new.vals() == old.vals().update(slot, value)
        } else {
            new.keys().len() == 2 * old.keys().len()
        }
    } else {
        &&& old.keys()[slot] == key
        &&& new.keys() == old.keys()
        &&& new.vals() == old.vals().update(slot, value)
        &&& new.entries() == old.entries().remove((key, old.vals()[slot])).insert((key, value))
    }
}

/// What `insert` leaves: the table `fin`, once the caller is done writing through the returned
/// reference, is some well-formed result `m` of the insertion (see `insert_effect`) but for
/// the value at `slot`, which holds `fin_v`; the reference first reads `cur`, `m`'s value there.
pub open spec fn insert_result<V>(
    old: HashIndexBuilder<V>,
    fin: HashIndexBuilder<V>,
    key: Seq<char>,
    value: V,
    allow_duplicates: bool,
    slot: int,
    cur: V,
    fin_v: V,
) -> bool {
    exists|m: HashIndexBuilder<V>|
        {
            &&& m.wf()
            &&& #[trigger] insert_effect(old, m, key, value, allow_duplicates, slot)
            &&& slot < m.keys().len()
            &&& cur == m.vals()[slot]
            &&& fin.keys() == m.keys()
            &&& fin.vals() == m.vals().update(slot, fin_v)
            &&& fin.count() == m.count()
        }
}

/// Writing a value into a slot of a well-formed table leaves it well formed.
pub proof fn lemma_write_value_keeps_wf<V>(a: HashIndexBuilder<V>, b: HashIndexBuilder<V>, slot: int, v: V)
    requires
        a.wf(),
        0 <= slot < a.keys().len(),
        b.keys() == a.keys(),
        b.vals() == a.vals().update(slot, v),
        b.count() == a.count(),
    ensures
        b.wf(),
{
    broadcast use vstd::multiset::group_multiset_axioms;

    lemma_entries_update(a.keys(), a.vals(), a.keys().len(), slot, a.keys()[slot], v);
    assert(a.keys().update(slot, a.keys()[slot]) =~= a.keys());
    let e_old = slot_entry(a.keys()[slot], a.vals()[slot]);
    let e_new = slot_entry(a.keys()[slot], v);
    assert(e_old.len() == e_new.len());
    assert(b.entries().add(e_old).len() == a.entries().add(e_new).len());
    assert(b.entries().len() == a.entries().len());
}

impl<V: Default + Clone> HashIndexBuilder<V> {
    pub fn new_with_capacity(capacity: usize) -> (r: Self)
        requires
            is_pow2(capacity as int),
            4 <= capacity <= usize::MAX / 2,
        ensures
            r.wf(),
            r.keys() == Seq::new(capacity as nat, |i: int| Seq::<char>::empty()),
            r.vals().len() == capacity,
            r.entries() == Multiset::<(Seq<char>, V)>::empty(),
    {
        let indexes = free_keys(capacity);
        let values = default_values(capacity);
        let r = HashIndexBuilder { indexes, values, size: 0 };
        proof {
            assert forall|i: int| 0 <= i < capacity implies #[trigger] r.keys()[i] == Seq::<char>::empty() by {
                assert(r.keys()[i] == r.indexes@[i]@);
                assert(r.keys()[i] =~= Seq::<char>::empty());
            }
            assert(r.keys() =~= Seq::new(capacity as nat, |i: int| Seq::<char>::empty()));
            lemma_entries_none(r.keys(), r.vals(), capacity as nat);
        }
        r
    }

    /// Where more than half of the slots are in use, doubles the table and places every entry
    /// again, in slot order.
    fn maybe_increase_capacity(&mut self)
        requires
            old(self).keys().len() == old(self).vals().len(),
            is_pow2(old(self).keys().len() as int),
            4 <= old(self).keys().len() <= usize::MAX / 4,
            old(self).count() == old(self).entries().len(),
            2 * old(self).count() <= old(self).keys().len() + 2,
        ensures
            final(self).wf(),
            final(self).entries() == old(self).entries(),
            2 * old(self).count() <= old(self).keys().len() ==> *final(self) == *old(self),
            2 * old(self).count() > old(self).keys().len() ==> final(self).keys().len() == 2
                * old(self).keys().len(),
    {
        let n = self.indexes.len();
        if self.size * 2 <= n {
            return;
        }
        let new_capacity = n * 2;
        let mut old_indexes = free_keys(new_capacity);
        std::mem::swap(&mut old_indexes, &mut self.indexes);
        let mut old_values: Vec<V> = default_values(new_capacity);
        std::mem::swap(&mut old_values, &mut self.values);
        let ghost ok = keys_view(old_indexes@);
        let ghost ov = old_values@;
        proof {
            let k: nat = choose|k: nat| pow2(k) == n;
            assert(pow2(k + 1) == new_capacity);
            assert(is_pow2(new_capacity as int));
            assert forall|j: int| 0 <= j < new_capacity implies #[trigger] self.keys()[j].len() == 0 by {
                assert(self.keys()[j] == self.indexes@[j]@);
            }
            lemma_entries_none(self.keys(), self.vals(), new_capacity as nat);
        }
        let mut i: usize = 0;
        while i < n
            invariant
                i <= n,
                n == ok.len(),
                ok == keys_view(old_indexes@),
                old_values@.len() == n,
                ov.len() == n,
                forall|j: int| i <= j < n ==> old_values@[j] == ov[j],
                self.indexes@.len() == new_capacity,
                self.values@.len() == new_capacity,
                new_capacity == 2 * n,
                4 <= n <= usize::MAX / 4,
                is_pow2(new_capacity as int),
                ok == old(self).keys(),
                ov == old(self).vals(),
                self.size == old(self).size,
                old(self).count() == old(self).entries().len(),
                2 * old(self).count() <= n + 2,
                table_entries(self.keys(), self.vals()) == entries_upto(ok, ov, i as nat),
            decreases n - i,
        {
            proof {
                lemma_entries_len(ok, ov, i as nat);
            }
            if !old_indexes[i].as_str().is_empty() {
                let key = old_indexes[i].clone();
                let mut value = V::default();
                std::mem::swap(&mut value, &mut old_values[i]);
                proof {
                    assert(ok[i as int] == old_indexes@[i as int]@);
                    lemma_free_slot(self.keys(), self.vals());
                    let j = choose|j: int| 0 <= j < self.keys().len() && self.keys()[j].len() == 0;
                    assert(slot_stops(keys_view(self.indexes@), j, key@, false));
                }
                let slot = find_slot(self.indexes.as_slice(), key.as_str(), false);
                let ghost k0 = self.keys();
                let ghost v0 = self.vals();
                self.indexes.set(slot, key);
                self.values.set(slot, value);
                proof {
                    broadcast use vstd::multiset::group_multiset_axioms;

                    assert(self.keys() =~= k0.update(slot as int, key@));
                    assert(self.vals() =~= v0.update(slot as int, value));
                    lemma_entries_update(k0, v0, new_capacity as nat, slot as int, key@, value);
                    assert(table_entries(self.keys(), self.vals()) =~= table_entries(k0, v0).add(
                        slot_entry(key@, value),
                    ));
                }
            } else {
                proof {
                    assert(ok[i as int] == old_indexes@[i as int]@);
                    assert(entries_upto(ok, ov, (i + 1) as nat) =~= entries_upto(ok, ov, i as nat));
                }
            }
            i += 1;
        }
    }
    /// Places `key` and `value` where the probe for `key` first stops (at a slot holding `key`
    /// too, unless `allow_duplicates`), and returns that slot.
    fn place(&mut self, hash: usize, key: String, value: V, allow_duplicates: bool) -> (slot: usize)
        requires
            old(self).wf(),
            key@.len() > 0,
            old(self).keys().len() <= usize::MAX / 4,
        ensures
            final(self).wf(),
            slot < old(self).keys().len(),
            first_stop(old(self).keys(), hash as int, key@, !allow_duplicates, slot as int),
            insert_effect(*old(self), *final(self), key@, value, allow_duplicates, slot as int),
    {
        proof {
            lemma_free_slot(self.keys(), self.vals());
            let j = choose|j: int| 0 <= j < self.keys().len() && self.keys()[j].len() == 0;
            assert(slot_stops(keys_view(self.indexes@), j, key@, !allow_duplicates));
        }
        let slot = find_slot_from(hash, self.indexes.as_slice(), key.as_str(), !allow_duplicates);
        assert(probe_stops_at(keys_view(self.indexes@), key@, !allow_duplicates, slot as int));
        let ghost k0 = self.keys();
        let ghost v0 = self.vals();
        let ghost n = k0.len();
        if self.indexes[slot].as_str().is_empty() {
            let ghost kk = key@;
            self.indexes.set(slot, key);
            self.values.set(slot, value);
            self.size = self.size + 1;
            proof {
                broadcast use vstd::multiset::group_multiset_axioms;

                assert(self.keys() =~= k0.update(slot as int, kk));
                assert(self.vals() =~= v0.update(slot as int, value));
                lemma_entries_update(k0, v0, n, slot as int, kk, value);
                assert(self.entries() =~= old(self).entries().insert((kk, value)));
                let k: nat = choose|k: nat| pow2(k) == n;
                lemma_pow2_pos(k);
            }
            self.maybe_increase_capacity();
        } else {
            self.values.set(slot, value);
            proof {
                broadcast use vstd::multiset::group_multiset_axioms;

                assert(k0[slot as int] == key@);
                assert(self.vals() =~= v0.update(slot as int, value));
                lemma_entries_update(k0, v0, n, slot as int, key@, value);
                assert(k0.update(slot as int, key@) =~= k0);
                lemma_entries_contains(k0, v0, n, slot as int);
                let a = table_entries(k0, v0);
                let b = self.entries();
                let x = (key@, v0[slot as int]);
                let y = (key@, value);
                assert(b == table_entries(k0.update(slot as int, key@), v0.update(slot as int, value)));
                assert(b.add(Multiset::singleton(x)) == a.add(Multiset::singleton(y)));
                assert forall|z: (Seq<char>, V)| #[trigger] b.count(z) == a.remove(x).insert(y).count(z) by {
                    assert(b.add(Multiset::singleton(x)).count(z) == a.add(Multiset::singleton(y)).count(z));
                }
                assert(self.entries() =~= old(self).entries().remove(x).insert(y));
                lemma_write_value_keeps_wf(*old(self), *self, slot as int, value);
            }
        }
        slot
    }

    /// Inserts `key` with `value` and returns the slot at which the probe stopped, together
    /// with the value that the table, as the insertion leaves it, holds at that slot (after the
    /// table doubled, that slot belongs to the new layout).
    pub fn insert(&mut self, key: String, value: V, allow_duplicates: bool) -> (r: (usize, &mut V))
        requires
            old(self).wf(),
            key@.len() > 0,
            old(self).keys().len() <= usize::MAX / 4,
        ensures
            insert_result(*old(self), *final(self), key@, value, allow_duplicates, r.0 as int, *r.1, *final(r.1)),
    {
        let hash = get_hash(key.as_str());
        let slot = self.place(hash, key, value, allow_duplicates);
        (slot, &mut self.values[slot])
    }
    /// The value held for `key` where the probe for it finds the key before a free slot;
    /// otherwise inserts `key` with `value` (duplicates not allowed) and returns the value that
    /// the insertion leaves at its slot.
    pub fn get_or_insert(&mut self, key: String, value: V) -> (r: &mut V)
        requires
            old(self).wf(),
            key@.len() > 0,
            old(self).keys().len() <= usize::MAX / 4,
        ensures
            exists|slot: int|
                {
                    &&& probe_stops_at(old(self).keys(), key@, true, slot)
                    &&& if old(self).keys()[slot].len() != 0 {
                        &&& *r == old(self).vals()[slot]
                        &&& final(self).keys() == old(self).keys()
                        &&& final(self).vals() == old(self).vals().update(slot, *final(r))
                        &&& final(self).count() == old(self).count()
                    } else {
                        insert_result(*old(self), *final(self), key@, value, false, slot, *r, *final(r))
                    }
                },
    {
        proof {
            lemma_free_slot(self.keys(), self.vals());
            let j = choose|j: int| 0 <= j < self.keys().len() && self.keys()[j].len() == 0;
            assert(slot_stops(keys_view(self.indexes@), j, key@, true));
        }
        let hash = get_hash(key.as_str());
        let slot = find_slot_from(hash, self.indexes.as_slice(), key.as_str(), true);
        assert(probe_stops_at(keys_view(self.indexes@), key@, true, slot as int));
        if !self.indexes[slot].as_str().is_empty() {
            return &mut self.values[slot];
        }
        let placed = self.place(hash, key, value, false);
        proof {
            lemma_first_stop_unique(old(self).keys(), hash as int, key@, true, slot as int, placed as int);
        }
        &mut self.values[placed]
    }

    /// The keys and the values of the table, slot by slot.
    pub fn consume(value: Self) -> (r: (Vec<String>, Vec<V>))
        ensures
            keys_view(r.0@) == value.keys(),
            r.1@ == value.vals(),
    {
        (value.indexes, value.values)
    }
}

impl<V: Default + Clone> Default for HashIndexBuilder<V> {
    fn default() -> (r: Self)
        ensures
            r.wf(),
            r.keys().len() == 4,
            r.entries() == Multiset::<(Seq<char>, V)>::empty(),
    {
        proof {
            reveal_with_fuel(pow2, 3);
            assert(pow2(2) == 4);
        }
        Self::new_with_capacity(4)
    }
}

/// Read after write, for one hash: where the probe for `key` from hash `h` (duplicates not
/// allowed) stops at `slot`, and `key` with `value` is written there, the probe for `key` from
/// `h` then stops at that same slot, which holds `key` and `value`. (`find_slot_from` and a
/// table that does not grow perform exactly these steps; `get_single` reads that slot.)
pub proof fn law_lookup_after_write<V>(
    keys: Seq<Seq<char>>,
    vals: Seq<V>,
    h: int,
    key: Seq<char>,
    value: V,
    slot: int,
)
    requires
        key.len() > 0,
        first_stop(keys, h, key, true, slot),
        keys.len() == vals.len(),
    ensures
        first_stop(keys.update(slot, key), h, key, true, slot),
        keys.update(slot, key)[slot] == key,
        vals.update(slot, value)[slot] == value,
{
    let n = keys.len() as int;
    let k2 = keys.update(slot, key);
    let j = choose|j: nat| {
        &&& j < keys.len()
        &&& slot == #[trigger] probe_pos(h, j, n)
        &&& slot_stops(keys, slot, key, true)
        &&& forall|i: nat| i < j ==> !slot_stops(keys, #[trigger] probe_pos(h, i, n), key, true)
    };
    assert(0 <= slot < n) by {
        vstd::arithmetic::div_mod::lemma_mod_bound(h + tri(j), n);
    }
    assert forall|i: nat| i < j implies !slot_stops(k2, #[trigger] probe_pos(h, i, n), key, true) by {
        let p = probe_pos(h, i, n);
        assert(!slot_stops(keys, p, key, true));
        if p == slot {
            assert(slot_stops(keys, slot, key, true));
        }
        assert(k2[p] == keys[p]);
    }
    assert(k2.len() == n);
    assert(slot_stops(k2, slot, key, true));
}

} // verus!
