//! Transaction-local patch payloads for the direct-patch fast path.
//!
//! The refresh queue stays the set of keys to refresh; the JSONB payloads ride
//! alongside in a [`PatchMap`] keyed by the same [`RefreshKey`]. A key either
//! carries a usable [`PatchState::Direct`] chain or is [`PatchState::Poisoned`]:
//! an ineligible change touched it this transaction, so it must recompute.
//! Poison is sticky.
use vstd::prelude::*;
use crate::queue::key::{KeyView, RefreshKey};
use crate::queue::state::string_seq;

verus! {

#[verifier::external_type_specification]
#[verifier::external_body]
pub struct ExJsonValue(serde_json::Value);

/// A field map as a sequence of (name, value) pairs; a name's value is the one
/// in its first pair.
pub type FieldsView = Seq<(Seq<char>, serde_json::Value)>;

/// A patch chain link: JSONB path prefix and the fields to merge there.
pub type EntryView = (Seq<Seq<char>>, FieldsView);

/// JSON object fields to merge into a TVIEW row's `data`.
#[derive(Debug, Clone, PartialEq)]
pub struct FieldMap {
    entries: Vec<(String, serde_json::Value)>,
}

impl View for FieldMap {
    type V = FieldsView;

    closed spec fn view(&self) -> FieldsView {
        self.entries@.map_values(|p: (String, serde_json::Value)| (p.0@, p.1))
    }
}

/// Position of the first pair keyed `k` at or after `i`, or -1.
pub open spec fn first_pos<A, B>(s: Seq<(A, B)>, k: A, i: int) -> int
    decreases s.len() - i,
{
    if i < 0 || i >= s.len() {
        -1
    } else if s[i].0 == k {
        i
    } else {
        first_pos(s, k, i + 1)
    }
}

/// `s` with `k` bound to `v`: the first pair keyed `k` replaced in place, or a
/// new pair appended.
pub open spec fn assoc_put<A, B>(s: Seq<(A, B)>, k: A, v: B) -> Seq<(A, B)> {
    let p = first_pos(s, k, 0);
    if p < 0 {
        s.push((k, v))
    } else {
        s.update(p, (k, v))
    }
}

/// The value bound to `k` in `s` (that of its first pair), if any.
pub open spec fn assoc_get<A, B>(s: Seq<(A, B)>, k: A) -> Option<B> {
    let p = first_pos(s, k, 0);
    if p < 0 {
        None
    } else {
        Some(s[p].1)
    }
}

pub proof fn lemma_first_pos<A, B>(s: Seq<(A, B)>, k: A, i: int)
    requires
        0 <= i,
    ensures
        first_pos(s, k, i) == -1 || (i <= first_pos(s, k, i) < s.len() && s[first_pos(
            s,
            k,
            i,
        )].0 == k),
        first_pos(s, k, i) == -1 ==> forall|j: int| i <= j < s.len() ==> s[j].0 != k,
        first_pos(s, k, i) >= 0 ==> forall|j: int| i <= j < first_pos(s, k, i) ==> s[j].0 != k,
    decreases s.len() - i,
{
    if i >= s.len() {
    } else if s[i].0 == k {
    } else {
        lemma_first_pos(s, k, i + 1);
    }
}

/// `s` without the pairs keyed `k`.
pub open spec fn assoc_remove<A, B>(s: Seq<(A, B)>, k: A) -> Seq<(A, B)>
    decreases s.len(),
{
    if s.len() == 0 {
        Seq::empty()
    } else {
        assoc_remove(s.drop_last(), k) + if s.last().0 == k {
            Seq::empty()
        } else {
            seq![s.last()]
        }
    }
}

/// Once `k` is removed nothing is bound to it, and what other keys are
/// bound to is unchanged.
pub proof fn law_assoc_remove_get<A, B>(s: Seq<(A, B)>, k: A, other: A)
    ensures
        assoc_get(assoc_remove(s, k), k) is None,
        other != k ==> assoc_get(assoc_remove(s, k), other) == assoc_get(s, other),
    decreases s.len(),
{
    let w = assoc_remove(s, k);
    lemma_first_pos(w, k, 0);
    lemma_first_pos(w, other, 0);
    lemma_first_pos(s, other, 0);
    if s.len() > 0 {
        law_assoc_remove_get(s.drop_last(), k, other);
        let w0 = assoc_remove(s.drop_last(), k);
        let s0 = s.drop_last();
        lemma_first_pos(w0, k, 0);
        lemma_first_pos(w0, other, 0);
        lemma_first_pos(s0, other, 0);
        assert forall|j: int| 0 <= j < w.len() implies w[j].0 != k by {
            if j < w0.len() {
                assert(w[j] == w0[j]);
            }
        }
        if other != k {
            let p0 = first_pos(s0, other, 0);
            let q0 = first_pos(w0, other, 0);
            if p0 >= 0 {
                assert(q0 >= 0);
                assert(w[q0] == w0[q0]);
                assert forall|j: int| 0 <= j < q0 implies w[j].0 != other by {
                    assert(w[j] == w0[j]);
                }
                assert(first_pos(w, other, 0) == q0) by {
                    lemma_first_pos(w, other, 0);
                }
                assert(s[p0] == s0[p0]);
                assert forall|j: int| 0 <= j < p0 implies s[j].0 != other by {
                    assert(s[j] == s0[j]);
                }
            } else {
                assert(q0 < 0);
                if s.last().0 == other {
                    assert(w.last() == s.last());
                    assert forall|j: int| 0 <= j < w.len() - 1 implies w[j].0 != other by {
                        assert(w[j] == w0[j]);
                    }
                    assert forall|j: int| 0 <= j < s.len() - 1 implies s[j].0 != other by {
                        assert(s[j] == s0[j]);
                    }
                } else {
                    assert forall|j: int| 0 <= j < w.len() implies w[j].0 != other by {
                        if j < w0.len() {
                            assert(w[j] == w0[j]);
                        }
                    }
                    assert forall|j: int| 0 <= j < s.len() implies s[j].0 != other by {
                        if j < s0.len() {
                            assert(s[j] == s0[j]);
                        }
                    }
                }
            }
        }
    }
}

/// Binding `k` then reading it gives the value bound; other keys keep theirs.
pub proof fn law_assoc_put_get<A, B>(s: Seq<(A, B)>, k: A, v: B, other: A)
    ensures
        assoc_get(assoc_put(s, k, v), k) == Some(v),
        other != k ==> assoc_get(assoc_put(s, k, v), other) == assoc_get(s, other),
{
    let t = assoc_put(s, k, v);
    let p = first_pos(s, k, 0);
    lemma_first_pos(s, k, 0);
    lemma_first_pos(t, k, 0);
    let q = first_pos(t, k, 0);
    if p < 0 {
        assert(t[s.len() as int].0 == k);
        if 0 <= q < s.len() {
            assert(t[q] == s[q]);
        }
        assert(q == s.len());
    } else {
        assert(t[p].0 == k);
        if 0 <= q < p {
            assert(t[q] == s[q]);
        }
        assert(q == p);
    }
    if other != k {
        lemma_first_pos(s, other, 0);
        lemma_first_pos(t, other, 0);
        let r = first_pos(s, other, 0);
        let rt = first_pos(t, other, 0);
        assert forall|j: int| 0 <= j < s.len() && j != p implies #[trigger] t[j] == s[j] by {}
        if r < 0 {
            if rt >= 0 {
                if rt < s.len() && rt != p {
                    assert(s[rt].0 == other);
                }
            }
            assert(rt < 0);
        } else {
            assert(r != p);
            assert(t[r].0 == other);
            if 0 <= rt < r {
                assert(rt != p ==> s[rt].0 == other);
            }
            assert(rt == r);
        }
    }
}

/// Each pair of `f`, in order, put into `s`: a later value wins per name.
pub open spec fn merge_fields(s: FieldsView, f: FieldsView) -> FieldsView
    decreases f.len(),
{
    if f.len() == 0 {
        s
    } else {
        merge_fields(assoc_put(s, f[0].0, f[0].1), f.drop_first())
    }
}

/// `Clone::clone` of `serde_json::Value`, whose `Clone` is derived: the copy
/// is the same value.
#[verifier::external_body]
fn clone_value(v: &serde_json::Value) -> (r: serde_json::Value)
    ensures
        r == *v,
{
    v.clone()
}

impl FieldMap {
    /// No fields.
    pub fn new() -> (m: Self)
        ensures
            m@ == Seq::<(Seq<char>, serde_json::Value)>::empty(),
    {
        let m = FieldMap { entries: Vec::new() };
        assert(m@ =~= Seq::<(Seq<char>, serde_json::Value)>::empty());
        m
    }

    /// Number of fields.
    pub fn len(&self) -> (r: usize)
        ensures
            r == self@.len(),
    {
        self.entries.len()
    }

    fn position(&self, k: &str) -> (r: Option<usize>)
        ensures
            match r {
                Some(i) => i < self@.len() && first_pos(self@, k@, 0) == i,
                None => first_pos(self@, k@, 0) == -1,
            },
    {
        let key = k.to_owned();
        let mut i: usize = 0;
        while i < self.entries.len()
            invariant
                i <= self.entries@.len(),
                key@ == k@,
                first_pos(self@, k@, 0) == first_pos(self@, k@, i as int),
            decreases self.entries.len() - i,
        {
            if self.entries[i].0 == key {
                return Some(i);
            }
            i += 1;
        }
        None
    }

    /// The value of `k`, if set.
    pub fn get(&self, k: &str) -> (r: Option<&serde_json::Value>)
        ensures
            match r {
                Some(v) => assoc_get(self@, k@) == Some(*v),
                None => assoc_get(self@, k@) is None,
            },
    {
        match self.position(k) {
            Some(i) => Some(&self.entries[i].1),
            None => None,
        }
    }

    /// Whether `k` is set.
    pub fn contains_key(&self, k: &str) -> (r: bool)
        ensures
            r == (assoc_get(self@, k@) is Some),
    {
        self.position(k).is_some()
    }

    /// The fields, in the order they were first set.
    pub fn pairs(&self) -> (r: &Vec<(String, serde_json::Value)>)
        ensures
            r@.map_values(|p: (String, serde_json::Value)| (p.0@, p.1)) == self@,
    {
        &self.entries
    }

    /// A copy of the fields.
    pub fn duplicate(&self) -> (r: Self)
        ensures
            r@ == self@,
    {
        let mut entries: Vec<(String, serde_json::Value)> = Vec::new();
        let mut i: usize = 0;
        while i < self.entries.len()
            invariant
                i <= self.entries@.len(),
                entries@.map_values(|p: (String, serde_json::Value)| (p.0@, p.1)) == self@.take(
                    i as int,
                ),
            decreases self.entries.len() - i,
        {
            let ghost before = entries@.map_values(|p: (String, serde_json::Value)| (p.0@, p.1));
            let k = self.entries[i].0.clone();
            let v = clone_value(&self.entries[i].1);
            entries.push((k, v));
            assert(entries@.map_values(|p: (String, serde_json::Value)| (p.0@, p.1)) =~= before.push(
                self@[i as int],
            ));
            assert(self@.take(i + 1) =~= self@.take(i as int).push(self@[i as int]));
            i += 1;
        }
        assert(self@.take(self@.len() as int) =~= self@);
        FieldMap { entries }
    }

    /// Set `k` to `v` (a later value wins).
    pub fn insert(&mut self, k: String, v: serde_json::Value)
        ensures
            final(self)@ == assoc_put(old(self)@, k@, v),
    {
        let ghost before = self@;
        match self.position(k.as_str()) {
            Some(i) => {
                let _old = self.entries.remove(i);
                self.entries.insert(i, (k, v));
                assert(self@ =~= before.update(i as int, (k@, v)));
            },
            None => {
                self.entries.push((k, v));
                assert(self@ =~= before.push((k@, v)));
            },
        }
    }

    /// Put every field of `fields`, in order, into this map.
    pub fn merge(&mut self, fields: FieldMap)
        ensures
            final(self)@ == merge_fields(old(self)@, fields@),
    {
        let mut rest = fields.entries;
        let ghost goal = merge_fields(old(self)@, fields@);
        assert(rest@.map_values(|p: (String, serde_json::Value)| (p.0@, p.1)) =~= fields@);
        while rest.len() > 0
            invariant
                merge_fields(self@, rest@.map_values(|p: (String, serde_json::Value)| (p.0@, p.1)))
                    == goal,
            decreases rest.len(),
        {
            let ghost rv = rest@.map_values(|p: (String, serde_json::Value)| (p.0@, p.1));
            let (k, v) = rest.remove(0);
            proof {
                assert(rest@.map_values(|p: (String, serde_json::Value)| (p.0@, p.1))
                    =~= rv.drop_first());
            }
            self.insert(k, v);
        }
        assert(rest@.map_values(|p: (String, serde_json::Value)| (p.0@, p.1)) =~= Seq::<
            (Seq<char>, serde_json::Value),
        >::empty());
    }
}

/// One link of a patch chain: a JSONB path prefix and the fields to merge
/// there. An empty prefix targets the entity's own `data` object.
pub type PatchEntry = (Vec<String>, FieldMap);

pub open spec fn entry_view(e: PatchEntry) -> EntryView {
    (string_seq(e.0@), e.1@)
}

pub open spec fn chain_view(c: Seq<PatchEntry>) -> Seq<EntryView> {
    c.map_values(|e: PatchEntry| entry_view(e))
}

/// `fields` merged at `prefix`: into the link with that prefix (a later value
/// wins per name), or as a new link.
pub open spec fn chain_merge(c: Seq<EntryView>, prefix: Seq<Seq<char>>, fields: FieldsView) -> Seq<
    EntryView,
> {
    let p = first_pos(c, prefix, 0);
    if p < 0 {
        c.push((prefix, fields))
    } else {
        c.update(p, (prefix, merge_fields(c[p].1, fields)))
    }
}

/// Each link of `d`, in order, merged into `c`.
pub open spec fn chain_merge_all(c: Seq<EntryView>, d: Seq<EntryView>) -> Seq<EntryView>
    decreases d.len(),
{
    if d.len() == 0 {
        c
    } else {
        chain_merge_all(chain_merge(c, d[0].0, d[0].1), d.drop_first())
    }
}

/// A copy of a patch chain.
pub fn duplicate_chain(c: &Vec<PatchEntry>) -> (r: Vec<PatchEntry>)
    ensures
        chain_view(r@) == chain_view(c@),
{
    let mut r: Vec<PatchEntry> = Vec::new();
    let mut i: usize = 0;
    while i < c.len()
        invariant
            i <= c@.len(),
            chain_view(r@) == chain_view(c@).take(i as int),
        decreases c.len() - i,
    {
        let ghost before = chain_view(r@);
        let p = crate::catalog::clone_strings(&c[i].0);
        let f = c[i].1.duplicate();
        r.push((p, f));
        assert(chain_view(r@) =~= before.push(chain_view(c@)[i as int]));
        assert(chain_view(c@).take(i + 1) =~= chain_view(c@).take(i as int).push(
            chain_view(c@)[i as int],
        ));
        i += 1;
    }
    assert(chain_view(c@).take(c@.len() as int) =~= chain_view(c@));
    r
}

fn prefix_eq(a: &Vec<String>, b: &Vec<String>) -> (r: bool)
    ensures
        r == (string_seq(a@) == string_seq(b@)),
{
    if a.len() != b.len() {
        assert(string_seq(a@).len() != string_seq(b@).len());
        return false;
    }
    let mut i: usize = 0;
    while i < a.len()
        invariant
            i <= a@.len(),
            a@.len() == b@.len(),
            forall|j: int| 0 <= j < i ==> #[trigger] a@[j]@ == b@[j]@,
        decreases a.len() - i,
    {
        if a[i] != b[i] {
            assert(string_seq(a@)[i as int] != string_seq(b@)[i as int]);
            return false;
        }
        i += 1;
    }
    assert(string_seq(a@) =~= string_seq(b@));
    true
}

/// Merge `fields` at `prefix` into `chain`: same prefix merges the maps (later
/// value wins per name); a new prefix appends a link.
pub fn merge_into_chain(chain: &mut Vec<PatchEntry>, prefix: Vec<String>, fields: FieldMap)
    ensures
        chain_view(final(chain)@) == chain_merge(chain_view(old(chain)@), string_seq(prefix@), fields@),
{
    let ghost c0 = chain_view(chain@);
    let ghost pv = string_seq(prefix@);
    let mut i: usize = 0;
    while i < chain.len()
        invariant
            i <= chain@.len(),
            c0 == chain_view(chain@),
            chain@ == old(chain)@,
            pv == string_seq(prefix@),
            first_pos(c0, pv, 0) == first_pos(c0, pv, i as int),
        decreases chain.len() - i,
    {
        if prefix_eq(&chain[i].0, &prefix) {
            assert(c0[i as int].0 == pv);
            assert(first_pos(c0, pv, i as int) == i);
            let (p, mut m) = chain.remove(i);
            m.merge(fields);
            chain.insert(i, (p, m));
            proof {
                assert(chain_view(chain@) =~= c0.update(
                    i as int,
                    (pv, merge_fields(c0[i as int].1, fields@)),
                ));
            }
            return;
        }
        i += 1;
    }
    chain.push((prefix, fields));
    proof {
        assert(chain_view(chain@) =~= c0.push((pv, fields@)));
    }
}

/// The patch payload carried for a queued key.
#[derive(Debug, Clone, PartialEq)]
pub enum PatchState {
    /// A usable chain of patches to apply directly.
    Direct(Vec<PatchEntry>),
    /// An ineligible change touched this key this transaction: recompute.
    Poisoned,
}

/// A patch state as a mathematical value.
pub enum PatchView {
    Direct(Seq<EntryView>),
    Poisoned,
}

pub open spec fn state_view(s: PatchState) -> PatchView {
    match s {
        PatchState::Direct(c) => PatchView::Direct(chain_view(c@)),
        PatchState::Poisoned => PatchView::Poisoned,
    }
}

/// The patch states of a transaction, keyed by refresh key.
#[derive(Debug)]
pub struct PatchMap {
    entries: Vec<(RefreshKey, PatchState)>,
}

pub type MapView = Seq<(KeyView, PatchView)>;

impl View for PatchMap {
    type V = MapView;

    closed spec fn view(&self) -> MapView {
        self.entries@.map_values(|e: (RefreshKey, PatchState)| (e.0@, state_view(e.1)))
    }
}

/// What [`record`] makes of `m`.
pub open spec fn spec_record(m: MapView, k: KeyView, prefix: Seq<Seq<char>>, fields: FieldsView) -> MapView {
    match assoc_get(m, k) {
        None => m.push((k, PatchView::Direct(seq![(prefix, fields)]))),
        Some(PatchView::Poisoned) => m,
        Some(PatchView::Direct(c)) => assoc_put(m, k, PatchView::Direct(chain_merge(c, prefix, fields))),
    }
}

/// What [`merge_chain_into`] makes of `m`.
pub open spec fn spec_merge_chain(m: MapView, k: KeyView, chain: Seq<EntryView>) -> MapView {
    match assoc_get(m, k) {
        None => m.push((k, PatchView::Direct(chain))),
        Some(PatchView::Poisoned) => m,
        Some(PatchView::Direct(c)) => assoc_put(m, k, PatchView::Direct(chain_merge_all(c, chain))),
    }
}

impl PatchMap {
    /// No patches.
    pub fn new() -> (m: Self)
        ensures
            m@ == Seq::<(KeyView, PatchView)>::empty(),
    {
        let m = PatchMap { entries: Vec::new() };
        assert(m@ =~= Seq::<(KeyView, PatchView)>::empty());
        m
    }

    /// Number of keys with a patch state.
    pub fn len(&self) -> (r: usize)
        ensures
            r == self@.len(),
    {
        self.entries.len()
    }

    /// Whether no key has a patch state.
    pub fn is_empty(&self) -> (r: bool)
        ensures
            r == (self@.len() == 0),
    {
        self.entries.len() == 0
    }

    fn position(&self, k: &RefreshKey) -> (r: Option<usize>)
        ensures
            match r {
                Some(i) => i < self@.len() && first_pos(self@, k@, 0) == i,
                None => first_pos(self@, k@, 0) == -1,
            },
    {
        let mut i: usize = 0;
        while i < self.entries.len()
            invariant
                i <= self.entries@.len(),
                first_pos(self@, k@, 0) == first_pos(self@, k@, i as int),
            decreases self.entries.len() - i,
        {
            if self.entries[i].0.same_key(k) {
                return Some(i);
            }
            i += 1;
        }
        None
    }

    /// The state recorded for `k`, if any.
    pub fn get(&self, k: &RefreshKey) -> (r: Option<&PatchState>)
        ensures
            match r {
                Some(s) => assoc_get(self@, k@) == Some(state_view(*s)),
                None => assoc_get(self@, k@) is None,
            },
    {
        match self.position(k) {
            Some(i) => Some(&self.entries[i].1),
            None => None,
        }
    }

    /// Map `k` to `s`, replacing any earlier state.
    pub fn put(&mut self, k: RefreshKey, s: PatchState)
        ensures
            final(self)@ == assoc_put(old(self)@, k@, state_view(s)),
    {
        let ghost before = self@;
        match self.position(&k) {
            Some(i) => {
                let _old = self.entries.remove(i);
                self.entries.insert(i, (k, s));
                assert(self@ =~= before.update(i as int, (k@, state_view(s))));
            },
            None => {
                self.entries.push((k, s));
                assert(self@ =~= before.push((k@, state_view(s))));
            },
        }
    }

    /// The (key, state) pairs, leaving this map empty.
    pub fn into_entries(self) -> (v: Vec<(RefreshKey, PatchState)>)
        ensures
            v@.map_values(|e: (RefreshKey, PatchState)| (e.0@, state_view(e.1))) == self@,
    {
        self.entries
    }
}

/// Record a direct patch for `key`: merge `fields` at `prefix` into an existing
/// `Direct` chain, or start a new one. A `Poisoned` key stays poisoned.
///
/// Returns `true` iff this started a `Direct` entry for a key not seen before,
/// so that a capture is counted once per key.
pub fn record(map: &mut PatchMap, key: RefreshKey, prefix: Vec<String>, fields: FieldMap) -> (fresh: bool)
    ensures
        fresh == (assoc_get(old(map)@, key@) is None),
        final(map)@ == spec_record(old(map)@, key@, string_seq(prefix@), fields@),
{
    let ghost m0 = map@;
    match map.position(&key) {
        None => {
            let mut chain: Vec<PatchEntry> = Vec::new();
            let ghost fv = fields@;
            let ghost pv = string_seq(prefix@);
            chain.push((prefix, fields));
            assert(chain_view(chain@) =~= seq![(pv, fv)]);
            map.entries.push((key, PatchState::Direct(chain)));
            assert(map@ =~= m0.push((key@, PatchView::Direct(seq![(pv, fv)]))));
            true
        },
        Some(i) => {
            proof {
                lemma_first_pos(m0, key@, 0);
            }
            let (k, st) = map.entries.remove(i);
            match st {
                PatchState::Poisoned => {
                    map.entries.insert(i, (k, PatchState::Poisoned));
                    assert(map@ =~= m0);
                },
                PatchState::Direct(mut chain) => {
                    merge_into_chain(&mut chain, prefix, fields);
                    let ghost cv = chain_view(chain@);
                    map.entries.insert(i, (k, PatchState::Direct(chain)));
                    assert(map@ =~= m0.update(i as int, (key@, PatchView::Direct(cv))));
                },
            }
            false
        },
    }
}

/// Poison `key` in `map`: its patch is discarded and it recomputes.
pub fn poison_into(map: &mut PatchMap, key: RefreshKey)
    ensures
        final(map)@ == assoc_put(old(map)@, key@, PatchView::Poisoned),
{
    map.put(key, PatchState::Poisoned);
}

/// Poison `key` in the transaction's patch map.
pub fn poison(map: &mut PatchMap, key: RefreshKey)
    ensures
        final(map)@ == assoc_put(old(map)@, key@, PatchView::Poisoned),
{
    poison_into(map, key);
}

/// Merge a derived `chain` into `map` for `key` under the rules of [`record`]:
/// a `Poisoned` key stays poisoned, a `Direct` key merges each link in order,
/// an absent key starts a `Direct` chain.
pub fn merge_chain_into(map: &mut PatchMap, key: RefreshKey, chain: Vec<PatchEntry>)
    ensures
        final(map)@ == spec_merge_chain(old(map)@, key@, chain_view(chain@)),
{
    let ghost m0 = map@;
    match map.position(&key) {
        None => {
            let ghost cv = chain_view(chain@);
            map.entries.push((key, PatchState::Direct(chain)));
            assert(map@ =~= m0.push((key@, PatchView::Direct(cv))));
        },
        Some(i) => {
            proof {
                lemma_first_pos(m0, key@, 0);
            }
            let (k, st) = map.entries.remove(i);
            match st {
                PatchState::Poisoned => {
                    map.entries.insert(i, (k, PatchState::Poisoned));
                    assert(map@ =~= m0);
                },
                PatchState::Direct(mut existing) => {
                    let ghost goal = chain_merge_all(chain_view(existing@), chain_view(chain@));
                    let mut rest = chain;
                    while rest.len() > 0
                        invariant
                            chain_merge_all(chain_view(existing@), chain_view(rest@)) == goal,
                        decreases rest.len(),
                    {
                        let ghost rv = chain_view(rest@);
                        let (p, f) = rest.remove(0);
                        proof {
                            assert(chain_view(rest@) =~= rv.drop_first());
                        }
                        merge_into_chain(&mut existing, p, f);
                    }
                    assert(chain_view(rest@) =~= Seq::<EntryView>::empty());
                    let ghost ev = chain_view(existing@);
                    map.entries.insert(i, (k, PatchState::Direct(existing)));
                    assert(map@ =~= m0.update(i as int, (key@, PatchView::Direct(ev))));
                },
            }
        },
    }
}

/// Take the whole patch map, leaving it empty (flush, or savepoint start).
pub fn take_patch_snapshot(map: &mut PatchMap) -> (snapshot: PatchMap)
    ensures
        snapshot@ == old(map)@,
        final(map)@ == Seq::<(KeyView, PatchView)>::empty(),
{
    let mut fresh = PatchMap::new();
    std::mem::swap(map, &mut fresh);
    fresh
}

/// Replace the patch map wholesale (savepoint rollback).
pub fn replace_patch_map(map: &mut PatchMap, new_map: PatchMap)
    ensures
        final(map)@ == new_map@,
{
    *map = new_map;
}

/// Clear the patch map (transaction abort).
pub fn clear_patch_map(map: &mut PatchMap)
    ensures
        final(map)@ == Seq::<(KeyView, PatchView)>::empty(),
{
    map.entries = Vec::new();
    assert(map@ =~= Seq::<(KeyView, PatchView)>::empty());
}

/// Poison is sticky: a record after a poison leaves the key poisoned.
pub proof fn law_poison_sticky(m: MapView, k: KeyView, prefix: Seq<Seq<char>>, fields: FieldsView)
    ensures
        assoc_get(spec_record(assoc_put(m, k, PatchView::Poisoned), k, prefix, fields), k) == Some(
            PatchView::Poisoned,
        ),
{
    law_assoc_put_get(m, k, PatchView::Poisoned, k);
}

/// A poison after a record leaves the key poisoned.
pub proof fn law_poison_overrides_record(m: MapView, k: KeyView, prefix: Seq<Seq<char>>, fields: FieldsView)
    ensures
        assoc_get(assoc_put(spec_record(m, k, prefix, fields), k, PatchView::Poisoned), k) == Some(
            PatchView::Poisoned,
        ),
{
    law_assoc_put_get(spec_record(m, k, prefix, fields), k, PatchView::Poisoned, k);
}

/// Recording on a key leaves every other key's state unchanged.
pub proof fn law_record_frames_other_keys(
    m: MapView,
    k: KeyView,
    prefix: Seq<Seq<char>>,
    fields: FieldsView,
    other: KeyView,
)
    requires
        other != k,
    ensures
        assoc_get(spec_record(m, k, prefix, fields), other) == assoc_get(m, other),
{
    match assoc_get(m, k) {
        None => {
            let t = m.push((k, PatchView::Direct(seq![(prefix, fields)])));
            lemma_first_pos(m, k, 0);
            assert(assoc_put(m, k, PatchView::Direct(seq![(prefix, fields)])) == t);
            law_assoc_put_get(m, k, PatchView::Direct(seq![(prefix, fields)]), other);
        },
        Some(PatchView::Poisoned) => {},
        Some(PatchView::Direct(c)) => {
            law_assoc_put_get(m, k, PatchView::Direct(chain_merge(c, prefix, fields)), other);
        },
    }
}

} // verus!
