//! Synchronized enablement preferences for built-in and external extensions.
use vstd::prelude::*;
use vstd::string::*;

use crate::extension_id::{is_valid_extension_id, valid_extension_id};
use crate::ordered_key::{
    key_less, lemma_key_less_total, lemma_key_less_transitive, str_less,
};
use crate::text::{decimal, decimal_string, str_equal};

verus! {

/// The only registry format this host reads and writes.
pub const REGISTRY_FORMAT_VERSION: u32 = 1;

/// Keys listed in strictly increasing order (hence without repetition).
pub open spec fn sorted_keys(s: Seq<(Seq<char>, bool)>) -> bool {
    forall|i: int, j: int| 0 <= i < j < s.len() ==> key_less(#[trigger] s[i].0, #[trigger] s[j].0)
}

/// Some entry of `s` has key `k`.
pub open spec fn has_key(s: Seq<(Seq<char>, bool)>, k: Seq<char>) -> bool {
    exists|i: int| 0 <= i < s.len() && #[trigger] s[i].0 == k
}

/// The map that a list of distinct keyed entries describes.
pub open spec fn pairs_map(s: Seq<(Seq<char>, bool)>) -> Map<Seq<char>, bool> {
    Map::new(
        |k: Seq<char>| has_key(s, k),
        |k: Seq<char>| s[choose|i: int| 0 <= i < s.len() && #[trigger] s[i].0 == k].1,
    )
}

/// The value of `k` in `m`, if any.
pub open spec fn lookup(m: Map<Seq<char>, bool>, k: Seq<char>) -> Option<bool> {
    if m.dom().contains(k) {
        Some(m[k])
    } else {
        None
    }
}

/// Each entry of a sorted list is in the map it describes, with its value.
pub proof fn lemma_pairs_map_at(s: Seq<(Seq<char>, bool)>, i: int)
    requires
        sorted_keys(s),
        0 <= i < s.len(),
    ensures
        pairs_map(s).dom().contains(s[i].0),
        pairs_map(s)[s[i].0] == s[i].1,
{
    let k = s[i].0;
    assert(has_key(s, k));
    let j = choose|j: int| 0 <= j < s.len() && #[trigger] s[j].0 == k;
    if j < i {
        lemma_key_less_total(s[j].0, s[i].0);
    } else if i < j {
        lemma_key_less_total(s[i].0, s[j].0);
    }
}

/// Synchronized enablement preferences for built-in and external extensions.
#[derive(Clone, Debug)]
pub struct ExtensionRegistryConfig {
    format_version: u32,
    extensions: Vec<(String, bool)>,
}

impl View for ExtensionRegistryConfig {
    type V = Map<Seq<char>, bool>;

    closed spec fn view(&self) -> Map<Seq<char>, bool> {
        pairs_map(self.pairs())
    }
}

impl ExtensionRegistryConfig {
    /// The registry format version.
    pub closed spec fn version(&self) -> u32 {
        self.format_version
    }

    /// The registry format version.
    pub fn format_version(&self) -> (v: u32)
        ensures
            v == self.version(),
    {
        self.format_version
    }

    /// The entries as (identifier, enabled) pairs, in key order.
    pub closed spec fn pairs(&self) -> Seq<(Seq<char>, bool)> {
        self.extensions@.map_values(|e: (String, bool)| (e.0@, e.1))
    }

    /// The entries are kept in strictly increasing key order.
    pub closed spec fn wf(&self) -> bool {
        sorted_keys(self.pairs())
    }

    proof fn lemma_view_is(&self)
        requires
            self.wf(),
        ensures
            self@ == pairs_map(self.pairs()),
            forall|i: int|
                0 <= i < self.pairs().len() ==> self@.dom().contains(#[trigger] self.pairs()[i].0)
                    && self@[self.pairs()[i].0] == self.pairs()[i].1,
            forall|k: Seq<char>| #[trigger]
                self@.dom().contains(k) ==> exists|i: int|
                    0 <= i < self.pairs().len() && #[trigger] self.pairs()[i].0 == k,
    {
        assert forall|i: int| 0 <= i < self.pairs().len() implies self@.dom().contains(
            #[trigger] self.pairs()[i].0,
        ) && self@[self.pairs()[i].0] == self.pairs()[i].1 by {
            lemma_pairs_map_at(self.pairs(), i);
        }
    }

    /// An empty registry in the current format.
    pub fn new() -> (registry: Self)
        ensures
            registry.wf(),
            registry@ == Map::<Seq<char>, bool>::empty(),
            registry.version() == REGISTRY_FORMAT_VERSION,
    {
        let registry = ExtensionRegistryConfig {
            format_version: REGISTRY_FORMAT_VERSION,
            extensions: Vec::new(),
        };
        assert(registry.pairs() =~= Seq::<(Seq<char>, bool)>::empty());
        assert(registry@ =~= Map::<Seq<char>, bool>::empty());
        registry
    }

    /// Index of the first entry whose key does not sort before `extension_id`.
    fn position(&self, extension_id: &str) -> (i: usize)
        requires
            self.wf(),
        ensures
            i <= self.pairs().len(),
            forall|j: int| 0 <= j < i ==> key_less(#[trigger] self.pairs()[j].0, extension_id@),
            i < self.pairs().len() ==> !key_less(self.pairs()[i as int].0, extension_id@),
    {
        let n = self.extensions.len();
        let mut i: usize = 0;
        while i < n && str_less(self.extensions[i].0.as_str(), extension_id)
            invariant
                i <= n,
                n == self.extensions@.len(),
                n == self.pairs().len(),
                forall|j: int| 0 <= j < i ==> key_less(#[trigger] self.pairs()[j].0, extension_id@),
            decreases n - i,
        {
            i = i + 1;
        }
        i
    }

    /// Index of the entry with key `extension_id`, if there is one.
    fn find(&self, extension_id: &str) -> (found: Option<usize>)
        requires
            self.wf(),
        ensures
            match found {
                Some(i) => i < self.pairs().len() && self.pairs()[i as int].0 == extension_id@,
                None => !has_key(self.pairs(), extension_id@),
            },
    {
        let i = self.position(extension_id);
        if i < self.extensions.len() && str_equal(self.extensions[i].0.as_str(), extension_id) {
            Some(i)
        } else {
            proof {
                let s = self.pairs();
                if has_key(s, extension_id@) {
                    let j = choose|j: int| 0 <= j < s.len() && #[trigger] s[j].0 == extension_id@;
                    if j < i {
                        lemma_key_less_total(s[j].0, extension_id@);
                    } else if j > i {
                        lemma_key_less_total(s[i as int].0, extension_id@);
                        lemma_key_less_total(extension_id@, s[i as int].0);
                        lemma_key_less_total(s[i as int].0, s[j].0);
                    }
                }
            }
            None
        }
    }

    /// Whether `extension_id` is enabled, or `default` when the registry does not mention it.
    pub fn is_enabled(&self, extension_id: &str, default: bool) -> (enabled: bool)
        requires
            self.wf(),
        ensures
            enabled == match lookup(self@, extension_id@) {
                Some(v) => v,
                None => default,
            },
    {
        proof {
            self.lemma_view_is();
        }
        match self.find(extension_id) {
            Some(i) => self.extensions[i].1,
            None => default,
        }
    }

    /// Record `enabled` for `extension_id`, replacing any earlier preference.
    pub fn set_enabled(&mut self, extension_id: String, enabled: bool)
        requires
            old(self).wf(),
        ensures
            final(self).wf(),
            final(self)@ == old(self)@.insert(extension_id@, enabled),
            final(self).version() == old(self).version(),
    {
        let ghost key = extension_id@;
        let ghost s = self.pairs();
        let i = self.position(extension_id.as_str());
        if i < self.extensions.len() && str_equal(self.extensions[i].0.as_str(), extension_id.as_str()) {
            self.extensions.set(i, (extension_id, enabled));
            proof {
                assert(self.pairs() =~= s.update(i as int, (key, enabled)));
                lemma_update_at(s, i as int, key, enabled);
            }
        } else {
            self.extensions.insert(i, (extension_id, enabled));
            proof {
                assert(self.pairs() =~= s.insert(i as int, (key, enabled)));
                lemma_insert_at(s, i as int, key, enabled);
            }
        }
    }

    /// Forget any preference recorded for `extension_id`.
    pub fn remove(&mut self, extension_id: &str)
        requires
            old(self).wf(),
        ensures
            final(self).wf(),
            final(self)@ == old(self)@.remove(extension_id@),
            final(self).version() == old(self).version(),
    {
        proof {
            self.lemma_view_is();
        }
        let ghost key = extension_id@;
        let ghost s = self.pairs();
        let ghost m = self@;
        match self.find(extension_id) {
            Some(i) => {
                self.extensions.remove(i);
                proof {
                    assert(self.pairs() =~= s.remove(i as int));
                    lemma_remove_at(s, i as int);
                }
            },
            None => {
                proof {
                    assert(!m.dom().contains(key));
                    assert(m.remove(key) =~= m);
                }
            },
        }
    }
}

proof fn lemma_update_at(s: Seq<(Seq<char>, bool)>, i: int, key: Seq<char>, v: bool)
    requires
        sorted_keys(s),
        0 <= i < s.len(),
        s[i].0 == key,
    ensures
        sorted_keys(s.update(i, (key, v))),
        pairs_map(s.update(i, (key, v))) == pairs_map(s).insert(key, v),
{
    let t = s.update(i, (key, v));
    let m = pairs_map(s);
    assert(sorted_keys(t)) by {
        assert forall|a: int, b: int| 0 <= a < b < t.len() implies key_less(
            #[trigger] t[a].0,
            #[trigger] t[b].0,
        ) by {
            assert(t[a].0 == s[a].0 && t[b].0 == s[b].0);
        }
    }
    lemma_pairs_map_at(t, i);
    assert forall|k: Seq<char>| #[trigger] pairs_map(t).dom().contains(k) <==> m.insert(
        key,
        v,
    ).dom().contains(k) by {
        if has_key(t, k) {
            let j = choose|j: int| 0 <= j < t.len() && #[trigger] t[j].0 == k;
            assert(s[j].0 == k);
        }
        if has_key(s, k) {
            let j = choose|j: int| 0 <= j < s.len() && #[trigger] s[j].0 == k;
            assert(t[j].0 == k);
        }
    }
    assert forall|k: Seq<char>| #[trigger] pairs_map(t).dom().contains(k) implies pairs_map(t)[k]
        == m.insert(key, v)[k] by {
        let j = choose|j: int| 0 <= j < t.len() && #[trigger] t[j].0 == k;
        lemma_pairs_map_at(t, j);
        if j != i {
            assert(s[j] == t[j]);
            lemma_pairs_map_at(s, j);
        }
    }
    assert(pairs_map(t) =~= m.insert(key, v));
}

proof fn lemma_insert_at(s: Seq<(Seq<char>, bool)>, i: int, key: Seq<char>, v: bool)
    requires
        sorted_keys(s),
        0 <= i <= s.len(),
        forall|j: int| 0 <= j < i ==> key_less(#[trigger] s[j].0, key),
        i < s.len() ==> !key_less(s[i].0, key) && s[i].0 != key,
    ensures
        sorted_keys(s.insert(i, (key, v))),
        pairs_map(s.insert(i, (key, v))) == pairs_map(s).insert(key, v),
{
    let t = s.insert(i, (key, v));
    let m = pairs_map(s);
    if i < s.len() {
        lemma_key_less_total(s[i].0, key);
    }
    assert forall|b: int| i < b < t.len() implies key_less(key, #[trigger] t[b].0) by {
        assert(t[b] == s[b - 1]);
        if b - 1 > i {
            lemma_key_less_transitive(key, s[i].0, s[b - 1].0);
        }
    }
    assert(sorted_keys(t)) by {
        assert forall|a: int, b: int| 0 <= a < b < t.len() implies key_less(
            #[trigger] t[a].0,
            #[trigger] t[b].0,
        ) by {
            if b < i {
            } else if a < i && b == i {
            } else if a < i && b > i {
                lemma_key_less_transitive(t[a].0, key, t[b].0);
            } else if a == i {
            } else {
                assert(t[a] == s[a - 1] && t[b] == s[b - 1]);
            }
        }
    }
    lemma_pairs_map_at(t, i);
    assert forall|k: Seq<char>| #[trigger] pairs_map(t).dom().contains(k) <==> m.insert(
        key,
        v,
    ).dom().contains(k) by {
        if has_key(t, k) {
            let j = choose|j: int| 0 <= j < t.len() && #[trigger] t[j].0 == k;
            if j < i {
                assert(s[j].0 == k);
            } else if j > i {
                assert(s[j - 1].0 == k);
            }
        }
        if has_key(s, k) {
            let j = choose|j: int| 0 <= j < s.len() && #[trigger] s[j].0 == k;
            if j < i {
                assert(t[j].0 == k);
            } else {
                assert(t[j + 1].0 == k);
            }
        }
    }
    assert forall|k: Seq<char>| #[trigger] pairs_map(t).dom().contains(k) implies pairs_map(t)[k]
        == m.insert(key, v)[k] by {
        let j = choose|j: int| 0 <= j < t.len() && #[trigger] t[j].0 == k;
        lemma_pairs_map_at(t, j);
        if j < i {
            assert(s[j] == t[j]);
            lemma_pairs_map_at(s, j);
            lemma_key_less_total(s[j].0, key);
        } else if j > i {
            assert(s[j - 1] == t[j]);
            lemma_pairs_map_at(s, j - 1);
            lemma_key_less_total(key, t[j].0);
        }
    }
    assert(pairs_map(t) =~= m.insert(key, v));
}

proof fn lemma_remove_at(s: Seq<(Seq<char>, bool)>, i: int)
    requires
        sorted_keys(s),
        0 <= i < s.len(),
    ensures
        sorted_keys(s.remove(i)),
        pairs_map(s.remove(i)) == pairs_map(s).remove(s[i].0),
{
    let t = s.remove(i);
    let m = pairs_map(s);
    let key = s[i].0;
    assert(sorted_keys(t)) by {
        assert forall|a: int, b: int| 0 <= a < b < t.len() implies key_less(
            #[trigger] t[a].0,
            #[trigger] t[b].0,
        ) by {
            if b < i {
            } else if a < i {
                assert(t[b] == s[b + 1]);
            } else {
                assert(t[a] == s[a + 1] && t[b] == s[b + 1]);
            }
        }
    }
    assert forall|k: Seq<char>| #[trigger] pairs_map(t).dom().contains(k) <==> m.remove(
        key,
    ).dom().contains(k) by {
        if has_key(t, k) {
            let j = choose|j: int| 0 <= j < t.len() && #[trigger] t[j].0 == k;
            if j < i {
                assert(s[j].0 == k);
                lemma_key_less_total(s[j].0, key);
            } else {
                assert(s[j + 1].0 == k);
                lemma_key_less_total(key, s[j + 1].0);
            }
        }
        if has_key(s, k) && k != key {
            let j = choose|j: int| 0 <= j < s.len() && #[trigger] s[j].0 == k;
            if j < i {
                assert(t[j].0 == k);
            } else {
                assert(j != i);
                assert(t[j - 1].0 == k);
            }
        }
    }
    assert forall|k: Seq<char>| #[trigger] pairs_map(t).dom().contains(k) implies pairs_map(t)[k]
        == m.remove(key)[k] by {
        let j = choose|j: int| 0 <= j < t.len() && #[trigger] t[j].0 == k;
        lemma_pairs_map_at(t, j);
        if j < i {
            assert(s[j] == t[j]);
            lemma_pairs_map_at(s, j);
        } else {
            assert(s[j + 1] == t[j]);
            lemma_pairs_map_at(s, j + 1);
        }
    }
    assert(pairs_map(t) =~= m.remove(key));
}

/// The map that applying `entries` one after another to an empty registry gives.
pub open spec fn entries_map(entries: Seq<(Seq<char>, bool)>) -> Map<Seq<char>, bool>
    decreases entries.len(),
{
    if entries.len() == 0 {
        Map::empty()
    } else {
        entries_map(entries.drop_last()).insert(entries.last().0, entries.last().1)
    }
}

/// The texts of a list of entries.
pub open spec fn entry_texts(v: Seq<(String, bool)>) -> Seq<(Seq<char>, bool)> {
    v.map_values(|e: (String, bool)| (e.0@, e.1))
}

/// The texts of a list of updates.
pub open spec fn update_texts(v: Seq<(String, Option<bool>)>) -> Seq<(Seq<char>, Option<bool>)> {
    v.map_values(|u: (String, Option<bool>)| (u.0@, u.1))
}

/// The entries of `s` whose value differs from what `other` records, as
/// updates that set that value, in the order of `s`.
pub open spec fn changed_entries(s: Seq<(Seq<char>, bool)>, other: Map<Seq<char>, bool>) -> Seq<
    (Seq<char>, Option<bool>),
>
    decreases s.len(),
{
    if s.len() == 0 {
        Seq::empty()
    } else {
        let rest = changed_entries(s.drop_last(), other);
        let e = s.last();
        if lookup(other, e.0) != Some(e.1) {
            rest.push((e.0, Some(e.1)))
        } else {
            rest
        }
    }
}

/// The keys of `s` that `keep` does not have, as updates that remove them,
/// in the order of `s`.
pub open spec fn removed_entries(s: Seq<(Seq<char>, bool)>, keep: Map<Seq<char>, bool>) -> Seq<
    (Seq<char>, Option<bool>),
>
    decreases s.len(),
{
    if s.len() == 0 {
        Seq::empty()
    } else {
        let rest = removed_entries(s.drop_last(), keep);
        let e = s.last();
        if !keep.dom().contains(e.0) {
            rest.push((e.0, None))
        } else {
            rest
        }
    }
}

/// One update: `Some(v)` records `v` for the key, `None` removes the key.
pub open spec fn apply_update(m: Map<Seq<char>, bool>, u: (Seq<char>, Option<bool>)) -> Map<
    Seq<char>,
    bool,
> {
    match u.1 {
        Some(v) => m.insert(u.0, v),
        None => m.remove(u.0),
    }
}

/// The updates applied to `m` in order.
pub open spec fn apply_updates(m: Map<Seq<char>, bool>, u: Seq<(Seq<char>, Option<bool>)>) -> Map<
    Seq<char>,
    bool,
>
    decreases u.len(),
{
    if u.len() == 0 {
        m
    } else {
        apply_update(apply_updates(m, u.drop_last()), u.last())
    }
}

/// Why a registry with this format version and these entries is refused, if it is.
pub open spec fn registry_validation(version: u32, m: Map<Seq<char>, bool>) -> Result<(), Seq<char>> {
    if version != REGISTRY_FORMAT_VERSION {
        Err("unsupported extension registry format "@ + decimal(version as nat))
    } else if exists|k: Seq<char>| #[trigger] m.dom().contains(k) && !valid_extension_id(k) {
        Err("extension registry contains an invalid extension id"@)
    } else {
        Ok(())
    }
}

proof fn lemma_apply_concat(
    m: Map<Seq<char>, bool>,
    a: Seq<(Seq<char>, Option<bool>)>,
    b: Seq<(Seq<char>, Option<bool>)>,
)
    ensures
        apply_updates(m, a + b) == apply_updates(apply_updates(m, a), b),
    decreases b.len(),
{
    if b.len() == 0 {
        assert(a + b =~= a);
    } else {
        assert((a + b).drop_last() =~= a + b.drop_last());
        lemma_apply_concat(m, a, b.drop_last());
    }
}

proof fn lemma_apply_changed(
    m: Map<Seq<char>, bool>,
    s: Seq<(Seq<char>, bool)>,
    other: Map<Seq<char>, bool>,
    k: Seq<char>,
)
    requires
        sorted_keys(s),
    ensures
        lookup(apply_updates(m, changed_entries(s, other)), k) == if has_key(s, k) && lookup(
            other,
            k,
        ) != Some(pairs_map(s)[k]) {
            Some(pairs_map(s)[k])
        } else {
            lookup(m, k)
        },
    decreases s.len(),
{
    if s.len() > 0 {
        let t = s.drop_last();
        let e = s.last();
        let n = s.len() - 1;
        assert(sorted_keys(t));
        lemma_apply_changed(m, t, other, k);
        let c = changed_entries(s, other);
        let ct = changed_entries(t, other);
        if lookup(other, e.0) != Some(e.1) {
            assert(c.drop_last() =~= ct);
        } else {
            assert(c == ct);
        }
        lemma_pairs_map_at(s, n);
        if k == e.0 {
            assert(has_key(s, k));
            assert(!has_key(t, k)) by {
                if has_key(t, k) {
                    let j = choose|j: int| 0 <= j < t.len() && #[trigger] t[j].0 == k;
                    assert(s[j].0 == k);
                    assert(key_less(s[j].0, s[n].0));
                    lemma_key_less_total(k, k);
                }
            }
        } else {
            assert(has_key(s, k) == has_key(t, k)) by {
                if has_key(s, k) {
                    let j = choose|j: int| 0 <= j < s.len() && #[trigger] s[j].0 == k;
                    assert(t[j].0 == k);
                }
                if has_key(t, k) {
                    let j = choose|j: int| 0 <= j < t.len() && #[trigger] t[j].0 == k;
                    assert(s[j].0 == k);
                }
            }
            if has_key(t, k) {
                let j = choose|j: int| 0 <= j < t.len() && #[trigger] t[j].0 == k;
                lemma_pairs_map_at(t, j);
                lemma_pairs_map_at(s, j);
                assert(s[j] == t[j]);
            }
        }
    }
}

proof fn lemma_apply_removed(
    m: Map<Seq<char>, bool>,
    s: Seq<(Seq<char>, bool)>,
    keep: Map<Seq<char>, bool>,
    k: Seq<char>,
)
    ensures
        lookup(apply_updates(m, removed_entries(s, keep)), k) == if has_key(s, k)
            && !keep.dom().contains(k) {
            None
        } else {
            lookup(m, k)
        },
    decreases s.len(),
{
    if s.len() > 0 {
        let t = s.drop_last();
        let e = s.last();
        lemma_apply_removed(m, t, keep, k);
        let r = removed_entries(s, keep);
        let rt = removed_entries(t, keep);
        if !keep.dom().contains(e.0) {
            assert(r.drop_last() =~= rt);
        } else {
            assert(r == rt);
        }
        assert(has_key(s, k) == (has_key(t, k) || e.0 == k)) by {
            if has_key(s, k) {
                let j = choose|j: int| 0 <= j < s.len() && #[trigger] s[j].0 == k;
                if j < s.len() - 1 {
                    assert(t[j].0 == k);
                }
            }
            if has_key(t, k) {
                let j = choose|j: int| 0 <= j < t.len() && #[trigger] t[j].0 == k;
                assert(s[j].0 == k);
            }
            if e.0 == k {
                assert(s[s.len() - 1].0 == k);
            }
        }
    }
}

/// Writing the updates of `updates_from` over the recorded registry `current`
/// gives exactly the preferences of `desired`.
pub proof fn lemma_updates_reach_desired(
    desired: ExtensionRegistryConfig,
    current: ExtensionRegistryConfig,
)
    requires
        desired.wf(),
        current.wf(),
    ensures
        apply_updates(current@, desired.updates_spec(current)) == desired@,
{
    let sp = desired.pairs();
    let cp = current.pairs();
    let c = changed_entries(sp, current@);
    let r = removed_entries(cp, desired@);
    lemma_apply_concat(current@, c, r);
    let result = apply_updates(current@, c + r);
    assert forall|k: Seq<char>| lookup(result, k) == lookup(desired@, k) by {
        lemma_apply_removed(apply_updates(current@, c), cp, desired@, k);
        lemma_apply_changed(current@, sp, current@, k);
        assert(has_key(cp, k) == current@.dom().contains(k));
        assert(has_key(sp, k) == desired@.dom().contains(k));
    }
    assert forall|k: Seq<char>| #[trigger] result.dom().contains(k) <==> desired@.dom().contains(k) by {
        assert(lookup(result, k) == lookup(desired@, k));
    }
    assert forall|k: Seq<char>| #[trigger] result.dom().contains(k) implies result[k] == desired@[k] by {
        assert(lookup(result, k) == lookup(desired@, k));
    }
    assert(result =~= desired@);
}

impl ExtensionRegistryConfig {
    /// The updates that turn the recorded registry `current` into this one:
    /// first the entries of this registry whose value differs, in key order,
    /// then the removal of the keys that only `current` has, in key order.
    pub closed spec fn updates_spec(&self, current: ExtensionRegistryConfig) -> Seq<
        (Seq<char>, Option<bool>),
    > {
        changed_entries(self.pairs(), current@) + removed_entries(current.pairs(), self@)
    }

    /// The recorded preference for `extension_id`, if any.
    fn lookup_entry(&self, extension_id: &str) -> (value: Option<bool>)
        requires
            self.wf(),
        ensures
            value == lookup(self@, extension_id@),
    {
        proof {
            self.lemma_view_is();
        }
        match self.find(extension_id) {
            Some(i) => Some(self.extensions[i].1),
            None => None,
        }
    }

    /// A registry in format `format_version` holding `entries`, applied in
    /// order (a later entry for the same identifier wins).
    pub fn from_entries(format_version: u32, entries: Vec<(String, bool)>) -> (registry: Self)
        ensures
            registry.wf(),
            registry.version() == format_version,
            registry@ == entries_map(entry_texts(entries@)),
    {
        let mut registry = ExtensionRegistryConfig { format_version, extensions: Vec::new() };
        proof {
            assert(registry.pairs() =~= Seq::<(Seq<char>, bool)>::empty());
            assert(registry@ =~= Map::<Seq<char>, bool>::empty());
        }
        let ghost all = entry_texts(entries@);
        let n = entries.len();
        for i in 0..n
            invariant
                n == entries@.len(),
                all == entry_texts(entries@),
                registry.wf(),
                registry.version() == format_version,
                registry@ == entries_map(all.take(i as int)),
        {
            proof {
                assert(all.take(i + 1).drop_last() =~= all.take(i as int));
            }
            let id = entries[i].0.clone();
            registry.set_enabled(id, entries[i].1);
        }
        proof {
            assert(all.take(n as int) =~= all);
        }
        registry
    }

    /// The entries as (identifier, enabled) pairs, in increasing identifier order.
    pub fn entries(&self) -> (entries: Vec<(String, bool)>)
        requires
            self.wf(),
        ensures
            sorted_keys(entry_texts(entries@)),
            pairs_map(entry_texts(entries@)) == self@,
    {
        let mut out: Vec<(String, bool)> = Vec::new();
        let n = self.extensions.len();
        for i in 0..n
            invariant
                n == self.extensions@.len(),
                out@.len() == i,
                entry_texts(out@) == self.pairs().take(i as int),
        {
            proof {
                assert(self.pairs()[i as int] == (self.extensions@[i as int].0@, self.extensions@[i as int].1));
            }
            let ghost before = out@;
            let id = self.extensions[i].0.clone();
            proof {
                assert(id@ == self.pairs()[i as int].0);
            }
            out.push((id, self.extensions[i].1));
            proof {
                assert(out@ == before.push(out@[i as int]));
                assert(entry_texts(out@) =~= entry_texts(before).push(self.pairs()[i as int]));
                assert(self.pairs().take(i + 1) =~= self.pairs().take(i as int).push(self.pairs()[i as int]));
            }
        }
        proof {
            assert(self.pairs().take(n as int) =~= self.pairs());
        }
        out
    }

    /// Accepts the registry only in the current format and with valid identifiers.
    pub fn validate(&self) -> (result: Result<(), String>)
        requires
            self.wf(),
        ensures
            match result {
                Ok(()) => registry_validation(self.version(), self@) == Ok::<(), Seq<char>>(()),
                Err(message) => registry_validation(self.version(), self@) == Err::<(), Seq<char>>(
                    message@,
                ),
            },
    {
        proof {
            self.lemma_view_is();
        }
        if self.format_version != REGISTRY_FORMAT_VERSION {
            let number = decimal_string(self.format_version as u64);
            return Err(String::from_str("unsupported extension registry format ").concat(
                number.as_str(),
            ));
        }
        let n = self.extensions.len();
        for i in 0..n
            invariant
                n == self.extensions@.len(),
                n == self.pairs().len(),
                self.version() == REGISTRY_FORMAT_VERSION,
                forall|j: int| 0 <= j < i ==> valid_extension_id(#[trigger] self.pairs()[j].0),
        {
            if !is_valid_extension_id(self.extensions[i].0.as_str()) {
                proof {
                    let k = self.pairs()[i as int].0;
                    assert(k == self.extensions@[i as int].0@);
                    assert(self@.dom().contains(k) && !valid_extension_id(k));
                }
                return Err(String::from_str("extension registry contains an invalid extension id"));
            }
        }
        proof {
            assert forall|k: Seq<char>| #[trigger] self@.dom().contains(k) implies valid_extension_id(k) by {
                let j = choose|j: int| 0 <= j < self.pairs().len() && #[trigger] self.pairs()[j].0 == k;
            }
        }
        Ok(())
    }

    /// The updates that turn the recorded registry `current` into this one,
    /// as `updates_spec` orders them.
    pub fn updates_from(&self, current: &ExtensionRegistryConfig) -> (updates: Vec<
        (String, Option<bool>),
    >)
        requires
            self.wf(),
            current.wf(),
        ensures
            update_texts(updates@) == self.updates_spec(*current),
            apply_updates(current@, update_texts(updates@)) == self@,
    {
        let ghost sp = self.pairs();
        let ghost cp = current.pairs();
        let mut updates: Vec<(String, Option<bool>)> = Vec::new();
        let n = self.extensions.len();
        for i in 0..n
            invariant
                n == self.extensions@.len(),
                sp == self.pairs(),
                current.wf(),
                update_texts(updates@) == changed_entries(sp.take(i as int), current@),
        {
            proof {
                assert(sp.take(i + 1).drop_last() =~= sp.take(i as int));
                assert(sp[i as int] == (self.extensions@[i as int].0@, self.extensions@[i as int].1));
            }
            let id = self.extensions[i].0.as_str();
            let enabled = self.extensions[i].1;
            if current.lookup_entry(id) != Some(enabled) {
                updates.push((id.to_owned(), Some(enabled)));
                proof {
                    assert(update_texts(updates@) =~= changed_entries(sp.take(i as int), current@).push(
                        (sp[i as int].0, Some(sp[i as int].1)),
                    ));
                }
            }
        }
        proof {
            assert(sp.take(n as int) =~= sp);
            self.lemma_view_is();
        }
        let ghost changed = update_texts(updates@);
        let m = current.extensions.len();
        for j in 0..m
            invariant
                m == current.extensions@.len(),
                cp == current.pairs(),
                self.wf(),
                update_texts(updates@) == changed + removed_entries(cp.take(j as int), self@),
        {
            proof {
                assert(cp.take(j + 1).drop_last() =~= cp.take(j as int));
                assert(cp[j as int] == (current.extensions@[j as int].0@, current.extensions@[j as int].1));
            }
            let id = current.extensions[j].0.as_str();
            if self.lookup_entry(id).is_none() {
                let ghost before = update_texts(updates@);
                updates.push((id.to_owned(), None));
                proof {
                    assert(!self@.dom().contains(cp[j as int].0));
                    let r = removed_entries(cp.take(j as int), self@);
                    assert(removed_entries(cp.take(j + 1), self@) == r.push((cp[j as int].0, None)));
                    assert(update_texts(updates@) =~= before.push((cp[j as int].0, None)));
                    assert(changed + r.push((cp[j as int].0, None)) =~= (changed + r).push(
                        (cp[j as int].0, None),
                    ));
                }
            }
        }
        proof {
            assert(cp.take(m as int) =~= cp);
            lemma_updates_reach_desired(*self, *current);
        }
        updates
    }
}

impl Default for ExtensionRegistryConfig {
    fn default() -> (registry: Self)
        ensures
            registry.wf(),
            registry@ == Map::<Seq<char>, bool>::empty(),
            registry.version() == REGISTRY_FORMAT_VERSION,
    {
        ExtensionRegistryConfig::new()
    }
}

/// Reading a preference back: after `set_enabled(id, enabled)` the registry
/// reports `enabled` for `id` whatever the default, and every other
/// identifier reads as before.
pub proof fn lemma_read_after_set(
    before: Map<Seq<char>, bool>,
    id: Seq<char>,
    enabled: bool,
    other: Seq<char>,
)
    ensures
        lookup(before.insert(id, enabled), id) == Some(enabled),
        other != id ==> lookup(before.insert(id, enabled), other) == lookup(before, other),
{
}

/// Reading after a removal: after `remove(id)` the registry reports the
/// caller's default for `id`, and every other identifier reads as before.
pub proof fn lemma_read_after_remove(before: Map<Seq<char>, bool>, id: Seq<char>, other: Seq<char>)
    ensures
        lookup(before.remove(id), id) is None,
        other != id ==> lookup(before.remove(id), other) == lookup(before, other),
{
}

/// Applying entries in key order without repetition gives the map they describe.
proof fn lemma_sorted_entries_map(s: Seq<(Seq<char>, bool)>)
    requires
        sorted_keys(s),
    ensures
        entries_map(s) == pairs_map(s),
    decreases s.len(),
{
    if s.len() > 0 {
        let t = s.drop_last();
        let n = s.len() - 1;
        assert(sorted_keys(t));
        lemma_sorted_entries_map(t);
        let m = pairs_map(s);
        let e = s[n];
        lemma_pairs_map_at(s, n);
        assert forall|k: Seq<char>| #[trigger] m.dom().contains(k) <==> pairs_map(t).insert(
            e.0,
            e.1,
        ).dom().contains(k) by {
            if has_key(s, k) && k != e.0 {
                let j = choose|j: int| 0 <= j < s.len() && #[trigger] s[j].0 == k;
                assert(t[j].0 == k);
            }
            if has_key(t, k) {
                let j = choose|j: int| 0 <= j < t.len() && #[trigger] t[j].0 == k;
                assert(s[j].0 == k);
            }
        }
        assert forall|k: Seq<char>| #[trigger] m.dom().contains(k) implies m[k] == pairs_map(
            t,
        ).insert(e.0, e.1)[k] by {
            if k != e.0 {
                let j = choose|j: int| 0 <= j < s.len() && #[trigger] s[j].0 == k;
                assert(j != n);
                assert(t[j] == s[j]);
                lemma_pairs_map_at(s, j);
                lemma_pairs_map_at(t, j);
            }
        }
        assert(m =~= pairs_map(t).insert(e.0, e.1));
    }
}

/// Writing a registry's entries out and reading them back gives the same
/// registry: `from_entries` of what `entries` lists has the same preferences.
pub proof fn lemma_entries_round_trip(registry: ExtensionRegistryConfig, entries: Seq<(Seq<char>, bool)>)
    requires
        sorted_keys(entries),
        pairs_map(entries) == registry@,
    ensures
        entries_map(entries) == registry@,
{
    lemma_sorted_entries_map(entries);
}

} // verus!
