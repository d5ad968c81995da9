//! Session keys that rotate: the key in use, the one prepared to replace
//! it, and the keys retired by earlier rotations, found again by identifier.

use vstd::prelude::*;
use crate::common::wire::extend_bytes;

verus! {

/// A key, its identifier and its lifetime (in the caller's time unit).
#[derive(Debug)]
pub struct KeyInfo {
    pub key_id: u64,
    pub key: Vec<u8>,
    pub created_at: u64,
    pub expires_at: u64,
}

/// What a key stands for: identifier, bytes, creation and expiry times.
pub type KeyView = (u64, Seq<u8>, u64, u64);

impl View for KeyInfo {
    type V = KeyView;

    open spec fn view(&self) -> KeyView {
        (self.key_id, self.key@, self.created_at, self.expires_at)
    }
}

impl Clone for KeyInfo {
    /// An equal key.
    fn clone(&self) -> (c: Self)
        ensures
            c@ == self@,
    {
        let mut key: Vec<u8> = Vec::new();
        extend_bytes(&mut key, self.key.as_slice());
        KeyInfo { key_id: self.key_id, key, created_at: self.created_at, expires_at: self.expires_at }
    }
}

/// `dashmap::DashMap`, the concurrent map that holds the retired keys.
#[verifier::external_type_specification]
#[verifier::external_body]
#[verifier::reject_recursive_types(K)]
#[verifier::reject_recursive_types(V)]
#[verifier::reject_recursive_types(S)]
pub struct ExDashMap<K, V, S>(dashmap::DashMap<K, V, S>);

/// The map that holds retired keys by identifier.
pub type RetiredMap = dashmap::DashMap<u64, KeyInfo>;

/// The entries of a map of retired keys, each key taken by its view.
pub uninterp spec fn retired_entries(m: RetiredMap) -> Map<u64, KeyView>;

/// No keys at all.
pub open spec fn no_keys() -> Map<u64, KeyView> {
    Map::empty()
}

/// Calls `dashmap::DashMap::new`: an empty map.
#[verifier::external_body]
fn retired_new() -> (m: RetiredMap)
    ensures
        retired_entries(m) == no_keys(),
{
    dashmap::DashMap::new()
}

/// Calls `dashmap::DashMap::insert`: the entry for `id` becomes `info`,
/// replacing an earlier one; the other entries stay.
#[verifier::external_body]
fn retired_insert(m: &mut RetiredMap, id: u64, info: KeyInfo)
    ensures
        retired_entries(*final(m)) == retired_entries(*old(m)).insert(id, info@),
{
    m.insert(id, info);
}

/// Calls `dashmap::DashMap::get` and clones the entry found: the key stored
/// under `id`, if any.
#[verifier::external_body]
fn retired_get(m: &RetiredMap, id: u64) -> (r: Option<KeyInfo>)
    ensures
        match r {
            Some(k) => retired_entries(*m).contains_key(id) && k@ == retired_entries(*m)[id],
            None => !retired_entries(*m).contains_key(id),
        },
{
    m.get(&id).map(|entry| entry.value().clone())
}

/// Whether a key is still valid at `now`: it expires strictly later.
pub open spec fn unexpired(k: KeyView, now: u64) -> bool {
    k.3 > now
}

/// Whether `info` is still valid at `now`.
pub fn key_unexpired(info: &KeyInfo, now: u64) -> (b: bool)
    ensures
        b == unexpired(info@, now),
{
    info.expires_at > now
}

/// The entries of `m` that are still valid at `now`.
pub open spec fn unexpired_entries(m: Map<u64, KeyView>, now: u64) -> Map<u64, KeyView> {
    m.restrict(m.dom().filter(|id: u64| unexpired(m[id], now)))
}

/// Calls `dashmap::DashMap::retain` with `key_unexpired`: the entries that
/// are still valid at `now` stay, the others leave.
#[verifier::external_body]
fn retired_retain_unexpired(m: &mut RetiredMap, now: u64)
    ensures
        retired_entries(*final(m)) == unexpired_entries(retired_entries(*old(m)), now),
{
    m.retain(|_, info| key_unexpired(info, now));
}

/// The key in use, the next key and the retired keys, with the lifetime
/// given to each new key.
pub struct KeyManager {
    current_key: Option<KeyInfo>,
    next_key: Option<KeyInfo>,
    previous_keys: RetiredMap,
    rotation_interval: u64,
}

/// The view of an optional key.
pub open spec fn opt_view(k: Option<KeyInfo>) -> Option<KeyView> {
    match k {
        Some(i) => Some(i@),
        None => None,
    }
}

/// The key with identifier `id`: the current key, else the next one, else a
/// retired one.
pub open spec fn spec_key_by_id(
    current: Option<KeyView>,
    next: Option<KeyView>,
    retired: Map<u64, KeyView>,
    id: u64,
) -> Option<KeyView> {
    if current matches Some(c) && c.0 == id {
        current
    } else if next matches Some(n) && n.0 == id {
        next
    } else if retired.contains_key(id) {
        Some(retired[id])
    } else {
        None
    }
}

impl KeyManager {
    /// The key in use.
    pub closed spec fn spec_current(&self) -> Option<KeyView> {
        opt_view(self.current_key)
    }

    /// The key prepared to replace it.
    pub closed spec fn spec_next(&self) -> Option<KeyView> {
        opt_view(self.next_key)
    }

    /// The retired keys by identifier.
    pub closed spec fn spec_retired(&self) -> Map<u64, KeyView> {
        retired_entries(self.previous_keys)
    }

    /// The lifetime of a new key.
    pub closed spec fn spec_rotation_interval(&self) -> u64 {
        self.rotation_interval
    }

    /// No key yet; new keys live `rotation_interval`.
    pub fn new(rotation_interval: u64) -> (m: KeyManager)
        ensures
            m.spec_current() is None,
            m.spec_next() is None,
            m.spec_retired() == Map::<u64, KeyView>::empty(),
            m.spec_rotation_interval() == rotation_interval,
    {
        KeyManager { current_key: None, next_key: None, previous_keys: retired_new(), rotation_interval }
    }

    /// Puts `key` in use as `key_id`, created at `current_time` and expiring
    /// one rotation interval later.
    pub fn set_current_key(&mut self, key_id: u64, key: Vec<u8>, current_time: u64)
        requires
            current_time + old(self).spec_rotation_interval() <= u64::MAX,
        ensures
            final(self).spec_current() == Some(
                (key_id, key@, current_time, (current_time + old(self).spec_rotation_interval()) as u64),
            ),
            final(self).spec_next() == old(self).spec_next(),
            final(self).spec_retired() == old(self).spec_retired(),
            final(self).spec_rotation_interval() == old(self).spec_rotation_interval(),
    {
        let expires_at = current_time + self.rotation_interval;
        self.current_key = Some(KeyInfo { key_id, key, created_at: current_time, expires_at });
    }

    /// Prepares `key` as `key_id` to replace the key in use, created at
    /// `current_time` and expiring one rotation interval later.
    pub fn set_next_key(&mut self, key_id: u64, key: Vec<u8>, current_time: u64)
        requires
            current_time + old(self).spec_rotation_interval() <= u64::MAX,
        ensures
            final(self).spec_next() == Some(
                (key_id, key@, current_time, (current_time + old(self).spec_rotation_interval()) as u64),
            ),
            final(self).spec_current() == old(self).spec_current(),
            final(self).spec_retired() == old(self).spec_retired(),
            final(self).spec_rotation_interval() == old(self).spec_rotation_interval(),
    {
        let expires_at = current_time + self.rotation_interval;
        self.next_key = Some(KeyInfo { key_id, key, created_at: current_time, expires_at });
    }

    /// A copy of the key in use.
    pub fn get_current_key(&self) -> (k: Option<KeyInfo>)
        ensures
            opt_view(k) == self.spec_current(),
    {
        match &self.current_key {
            Some(k) => Some(k.clone()),
            None => None,
        }
    }

    /// Puts the next key in use and retires the one it replaces, under its
    /// identifier; `false`, changing nothing, when no next key is prepared.
    /// The time is not used.
    pub fn rotate_key(&mut self, current_time: u64) -> (rotated: bool)
        ensures
            rotated == old(self).spec_next() is Some,
            final(self).spec_rotation_interval() == old(self).spec_rotation_interval(),
            !rotated ==> final(self).spec_current() == old(self).spec_current()
                && final(self).spec_next() == old(self).spec_next()
                && final(self).spec_retired() == old(self).spec_retired(),
            rotated ==> final(self).spec_current() == old(self).spec_next()
                && final(self).spec_next() is None
                && final(self).spec_retired() == match old(self).spec_current() {
                    Some(c) => old(self).spec_retired().insert(c.0, c),
                    None => old(self).spec_retired(),
                },
    {
        let next = self.next_key.take();
        match next {
            Some(next_key) => {
                let old_key = self.current_key.take();
                self.current_key = Some(next_key);
                if let Some(old_key) = old_key {
                    let id = old_key.key_id;
                    retired_insert(&mut self.previous_keys, id, old_key);
                }
                true
            },
            None => false,
        }
    }

    /// The key with identifier `key_id`: the one in use, else the next one,
    /// else a retired one.
    pub fn get_key_by_id(&self, key_id: u64) -> (k: Option<KeyInfo>)
        ensures
            opt_view(k) == spec_key_by_id(self.spec_current(), self.spec_next(), self.spec_retired(), key_id),
    {
        if let Some(current) = &self.current_key {
            if current.key_id == key_id {
                return Some(current.clone());
            }
        }
        if let Some(next) = &self.next_key {
            if next.key_id == key_id {
                return Some(next.clone());
            }
        }
        retired_get(&self.previous_keys, key_id)
    }

    /// Whether the key with identifier `key_id` exists and is still valid at
    /// `current_time`.
    pub fn is_key_valid(&self, key_id: u64, current_time: u64) -> (b: bool)
        ensures
            b == (spec_key_by_id(self.spec_current(), self.spec_next(), self.spec_retired(), key_id) matches Some(k)
                && unexpired(k, current_time)),
    {
        match self.get_key_by_id(key_id) {
            Some(k) => k.expires_at > current_time,
            None => false,
        }
    }

    /// Rotates when the key in use has expired at `current_time`, then drops
    /// the retired keys that have expired.
    pub fn cleanup_expired_keys(&mut self, current_time: u64)
        ensures
            final(self).spec_rotation_interval() == old(self).spec_rotation_interval(),
            ({
                let rotate = old(self).spec_current() matches Some(c) && !unexpired(c, current_time)
                    && old(self).spec_next() is Some;
                let retired = if rotate {
                    {
                    let c = old(self).spec_current()->0;
                    old(self).spec_retired().insert(c.0, c)
                }
                } else {
                    old(self).spec_retired()
                };
                &&& final(self).spec_current() == if rotate { old(self).spec_next() } else { old(self).spec_current() }
                &&& final(self).spec_next() == if rotate { None } else { old(self).spec_next() }
                &&& final(self).spec_retired() == unexpired_entries(retired, current_time)
            }),
    {
        let expired = match &self.current_key {
            Some(current) => current.expires_at <= current_time,
            None => false,
        };
        if expired {
            self.rotate_key(current_time);
        }
        retired_retain_unexpired(&mut self.previous_keys, current_time);
    }
}

/// A rotation keeps every key reachable by its identifier: the key that was
/// in use is found again among the retired keys, and the new key in use is
/// the one that was prepared.
pub proof fn lemma_rotation_keeps_keys(
    current: KeyView,
    next: KeyView,
    retired: Map<u64, KeyView>,
)
    requires
        current.0 != next.0,
    ensures
        spec_key_by_id(Some(next), None, retired.insert(current.0, current), current.0) == Some(current),
        spec_key_by_id(Some(next), None, retired.insert(current.0, current), next.0) == Some(next),
{
}

/// After cleanup, no retired key has expired.
pub proof fn lemma_cleanup_leaves_valid_keys(retired: Map<u64, KeyView>, now: u64, id: u64)
    requires
        unexpired_entries(retired, now).contains_key(id),
    ensures
        unexpired(unexpired_entries(retired, now)[id], now),
{
}

/// Lookup finds each key the manager holds by its own identifier: the key in
/// use always; the prepared key when the key in use has another identifier;
/// a retired key when neither of the other two has its identifier. A lookup
/// answers only with a key that carries the identifier asked for, and finds
/// nothing exactly when no key held carries it.
pub proof fn lemma_lookup_finds_held_keys(
    current: Option<KeyView>,
    next: Option<KeyView>,
    retired: Map<u64, KeyView>,
    id: u64,
)
    requires
        forall|k: u64| #[trigger] retired.contains_key(k) ==> retired[k].0 == k,
    ensures
        current matches Some(c) && c.0 == id ==> spec_key_by_id(current, next, retired, id) == current,
        next matches Some(n) && n.0 == id && !(current matches Some(c) && c.0 == id) ==> spec_key_by_id(
            current,
            next,
            retired,
            id,
        ) == next,
        retired.contains_key(id) && !(current matches Some(c) && c.0 == id) && !(next matches Some(n) && n.0 == id)
            ==> spec_key_by_id(current, next, retired, id) == Some(retired[id]),
        spec_key_by_id(current, next, retired, id) matches Some(k) ==> k.0 == id,
        spec_key_by_id(current, next, retired, id) is None <==> !(current matches Some(c) && c.0 == id) && !(
        next matches Some(n) && n.0 == id) && !retired.contains_key(id),
{
}

/// The key prepared with `set_next_key` is found by its identifier whenever
/// the key in use has another one: lookups see the state that
/// `set_next_key` leaves, with the prepared key in place.
pub proof fn lemma_next_key_found(
    current: Option<KeyView>,
    retired: Map<u64, KeyView>,
    key_id: u64,
    key: Seq<u8>,
    created: u64,
    expires: u64,
)
    requires
        !(current matches Some(c) && c.0 == key_id),
    ensures
        spec_key_by_id(current, Some((key_id, key, created, expires)), retired, key_id) == Some(
            (key_id, key, created, expires),
        ),
{
}

} // verus!