//! Display names of players, looked up by unique id through a cache that
//! is consulted before the identity service.
//!
//! A lookup either answers from the cache or asks its caller to fetch the
//! name history from the service; the caller then hands the fetched
//! history, or the failure, to [`UsernameCache::complete`].

use vstd::prelude::*;
use std::collections::HashMap;
use crate::ident::{simple_form, simple_form_of};
use crate::text::concat;

verus! {

broadcast use vstd::std_specs::hash::group_hash_axioms;

/// One entry of a name history: the name, and since when it was in effect.
#[derive(Debug)]
pub struct NameRecord {
    pub name: String,
    pub changed_to_at: Option<u64>,
}

/// Why a display name could not be had.
#[derive(Debug, Clone, Copy, PartialEq, Eq, Structural)]
pub enum ResolutionError {
    /// The identity service could not be reached or answered with an error.
    Request,
    /// The answer was not a name history.
    Malformed,
    /// The name history was empty.
    EmptyHistory,
}

/// What a lookup found.
#[derive(Debug, PartialEq, Eq)]
pub enum Lookup {
    /// The cached display name.
    Cached(String),
    /// Not cached: the name history is to be fetched from this address.
    Fetch(String),
}

/// Display names by unique id. Failed lookups are never stored.
pub struct UsernameCache {
    names: HashMap<u128, String>,
}

/// Time since which a record's name is in effect; a record without one
/// counts as being in effect from the start.
pub open spec fn since(r: NameRecord) -> nat {
    match r.changed_to_at {
        Some(t) => t as nat,
        None => 0,
    }
}

/// Index of the most recent record of `h`: the last among those with the
/// greatest time.
pub open spec fn latest_index(h: Seq<NameRecord>) -> int
    decreases h.len(),
{
    if h.len() <= 1 {
        0
    } else {
        let b = latest_index(h.drop_last());
        if since(h.last()) >= since(h[b]) {
            h.len() - 1
        } else {
            b
        }
    }
}

/// The name cached for `id`, if any.
pub open spec fn cached_name(m: Map<u128, String>, id: u128) -> Option<String> {
    if m.contains_key(id) {
        Some(m[id])
    } else {
        None
    }
}

/// The records of a fetched name history, or the failure to fetch it.
pub open spec fn fetched_view(f: Result<Vec<NameRecord>, ResolutionError>) -> Result<
    Seq<NameRecord>,
    ResolutionError,
> {
    match f {
        Ok(h) => Ok(h@),
        Err(e) => Err(e),
    }
}

/// The name resolved from a fetch: the one in effect, or the failure.
pub open spec fn resolved(f: Result<Seq<NameRecord>, ResolutionError>) -> Result<String, ResolutionError> {
    match f {
        Err(e) => Err(e),
        Ok(h) => if h.len() == 0 {
            Err(ResolutionError::EmptyHistory)
        } else {
            Ok(h[latest_index(h)].name)
        },
    }
}

/// The cache `m` after a fetch for `id`: the resolved name is stored, and a
/// failure stores nothing.
pub open spec fn stored_after(m: Map<u128, String>, id: u128, f: Result<Seq<NameRecord>, ResolutionError>) -> Map<u128, String> {
    match resolved(f) {
        Ok(n) => m.insert(id, n),
        Err(_) => m,
    }
}

/// Address of the name history of the player `id`.
pub open spec fn history_url(id: u128) -> Seq<char> {
    "https://api.mojang.com/user/profiles/"@ + simple_form_of(id) + "/names"@
}

/// The most recent record is in effect no earlier than any other, and
/// strictly later than every record after it.
pub proof fn lemma_latest_is_most_recent(h: Seq<NameRecord>)
    requires
        h.len() > 0,
    ensures
        0 <= latest_index(h) < h.len(),
        forall|j: int| 0 <= j < h.len() ==> since(#[trigger] h[j]) <= since(h[latest_index(h)]),
        forall|j: int|
            latest_index(h) < j < h.len() ==> since(#[trigger] h[j]) < since(h[latest_index(h)]),
    decreases h.len(),
{
    if h.len() > 1 {
        let d = h.drop_last();
        lemma_latest_is_most_recent(d);
        let b = latest_index(d);
        assert(h[b] == d[b]);
        assert forall|j: int| 0 <= j < h.len() implies since(#[trigger] h[j]) <= since(
            h[latest_index(h)],
        ) by {
            if j < h.len() - 1 {
                assert(h[j] == d[j]);
            }
        }
        assert forall|j: int| latest_index(h) < j < h.len() implies since(#[trigger] h[j]) < since(
            h[latest_index(h)],
        ) by {
            if j < h.len() - 1 {
                assert(h[j] == d[j]);
            }
        }
    }
}

/// The name in effect according to the history `h`, if `h` has a record.
pub fn current_name(h: &Vec<NameRecord>) -> (r: Option<String>)
    ensures
        h@.len() == 0 ==> r is None,
        h@.len() > 0 ==> r == Some(h@[latest_index(h@)].name),
{
    if h.len() == 0 {
        return None;
    }
    let mut best: usize = 0;
    let mut i: usize = 1;
    while i < h.len()
        invariant
            1 <= i <= h.len(),
            best < i,
            best as int == latest_index(h@.subrange(0, i as int)),
        decreases h.len() - i,
    {
        let ghost t = h@.subrange(0, i + 1);
        assert(t.drop_last() =~= h@.subrange(0, i as int));
        let key_i: u64 = match h[i].changed_to_at {
            Some(v) => v,
            None => 0,
        };
        let key_best: u64 = match h[best].changed_to_at {
            Some(v) => v,
            None => 0,
        };
        if key_i >= key_best {
            best = i;
        }
        i = i + 1;
    }
    assert(h@.subrange(0, i as int) =~= h@);
    Some(h[best].name.clone())
}

impl UsernameCache {
    /// The cached names.
    pub closed spec fn names(&self) -> Map<u128, String> {
        self.names@
    }

    /// An empty cache.
    pub fn new() -> (r: UsernameCache)
        ensures
            r.names() == Map::<u128, String>::empty(),
    {
        UsernameCache { names: HashMap::new() }
    }

    /// The cached name of `id`, if any.
    pub fn cached(&self, id: u128) -> (r: Option<String>)
        ensures
            self.names().contains_key(id) ==> r == Some(self.names()[id]),
            !self.names().contains_key(id) ==> r is None,
    {
        match self.names.get(&id) {
            Some(n) => Some(n.clone()),
            None => None,
        }
    }

    /// Answers from the cache, or asks for the name history of `id` to be
    /// fetched.
    pub fn lookup(&self, id: u128) -> (r: Lookup)
        ensures
            match cached_name(self.names(), id) {
                Some(n) => r == Lookup::Cached(n),
                None => r matches Lookup::Fetch(u) && u@ == history_url(id),
            },
    {
        match self.cached(id) {
            Some(n) => Lookup::Cached(n),
            None => {
                let hex = simple_form(id);
                let head = concat("https://api.mojang.com/user/profiles/", hex.as_str());
                Lookup::Fetch(concat(head.as_str(), "/names"))
            },
        }
    }

    /// Takes the outcome of fetching the name history of `id`: the name in
    /// effect is stored and returned; a failure, or an empty history, is
    /// returned and leaves the cache as it was.
    pub fn complete(&mut self, id: u128, fetched: Result<Vec<NameRecord>, ResolutionError>) -> (r:
        Result<String, ResolutionError>)
        ensures
            r == resolved(fetched_view(fetched)),
            final(self).names() == stored_after(old(self).names(), id, fetched_view(fetched)),
    {
        match fetched {
            Err(e) => Err(e),
            Ok(h) => match current_name(&h) {
                None => Err(ResolutionError::EmptyHistory),
                Some(n) => {
                    self.names.insert(id, n.clone());
                    Ok(n)
                },
            },
        }
    }
}

/// A name resolved for an id answers every later lookup of that id from
/// the cache, with no fetch; an id without a cached name asks for a fetch,
/// and a failed fetch leaves the cache as it was.
pub proof fn lemma_cache_answers_repeat(
    m: Map<u128, String>,
    id: u128,
    f: Result<Seq<NameRecord>, ResolutionError>,
)
    ensures
        !m.contains_key(id) ==> cached_name(m, id) is None,
        resolved(f) is Ok ==> cached_name(stored_after(m, id, f), id) == Some(resolved(f)->Ok_0),
        resolved(f) is Err ==> stored_after(m, id, f) == m,
{
}

} // verus!
