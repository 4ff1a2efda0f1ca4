//! The signature store: a durable membership index over known-malicious
//! content digests.
//!
//! The store owns the set of digests plus metadata (entry count, last
//! refresh time).  It is mutated only by the refresh operation, which
//! replaces the contents atomically: no lookup ever observes a partially
//! applied refresh, and a failed refresh leaves the store unchanged.
//! Holding the store behind `&mut` for the whole of a refresh also keeps
//! two refreshes from ever interleaving.
//!
//! Durable storage and the remote feed are the caller's business: the
//! caller loads the persisted digests into `load` and hands the fetched
//! feed lines to `refresh_from_feed`.

use crate::digest::{is_digest, is_digest_str};
use crate::progress::{percent_of, send_progress};
use vstd::prelude::*;

verus! {

/// Failures of the signature store.
#[derive(Debug, Clone, PartialEq, Eq)]
pub enum StoreError {
    /// The backing storage could not be created or opened.
    Unavailable,
    /// A lookup failed at the storage layer; this is not evidence that a
    /// digest is absent.
    QueryFailed,
    /// A refresh aborted; the store is unchanged and the reason is kept.
    RefreshFailed(String),
}

impl StoreError {
    /// A human-readable rendering, the only error surface promised to
    /// callers outside this crate.
    pub fn message(&self) -> (m: String)
        ensures
            self is Unavailable ==> m@ == "signature store unavailable"@,
            self is QueryFailed ==> m@ == "signature store query failed"@,
            self matches StoreError::RefreshFailed(reason) ==> m@ == "signature store refresh failed: "@
                + reason@,
    {
        match self {
            StoreError::Unavailable => "signature store unavailable".to_owned(),
            StoreError::QueryFailed => "signature store query failed".to_owned(),
            StoreError::RefreshFailed(reason) => {
                let mut m = "signature store refresh failed: ".to_owned();
                m.append(reason.as_str());
                m
            },
        }
    }
}

/// The durable set of known-malicious digests.
pub struct SignatureStore {
    entries: Vec<String>,
    last_refresh: String,
}

impl View for SignatureStore {
    type V = Set<Seq<char>>;

    open spec fn view(&self) -> Set<Seq<char>> {
        self.digests().to_set()
    }
}

impl SignatureStore {
    /// The stored digests in storage order, free of duplicates when the
    /// store is well formed.
    pub closed spec fn digests(&self) -> Seq<Seq<char>> {
        self.entries.deep_view()
    }

    /// The recorded time of the last successful refresh ("Never" before
    /// the first one).
    pub closed spec fn last_refresh_spec(&self) -> Seq<char> {
        self.last_refresh@
    }

    /// Well-formedness: every entry is a digest, and set semantics hold
    /// (at most one entry per digest value).
    pub closed spec fn wf(&self) -> bool {
        &&& forall|i: int| 0 <= i < self.digests().len() ==> is_digest(#[trigger] self.digests()[i])
        &&& self.digests().no_duplicates()
    }

    /// An empty store that has never been refreshed.
    pub fn new() -> (s: SignatureStore)
        ensures
            s.wf(),
            s@ == Set::<Seq<char>>::empty(),
            s.digests() == Seq::<Seq<char>>::empty(),
            s.last_refresh_spec() == "Never"@,
    {
        let s = SignatureStore { entries: Vec::new(), last_refresh: "Never".to_owned() };
        proof {
            assert(s.digests() =~= Seq::<Seq<char>>::empty());
            assert(s@ =~= Set::<Seq<char>>::empty());
        }
        s
    }

    /// Opens a store from its persisted state: the digest list read back
    /// from durable storage and the recorded last-refresh time.  A line
    /// that is not a well-formed digest means the storage is corrupt, and
    /// the store is unavailable; duplicates are collapsed.
    pub fn load(persisted: Vec<String>, last_refresh: String) -> (r: Result<
        SignatureStore,
        StoreError,
    >)
        ensures
            (forall|i: int|
                0 <= i < persisted.deep_view().len() ==> is_digest(
                    #[trigger] persisted.deep_view()[i],
                )) <==> !(r matches Err(StoreError::Unavailable)),
            r matches Ok(s) ==> {
                &&& s.wf()
                &&& s@ == persisted.deep_view().to_set()
                &&& s.last_refresh_spec() == last_refresh@
            },
            r is Ok || r matches Err(StoreError::Unavailable),
    {
        let mut entries: Vec<String> = Vec::new();
        let mut i: usize = 0;
        while i < persisted.len()
            invariant
                0 <= i <= persisted.len(),
                forall|j: int| 0 <= j < i ==> is_digest(#[trigger] persisted.deep_view()[j]),
                forall|j: int|
                    0 <= j < entries.deep_view().len() ==> is_digest(
                        #[trigger] entries.deep_view()[j],
                    ),
                entries.deep_view().no_duplicates(),
                entries.deep_view().to_set() == persisted.deep_view().take(i as int).to_set(),
            decreases persisted.len() - i,
        {
            let line = &persisted[i];
            if !is_digest_str(line.as_str()) {
                proof {
                    assert(!is_digest(persisted.deep_view()[i as int]));
                }
                return Err(StoreError::Unavailable);
            }
            let ghost pre = entries.deep_view();
            let ghost elem = persisted.deep_view()[i as int];
            if !contains_string(&entries, line) {
                entries.push(line.clone());
                proof {
                    assert(entries.deep_view() =~= pre.push(elem));
                    pre.lemma_push_to_set_commute(elem);
                }
            } else {
                proof {
                    assert(pre.to_set().insert(elem) =~= pre.to_set());
                }
            }
            proof {
                assert(persisted.deep_view().take(i + 1) =~= persisted.deep_view().take(
                    i as int,
                ).push(elem));
                persisted.deep_view().take(i as int).lemma_push_to_set_commute(elem);
                assert(entries.deep_view().to_set() =~= persisted.deep_view().take(
                    i + 1,
                ).to_set());
            }
            i = i + 1;
        }
        proof {
            assert(persisted.deep_view().take(persisted.len() as int) =~= persisted.deep_view());
        }
        Ok(SignatureStore { entries, last_refresh })
    }

    /// How many digests the store holds.
    pub fn entry_count(&self) -> (n: usize)
        ensures
            n == self.digests().len(),
            self.wf() ==> n == self@.len(),
    {
        proof {
            if self.wf() {
                self.digests().unique_seq_to_set();
            }
        }
        self.entries.len()
    }

    /// The recorded time of the last successful refresh.
    /// The stored digests, for persisting the store.
    pub fn digest_list(&self) -> (v: &Vec<String>)
        ensures
            v.deep_view() == self.digests(),
    {
        &self.entries
    }

    pub fn last_refresh(&self) -> (t: &String)
        ensures
            t@ == self.last_refresh_spec(),
    {
        &self.last_refresh
    }

    /// Membership lookup.  Safe to run concurrently with other lookups
    /// (it only reads).  The error case is how a storage-layer failure
    /// would surface; callers must treat it as distinct from "not found".
    pub fn contains(&self, digest: &String) -> (r: Result<bool, StoreError>)
        ensures
            r matches Ok(b) && b == self@.contains(digest@),
    {
        Ok(contains_string(&self.entries, digest))
    }

    /// Replaces the store's contents from the fetched signature feed,
    /// atomically: either every line is a well-formed digest and the
    /// store afterwards holds exactly the feed's digests, or the store is
    /// left exactly as it was and the refresh fails.  Progress is pushed
    /// through the optional sender as the feed is consumed.  Entry count
    /// and the last-refresh time are updated only on full success.
    pub fn refresh_from_feed(
        &mut self,
        feed: &Vec<String>,
        timestamp: &str,
        sender: Option<&flume::Sender<u32>>,
    ) -> (r: Result<usize, StoreError>)
        ensures
            r is Err ==> *final(self) == *old(self),
            (forall|i: int|
                0 <= i < feed.deep_view().len() ==> is_digest(#[trigger] feed.deep_view()[i]))
                <==> r is Ok,
            r matches Ok(count) ==> {
                &&& final(self).wf()
                &&& final(self)@ == feed.deep_view().to_set()
                &&& count == final(self)@.len()
                &&& final(self).last_refresh_spec() == timestamp@
            },
            r is Err ==> (r matches Err(StoreError::RefreshFailed(reason)) && reason@
                == "malformed digest in feed"@),
    {
        let mut fresh: Vec<String> = Vec::new();
        let mut i: usize = 0;
        let mut last_pct: u32 = 0;
        while i < feed.len()
            invariant
                0 <= i <= feed.len(),
                forall|j: int| 0 <= j < i ==> is_digest(#[trigger] feed.deep_view()[j]),
                forall|j: int|
                    0 <= j < fresh.deep_view().len() ==> is_digest(#[trigger] fresh.deep_view()[j]),
                fresh.deep_view().no_duplicates(),
                fresh.deep_view().to_set() == feed.deep_view().take(i as int).to_set(),
                *self == *old(self),
            decreases feed.len() - i,
        {
            let line = &feed[i];
            if !is_digest_str(line.as_str()) {
                proof {
                    assert(!is_digest(feed.deep_view()[i as int]));
                }
                return Err(StoreError::RefreshFailed("malformed digest in feed".to_owned()));
            }
            let ghost pre = fresh.deep_view();
            let ghost elem = feed.deep_view()[i as int];
            if !contains_string(&fresh, line) {
                fresh.push(line.clone());
                proof {
                    assert(fresh.deep_view() =~= pre.push(elem));
                    pre.lemma_push_to_set_commute(elem);
                }
            } else {
                proof {
                    assert(pre.to_set().insert(elem) =~= pre.to_set());
                }
            }
            proof {
                assert(feed.deep_view().take(i + 1) =~= feed.deep_view().take(i as int).push(elem));
                feed.deep_view().take(i as int).lemma_push_to_set_commute(elem);
                assert(fresh.deep_view().to_set() =~= feed.deep_view().take(i + 1).to_set());
            }
            i = i + 1;
            if let Some(s) = sender {
                let pct = percent_of(i as u64, feed.len() as u64);
                if pct != last_pct {
                    send_progress(s, pct);
                    last_pct = pct;
                }
            }
        }
        proof {
            assert(feed.deep_view().take(feed.len() as int) =~= feed.deep_view());
        }
        let count = fresh.len();
        self.entries = fresh;
        self.last_refresh = timestamp.to_owned();
        proof {
            self.digests().unique_seq_to_set();
        }
        Ok(count)
    }
}

/// Linear membership scan over owned digest strings.
pub fn contains_string(v: &Vec<String>, s: &String) -> (b: bool)
    ensures
        b == v.deep_view().to_set().contains(s@),
{
    let mut i: usize = 0;
    let mut found = false;
    while i < v.len()
        invariant
            0 <= i <= v.len(),
            found == exists|j: int| 0 <= j < i && v.deep_view()[j] == s@,
        decreases v.len() - i,
    {
        proof {
            assert(v.deep_view()[i as int] == v@[i as int]@);
        }
        if v[i] == *s {
            found = true;
        }
        i = i + 1;
    }
    proof {
        if found {
            assert(v.deep_view().contains(s@));
        }
        if v.deep_view().to_set().contains(s@) {
            assert(v.deep_view().contains(s@));
        }
    }
    found
}

} // verus!
