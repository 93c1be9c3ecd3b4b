//! The registry of provider connections: named, shared handles, each made
//! by one connection attempt.

use crate::boundary::{duration_from_secs, duration_of_secs, share, transport_error_text};
use crate::error::{timeout_failure_view, McpRigIntegrationError};
use std::sync::Arc;
use std::time::Duration;
use vstd::prelude::*;

verus! {

/// How an attempt to connect to a provider ended.
pub enum ConnectionAttempt<C> {
    /// The transport could not be started.
    TransportFailed(mcp_client::transport::Error),
    /// The transport started, but the provider refused the handshake.
    InitializeFailed(mcp_client::Error),
    /// The attempt took longer than the time allowed to it.
    TimedOut,
    /// The provider is connected and initialized.
    Ready(Arc<C>),
}

/// One registry entry.
struct Registration<C> {
    id: String,
    client: Arc<C>,
}

/// A registry of provider handles by name. A name holds at most one handle;
/// registering under a name that is taken replaces the handle.
pub struct McpConnectionManager<C> {
    clients: Vec<Registration<C>>,
    timeout: Duration,
}

/// No two entries carry the same name.
spec fn distinct_ids<C>(s: Seq<Registration<C>>) -> bool {
    forall|i: int, j: int| 0 <= i < j < s.len() ==> s[i].id@ != s[j].id@
}

/// The entries read as a map from name to handle.
spec fn entries_map<C>(s: Seq<Registration<C>>) -> Map<Seq<char>, Arc<C>> {
    Map::new(
        |k: Seq<char>| exists|i: int| 0 <= i < s.len() && s[i].id@ == k,
        |k: Seq<char>| s[choose|i: int| 0 <= i < s.len() && s[i].id@ == k].client,
    )
}

/// The handle registered under `name`, if there is one.
pub open spec fn lookup<C>(clients: Map<Seq<char>, Arc<C>>, name: Seq<char>) -> Option<Arc<C>> {
    if clients.contains_key(name) {
        Some(clients[name])
    } else {
        None
    }
}

/// The registry after a connection attempt under `name`: a handle that is
/// ready is stored under the name, a failed attempt leaves no trace.
pub open spec fn after_attempt<C>(
    clients: Map<Seq<char>, Arc<C>>,
    name: Seq<char>,
    attempt: ConnectionAttempt<C>,
) -> Map<Seq<char>, Arc<C>> {
    match attempt {
        ConnectionAttempt::Ready(handle) => clients.insert(name, handle),
        _ => clients,
    }
}

/// Registering under one name leaves what every other name leads to as it
/// was, however the attempt ended.
pub proof fn lemma_registration_is_local<C>(
    clients: Map<Seq<char>, Arc<C>>,
    name: Seq<char>,
    other: Seq<char>,
    attempt: ConnectionAttempt<C>,
)
    requires
        name != other,
    ensures
        lookup(after_attempt(clients, name, attempt), other) == lookup(clients, other),
{
}

/// Of two handles registered under one name, one after the other, the name
/// leads to the second.
pub proof fn lemma_registration_replaces<C>(
    clients: Map<Seq<char>, Arc<C>>,
    name: Seq<char>,
    first: Arc<C>,
    second: Arc<C>,
)
    ensures
        lookup(
            after_attempt(
                after_attempt(clients, name, ConnectionAttempt::Ready(first)),
                name,
                ConnectionAttempt::Ready(second),
            ),
            name,
        ) == Some(second),
{
}

/// A name that was removed leads to no handle, every other name leads to
/// what it led to, and removing a name that is not registered changes
/// nothing.
pub proof fn lemma_removal<C>(clients: Map<Seq<char>, Arc<C>>, name: Seq<char>, other: Seq<char>)
    ensures
        lookup(clients.remove(name), name) is None,
        name != other ==> lookup(clients.remove(name), other) == lookup(clients, other),
        !clients.contains_key(name) ==> clients.remove(name) == clients,
{
    if !clients.contains_key(name) {
        assert(clients.remove(name) =~= clients);
    }
}

/// Each entry is found under its own name.
proof fn lemma_entry_found<C>(s: Seq<Registration<C>>, i: int)
    requires
        distinct_ids(s),
        0 <= i < s.len(),
    ensures
        entries_map(s).contains_key(s[i].id@),
        entries_map(s)[s[i].id@] == s[i].client,
{
    let k = s[i].id@;
    let j = choose|j: int| 0 <= j < s.len() && s[j].id@ == k;
    assert(j == i);
}

/// A map of distinct entries has as many keys as there are entries.
proof fn lemma_entries_len<C>(s: Seq<Registration<C>>)
    requires
        distinct_ids(s),
    ensures
        entries_map(s).dom().finite(),
        entries_map(s).dom().len() == s.len(),
    decreases s.len(),
{
    if s.len() == 0 {
        assert(entries_map(s).dom() =~= Set::<Seq<char>>::empty());
    } else {
        let p = s.drop_last();
        let k = s.last().id@;
        lemma_entries_len(p);
        assert forall|q: Seq<char>|
            entries_map(s).dom().contains(q) <==> entries_map(p).dom().insert(k).contains(
                q,
            ) by {
            if entries_map(s).dom().contains(q) {
                let i = choose|i: int| 0 <= i < s.len() && s[i].id@ == q;
                if i < p.len() {
                    assert(p[i].id@ == q);
                }
            }
            if entries_map(p).dom().contains(q) {
                let i = choose|i: int| 0 <= i < p.len() && p[i].id@ == q;
                assert(s[i].id@ == q);
            }
            if q == k {
                assert(s[s.len() - 1].id@ == q);
            }
        }
        assert(entries_map(s).dom() =~= entries_map(p).dom().insert(k));
        if entries_map(p).dom().contains(k) {
            let i = choose|i: int| 0 <= i < p.len() && p[i].id@ == k;
            assert(s[i].id@ == s[s.len() - 1].id@);
        }
    }
}

impl<C> View for McpConnectionManager<C> {
    type V = Map<Seq<char>, Arc<C>>;

    /// The registered handles by name.
    closed spec fn view(&self) -> Map<Seq<char>, Arc<C>> {
        entries_map(self.clients@)
    }
}

impl<C> Default for McpConnectionManager<C> {
    /// An empty registry that allows provider operations no time at all.
    fn default() -> (r: Self)
        ensures
            r@ == Map::<Seq<char>, Arc<C>>::empty(),
            r.configured_timeout() == duration_of_secs(0),
    {
        McpConnectionManager::with_timeout(duration_from_secs(0))
    }
}

impl<C> McpConnectionManager<C> {
    #[verifier::type_invariant]
    spec fn well_formed(self) -> bool {
        distinct_ids(self.clients@)
    }

    /// The time allowed to each provider operation.
    pub closed spec fn configured_timeout(&self) -> Duration {
        self.timeout
    }

    /// An empty registry that allows each provider operation 30 seconds.
    pub fn new() -> (r: Self)
        ensures
            r@ == Map::<Seq<char>, Arc<C>>::empty(),
            r.configured_timeout() == duration_of_secs(30),
    {
        let r = McpConnectionManager { clients: Vec::new(), timeout: duration_from_secs(30) };
        assert(r@ =~= Map::<Seq<char>, Arc<C>>::empty());
        r
    }

    /// An empty registry that allows each provider operation `timeout`.
    pub fn with_timeout(timeout: Duration) -> (r: Self)
        ensures
            r@ == Map::<Seq<char>, Arc<C>>::empty(),
            r.configured_timeout() == timeout,
    {
        let r = McpConnectionManager { clients: Vec::new(), timeout };
        assert(r@ =~= Map::<Seq<char>, Arc<C>>::empty());
        r
    }

    /// The time allowed to each provider operation.
    pub fn timeout(&self) -> (r: Duration)
        ensures
            r == self.configured_timeout(),
    {
        self.timeout
    }

    /// Takes the entries out of the registry, which is left empty.
    fn take_entries(&mut self) -> (entries: Vec<Registration<C>>)
        ensures
            entries@ == old(self).clients@,
            distinct_ids(entries@),
            final(self).clients@.len() == 0,
            final(self).timeout == old(self).timeout,
    {
        proof {
            use_type_invariant(&*self);
        }
        let mut entries: Vec<Registration<C>> = Vec::new();
        std::mem::swap(&mut self.clients, &mut entries);
        entries
    }

    /// Records how a connection attempt under `id` ended. A handle that is
    /// ready is stored under `id`, in place of any handle that was there; a
    /// failed attempt is reported as a provider error and changes nothing.
    /// The error of an attempt that took too long says so; the error of any
    /// other failure carries the failure's own text.
    pub fn add_client(&mut self, id: String, attempt: ConnectionAttempt<C>) -> (r: Result<
        (),
        McpRigIntegrationError,
    >)
        ensures
            final(self)@ == after_attempt(old(self)@, id@, attempt),
            final(self).configured_timeout() == old(self).configured_timeout(),
            match attempt {
                ConnectionAttempt::Ready(_) => r is Ok,
                ConnectionAttempt::TimedOut => r matches Err(e) && e@ == timeout_failure_view(),
                _ => r matches Err(e) && e@ is McpError,
            },
    {
        match attempt {
            ConnectionAttempt::TransportFailed(e) => Err(
                McpRigIntegrationError::provider_failure(transport_error_text(&e)),
            ),
            ConnectionAttempt::InitializeFailed(e) => Err(McpRigIntegrationError::from(e)),
            ConnectionAttempt::TimedOut => Err(McpRigIntegrationError::timeout_failure()),
            ConnectionAttempt::Ready(handle) => {
                let mut entries = self.take_entries();
                store(&mut entries, id, handle);
                self.clients = entries;
                Ok(())
            },
        }
    }

    /// The handle registered under `id`, shared with the registry.
    pub fn get_client(&self, id: &str) -> (r: Option<Arc<C>>)
        ensures
            r == lookup(self@, id@),
    {
        proof {
            use_type_invariant(self);
        }
        match find(&self.clients, id) {
            Some(i) => {
                proof {
                    lemma_entry_found(self.clients@, i as int);
                }
                Some(share(&self.clients[i].client))
            },
            None => None,
        }
    }

    /// Drops the handle registered under `id`, and says whether there was one.
    pub fn remove_client(&mut self, id: &str) -> (r: bool)
        ensures
            r == old(self)@.contains_key(id@),
            final(self)@ == old(self)@.remove(id@),
            !r ==> final(self)@ == old(self)@,
            !final(self)@.contains_key(id@),
            final(self).configured_timeout() == old(self).configured_timeout(),
    {
        let mut entries = self.take_entries();
        let r = discard(&mut entries, id);
        self.clients = entries;
        assert(!r ==> old(self)@.remove(id@) =~= old(self)@);
        r
    }

    /// Whether a handle is registered under `id`.
    pub fn has_client(&self, id: &str) -> (r: bool)
        ensures
            r == self@.contains_key(id@),
    {
        proof {
            use_type_invariant(self);
        }
        find(&self.clients, id).is_some()
    }

    /// The registered names, each once, in no stated order.
    pub fn client_ids(&self) -> (r: Vec<String>)
        ensures
            names(r@).no_duplicates(),
            names(r@).to_set() == self@.dom(),
            r@.len() == self@.len(),
    {
        proof {
            use_type_invariant(self);
            lemma_entries_len(self.clients@);
        }
        let mut ids: Vec<String> = Vec::new();
        let mut i: usize = 0;
        while i < self.clients.len()
            invariant
                i <= self.clients.len(),
                ids@.len() == i,
                forall|j: int| 0 <= j < i ==> ids@[j]@ == self.clients@[j].id@,
            decreases self.clients.len() - i,
        {
            ids.push(self.clients[i].id.clone());
            i += 1;
        }
        proof {
            let s = self.clients@;
            let n = names(ids@);
            assert forall|q: Seq<char>| n.to_set().contains(q) <==> self@.dom().contains(q) by {
                if n.contains(q) {
                    let j = choose|j: int| 0 <= j < n.len() && n[j] == q;
                    assert(s[j].id@ == q);
                }
                if self@.dom().contains(q) {
                    let j = choose|j: int| 0 <= j < s.len() && s[j].id@ == q;
                    assert(n[j] == q);
                }
            }
            assert(n.to_set() =~= self@.dom());
        }
        ids
    }

    /// How many handles are registered.
    pub fn client_count(&self) -> (r: usize)
        ensures
            r == self@.len(),
    {
        proof {
            use_type_invariant(self);
            lemma_entries_len(self.clients@);
        }
        self.clients.len()
    }
}

/// The texts of a list of strings.
pub open spec fn names(ids: Seq<String>) -> Seq<Seq<char>> {
    ids.map_values(|id: String| id@)
}

/// Drops the entry named `id`, and says whether there was one.
fn discard<C>(entries: &mut Vec<Registration<C>>, id: &str) -> (r: bool)
    requires
        distinct_ids(old(entries)@),
    ensures
        distinct_ids(final(entries)@),
        r == entries_map(old(entries)@).contains_key(id@),
        entries_map(final(entries)@) == entries_map(old(entries)@).remove(id@),
{
    let ghost before = entries@;
    match find(entries, id) {
        Some(i) => {
            entries.remove(i);
            proof {
                let after = entries@;
                let at = i as int;
                assert(forall|j: int| 0 <= j < at ==> after[j] == before[j]);
                assert(forall|j: int| at <= j < after.len() ==> after[j] == before[j + 1]);
                assert(distinct_ids(after));
                assert forall|q: Seq<char>|
                    entries_map(after).contains_key(q) <==> entries_map(before).remove(
                        id@,
                    ).contains_key(q) by {
                    if entries_map(after).contains_key(q) {
                        let j = choose|j: int| 0 <= j < after.len() && after[j].id@ == q;
                        let k = if j < at {
                            j
                        } else {
                            j + 1
                        };
                        assert(before[k].id@ == q);
                    }
                    if entries_map(before).contains_key(q) && q != id@ {
                        let j = choose|j: int| 0 <= j < before.len() && before[j].id@ == q;
                        let k = if j < at {
                            j
                        } else {
                            j - 1
                        };
                        assert(after[k].id@ == q);
                    }
                }
                assert forall|q: Seq<char>| entries_map(after).contains_key(q) implies entries_map(
                    after,
                )[q] == entries_map(before).remove(id@)[q] by {
                    let j = choose|j: int| 0 <= j < after.len() && after[j].id@ == q;
                    let k = if j < at {
                        j
                    } else {
                        j + 1
                    };
                    lemma_entry_found(after, j);
                    assert(before[k].id@ == q);
                    lemma_entry_found(before, k);
                }
                assert(entries_map(after) =~= entries_map(before).remove(id@));
                assert(before[at].id@ == id@);
            }
            true
        },
        None => {
            assert(entries_map(before).remove(id@) =~= entries_map(before));
            false
        },
    }
}

/// Where the entry named `id` stands, if there is one.
fn find<C>(entries: &Vec<Registration<C>>, id: &str) -> (r: Option<usize>)
    ensures
        match r {
            Some(i) => i < entries.len() && entries[i as int].id@ == id@,
            None => forall|i: int| 0 <= i < entries.len() ==> entries[i].id@ != id@,
        },
{
    let key = id.to_owned();
    let mut i: usize = 0;
    while i < entries.len()
        invariant
            i <= entries.len(),
            key@ == id@,
            forall|j: int| 0 <= j < i ==> entries[j].id@ != id@,
        decreases entries.len() - i,
    {
        if entries[i].id == key {
            return Some(i);
        }
        i += 1;
    }
    None
}

/// Puts `handle` under `id`: in the entry of that name if there is one, in a
/// new entry otherwise.
fn store<C>(entries: &mut Vec<Registration<C>>, id: String, handle: Arc<C>)
    requires
        distinct_ids(old(entries)@),
    ensures
        distinct_ids(final(entries)@),
        entries_map(final(entries)@) == entries_map(old(entries)@).insert(id@, handle),
{
    let ghost before = entries@;
    let found = find(entries, id.as_str());
    let ghost at: int = match found {
        Some(i) => i as int,
        None => before.len() as int,
    };
    match found {
        Some(i) => {
            entries.set(i, Registration { id, client: handle });
        },
        None => {
            entries.push(Registration { id, client: handle });
        },
    }
    proof {
        let after = entries@;
        assert(after[at].id@ == id@ && after[at].client == handle);
        assert(forall|j: int| 0 <= j < before.len() && j != at ==> after[j] == before[j]);
        assert(distinct_ids(after));
        assert forall|q: Seq<char>|
            entries_map(after).contains_key(q) <==> entries_map(before).insert(
                id@,
                handle,
            ).contains_key(q) by {
            if entries_map(after).contains_key(q) {
                let j = choose|j: int| 0 <= j < after.len() && after[j].id@ == q;
                if j != at {
                    assert(before[j].id@ == q);
                }
            }
            if entries_map(before).contains_key(q) {
                let j = choose|j: int| 0 <= j < before.len() && before[j].id@ == q;
                assert(after[j].id@ == q);
            }
        }
        assert forall|q: Seq<char>| entries_map(after).contains_key(q) implies entries_map(
            after,
        )[q] == entries_map(before).insert(id@, handle)[q] by {
            let j = choose|j: int| 0 <= j < after.len() && after[j].id@ == q;
            lemma_entry_found(after, j);
            if j != at {
                assert(before[j].id@ == q);
                lemma_entry_found(before, j);
            }
        }
        assert(entries_map(after) =~= entries_map(before).insert(id@, handle));
    }
}

} // verus!
