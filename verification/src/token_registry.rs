//! A registry of token providers, keyed by text. A provider registered
//! under a key is handed out again for that key rather than created anew.

use vstd::prelude::*;
use crate::keyed::{Keyed, entry_index, entries_insert, entries_get, entry_keys, lemma_keyed_insert};

verus! {

/// `databricks_m2m:<client_id>`: the key of a Databricks machine-to-machine
/// provider.
pub open spec fn databricks_m2m_key_spec(client_id: Seq<char>) -> Seq<char> {
    "databricks_m2m:"@ + client_id
}

/// Token providers by key; a key occurs at most once.
pub struct TokenProviderRegistry<P> {
    pub providers: Keyed<P>,
}

impl<P> TokenProviderRegistry<P> {
    /// An empty registry.
    pub fn new() -> (res: Self)
        ensures
            res.providers.entries@.len() == 0,
    {
        TokenProviderRegistry { providers: Keyed::new() }
    }

    /// The key under which the Databricks machine-to-machine provider of a
    /// client is registered.
    pub fn databricks_m2m_key(client_id: &str) -> (res: String)
        ensures
            res@ == databricks_m2m_key_spec(client_id@),
    {
        let mut key = String::from_str("databricks_m2m:");
        key.append(client_id);
        key
    }

    /// The provider registered under `key`, if any.
    pub fn get(&self, key: &str) -> (res: Option<&P>)
        ensures
            entry_index(self.providers.keys(), key@) >= 0 ==> res == Some(
                &self.providers.entries@[entry_index(self.providers.keys(), key@)].1,
            ),
            entry_index(self.providers.keys(), key@) < 0 ==> res is None,
    {
        self.providers.get(key)
    }

    /// Registers `provider` under `key`, replacing a provider registered
    /// under that key before.
    pub fn insert(&mut self, key: String, provider: P)
        ensures
            final(self).providers.entries@ == entries_insert(old(self).providers.entries@, key, provider),
    {
        self.providers.insert(key, provider);
    }

    /// Registers the outcome of creating a provider for `key`: a created
    /// provider is registered under `key` and `Ok` returned; a failed
    /// creation leaves the registry as it was and returns its error.
    pub fn insert_created<E>(&mut self, key: String, created: Result<P, E>) -> (res: Result<(), E>)
        ensures
            match created {
                Ok(p) => res is Ok && final(self).providers.entries@ == entries_insert(
                    old(self).providers.entries@,
                    key,
                    p,
                ),
                Err(e) => res == Err::<(), E>(e) && final(self).providers.entries@
                    == old(self).providers.entries@,
            },
    {
        match created {
            Ok(p) => {
                self.providers.insert(key, p);
                Ok(())
            },
            Err(e) => Err(e),
        }
    }
}

/// What a get-or-create for `key` hands out, given registered providers
/// `r` and what creating a provider would give: the registered provider,
/// with nothing created, when there is one; otherwise the creation's
/// outcome.
pub open spec fn get_or_create_result<P, E>(r: Seq<(String, P)>, key: String, created: Result<P, E>) -> Result<P, E> {
    match entries_get(r, key@) {
        Some(p) => Ok(p),
        None => created,
    }
}

/// The registered providers after a get-or-create for `key`: unchanged when
/// a provider was registered or the creation failed; otherwise with the
/// created provider under `key`.
pub open spec fn get_or_create_entries<P, E>(r: Seq<(String, P)>, key: String, created: Result<P, E>) -> Seq<
    (String, P),
> {
    match entries_get(r, key@) {
        Some(_) => r,
        None => match created {
            Ok(p) => entries_insert(r, key, p),
            Err(_) => r,
        },
    }
}

/// Get-or-create hands out one provider per key: once a get-or-create for
/// a key has handed out a provider, every later one for that key hands out
/// that same provider, creates nothing and changes nothing, whatever a
/// creation would give. (A get-or-create is a `get` under the key, then,
/// when it finds nothing, `insert_created` with the creation's outcome; the
/// keys of a registry are unique, as `insert` keeps them.)
pub proof fn lemma_get_or_create_same_provider<P, E>(
    r: Seq<(String, P)>,
    key: String,
    first: Result<P, E>,
    later: Result<P, E>,
)
    requires
        entry_keys(r).no_duplicates(),
    ensures
        get_or_create_result(r, key, first) matches Ok(p) ==> {
            let after = get_or_create_entries(r, key, first);
            &&& get_or_create_result(after, key, later) == Ok::<P, E>(p)
            &&& get_or_create_entries(after, key, later) == after
        },
        entry_keys(get_or_create_entries(r, key, first)).no_duplicates(),
{
    match entries_get(r, key@) {
        Some(_) => {},
        None => match first {
            Ok(p) => {
                lemma_keyed_insert(r, key, p, key@);
            },
            Err(_) => {},
        },
    }
}

} // verus!
