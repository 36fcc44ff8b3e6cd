//! Registry of available connectors: an ordered list per contract, looked
//! up by id or defaulted to the first registered.
//!
//! Lookup scans in registration order and returns the first connector whose
//! id matches; a later registration under an already-taken id is therefore
//! never reachable by id.

use vstd::prelude::*;

use crate::text::str_eq;
use crate::traits::ConnectorInfo;

verus! {

/// The first connector of the list carrying the given id.
pub open spec fn spec_find<C: ConnectorInfo>(s: Seq<C>, id: Seq<char>) -> Option<C>
    decreases s.len(),
{
    if s.len() == 0 {
        Option::None
    } else if s[0].spec_connector_id() == id {
        Option::Some(s[0])
    } else {
        spec_find(s.drop_first(), id)
    }
}

/// Lookup ignores connectors before position `i` when none of them carries
/// the id.
pub proof fn lemma_find_skip<C: ConnectorInfo>(s: Seq<C>, id: Seq<char>, i: int)
    requires
        0 <= i <= s.len(),
        forall|j: int| 0 <= j < i ==> s[j].spec_connector_id() != id,
    ensures
        spec_find(s, id) == spec_find(s.skip(i), id),
    decreases i,
{
    if i > 0 {
        assert(s.drop_first().skip(i - 1) =~= s.skip(i));
        lemma_find_skip(s.drop_first(), id, i - 1);
    } else {
        assert(s.skip(0) =~= s);
    }
}

/// No connector of the list carries the id, so lookup fails.
pub proof fn lemma_find_absent<C: ConnectorInfo>(s: Seq<C>, id: Seq<char>)
    requires
        forall|j: int| 0 <= j < s.len() ==> s[j].spec_connector_id() != id,
    ensures
        spec_find(s, id) is None,
    decreases s.len(),
{
    if s.len() > 0 {
        lemma_find_absent(s.drop_first(), id);
    }
}

/// Registry of available connectors, one ordered list per contract.
pub struct ConnectorRegistry<S, H> {
    /// Storage connectors, in registration order.
    pub storage: Vec<S>,
    /// Hosting connectors, in registration order.
    pub hosting: Vec<H>,
}

impl<S: ConnectorInfo, H: ConnectorInfo> ConnectorRegistry<S, H> {
    /// Create an empty registry.
    pub fn new() -> (r: Self)
        ensures
            r.storage@.len() == 0,
            r.hosting@.len() == 0,
    {
        ConnectorRegistry { storage: Vec::new(), hosting: Vec::new() }
    }

    /// Register a storage connector at the end of the list.
    pub fn register_storage(&mut self, connector: S)
        ensures
            final(self).storage@ == old(self).storage@.push(connector),
            final(self).hosting@ == old(self).hosting@,
    {
        self.storage.push(connector);
    }

    /// Register a hosting connector at the end of the list.
    pub fn register_hosting(&mut self, connector: H)
        ensures
            final(self).hosting@ == old(self).hosting@.push(connector),
            final(self).storage@ == old(self).storage@,
    {
        self.hosting.push(connector);
    }

    /// All storage connectors, in registration order.
    pub fn storage_connectors(&self) -> (r: &Vec<S>)
        ensures
            r@ == self.storage@,
    {
        &self.storage
    }

    /// All hosting connectors, in registration order.
    pub fn hosting_connectors(&self) -> (r: &Vec<H>)
        ensures
            r@ == self.hosting@,
    {
        &self.hosting
    }

    /// The first storage connector carrying the id, or nothing.
    pub fn get_storage_connector(&self, connector_id: &str) -> (r: Option<&S>)
        ensures
            match r {
                Option::Some(c) => spec_find(self.storage@, connector_id@) == Option::Some(*c),
                Option::None => spec_find(self.storage@, connector_id@) is None,
            },
    {
        let n: usize = self.storage.len();
        let mut i: usize = 0;
        while i < n
            invariant
                i <= n,
                n == self.storage@.len(),
                forall|j: int|
                    0 <= j < i ==> self.storage@[j].spec_connector_id() != connector_id@,
            decreases n - i,
        {
            let id: String = self.storage[i].connector_id();
            if str_eq(id.as_str(), connector_id) {
                proof {
                    lemma_find_skip(self.storage@, connector_id@, i as int);
                    assert(self.storage@.skip(i as int)[0] == self.storage@[i as int]);
                }
                return Option::Some(&self.storage[i]);
            }
            i = i + 1;
        }
        proof {
            lemma_find_absent(self.storage@, connector_id@);
        }
        Option::None
    }

    /// The first hosting connector carrying the id, or nothing.
    pub fn get_hosting_connector(&self, connector_id: &str) -> (r: Option<&H>)
        ensures
            match r {
                Option::Some(c) => spec_find(self.hosting@, connector_id@) == Option::Some(*c),
                Option::None => spec_find(self.hosting@, connector_id@) is None,
            },
    {
        let n: usize = self.hosting.len();
        let mut i: usize = 0;
        while i < n
            invariant
                i <= n,
                n == self.hosting@.len(),
                forall|j: int|
                    0 <= j < i ==> self.hosting@[j].spec_connector_id() != connector_id@,
            decreases n - i,
        {
            let id: String = self.hosting[i].connector_id();
            if str_eq(id.as_str(), connector_id) {
                proof {
                    lemma_find_skip(self.hosting@, connector_id@, i as int);
                    assert(self.hosting@.skip(i as int)[0] == self.hosting@[i as int]);
                }
                return Option::Some(&self.hosting[i]);
            }
            i = i + 1;
        }
        proof {
            lemma_find_absent(self.hosting@, connector_id@);
        }
        Option::None
    }

    /// A storage connector: the one carrying the given id, or the first
    /// registered when no id is given, or nothing when the registry is
    /// empty or the id unknown.
    pub fn get_storage_connector_or_default(&self, connector_id: Option<&str>) -> (r: Option<&S>)
        ensures
            match connector_id {
                Option::Some(id) => match r {
                    Option::Some(c) => spec_find(self.storage@, id@) == Option::Some(*c),
                    Option::None => spec_find(self.storage@, id@) is None,
                },
                Option::None => match r {
                    Option::Some(c) => self.storage@.len() > 0 && *c == self.storage@[0],
                    Option::None => self.storage@.len() == 0,
                },
            },
    {
        match connector_id {
            Option::Some(id) => self.get_storage_connector(id),
            Option::None => {
                if self.storage.len() > 0 {
                    Option::Some(&self.storage[0])
                } else {
                    Option::None
                }
            },
        }
    }

    /// A hosting connector: the one carrying the given id, or the first
    /// registered when no id is given, or nothing when the registry is
    /// empty or the id unknown.
    pub fn get_hosting_connector_or_default(&self, connector_id: Option<&str>) -> (r: Option<&H>)
        ensures
            match connector_id {
                Option::Some(id) => match r {
                    Option::Some(c) => spec_find(self.hosting@, id@) == Option::Some(*c),
                    Option::None => spec_find(self.hosting@, id@) is None,
                },
                Option::None => match r {
                    Option::Some(c) => self.hosting@.len() > 0 && *c == self.hosting@[0],
                    Option::None => self.hosting@.len() == 0,
                },
            },
    {
        match connector_id {
            Option::Some(id) => self.get_hosting_connector(id),
            Option::None => {
                if self.hosting.len() > 0 {
                    Option::Some(&self.hosting[0])
                } else {
                    Option::None
                }
            },
        }
    }
}

} // verus!
