//! The protocol layer's registry of servers, keyed by id.
use vstd::prelude::*;

use std::collections::HashMap;

use crate::error::CoreError;
use crate::ids::{hyphenated, id_text};
use crate::registry::key_list;

verus! {

/// A server known to the protocol layer.
#[derive(Debug, Clone)]
pub struct ServerInfo {
    /// The server's id.
    pub id: u128,
    /// Its name.
    pub name: String,
    /// Its kind.
    pub server_type: String,
    /// Where it is reached.
    pub uri: String,
    /// Whether it is active.
    pub active: bool,
}

/// The message of the error for a missing server.
pub open spec fn not_found_message(id: u128) -> Seq<char> {
    "Server with ID "@ + hyphenated(id) + " not found"@
}

impl ServerInfo {
    /// A copy of the record.
    pub fn duplicate(&self) -> (r: ServerInfo)
        ensures
            r == *self,
    {
        ServerInfo {
            id: self.id,
            name: self.name.clone(),
            server_type: self.server_type.clone(),
            uri: self.uri.clone(),
            active: self.active,
        }
    }
}

/// The servers known to the protocol layer, by id.
#[derive(Debug)]
pub struct ServerRegistry {
    servers: HashMap<u128, ServerInfo>,
}

impl ServerRegistry {
    /// The registered servers, by id.
    pub closed spec fn entries(&self) -> Map<u128, ServerInfo> {
        self.servers@
    }

    /// Each server is registered under its own id.
    pub open spec fn wf(&self) -> bool {
        forall|id: u128| #[trigger] self.entries().contains_key(id) ==> self.entries()[id].id == id
    }

    /// An empty registry.
    pub fn new() -> (r: ServerRegistry)
        ensures
            r.wf(),
            r.entries().is_empty(),
    {
        ServerRegistry { servers: HashMap::new() }
    }

    /// Registers `info`, replacing the server with the same id if there is one.
    pub fn register_server(&mut self, info: ServerInfo) -> (r: Result<(), CoreError>)
        requires
            old(self).wf(),
        ensures
            final(self).wf(),
            r is Ok,
            final(self).entries() == old(self).entries().insert(info.id, info),
    {
        let id = info.id;
        self.servers.insert(id, info);
        proof {
            assert forall|k: u128| #[trigger] self.entries().contains_key(k) implies self.entries()[k].id == k by {
                if k != id {
                    assert(old(self).entries().contains_key(k));
                }
            }
        }
        Ok(())
    }

    /// Removes the server with id `id`, if there is one.
    pub fn unregister_server(&mut self, id: u128) -> (r: Result<(), CoreError>)
        requires
            old(self).wf(),
        ensures
            final(self).wf(),
            r is Ok,
            final(self).entries() == old(self).entries().remove(id),
    {
        self.servers.remove(&id);
        proof {
            assert forall|k: u128| #[trigger] self.entries().contains_key(k) implies self.entries()[k].id == k by {
                if k != id {
                    assert(old(self).entries().contains_key(k));
                }
            }
        }
        Ok(())
    }

    /// A copy of the server with id `id`, if there is one.
    pub fn get_server(&self, id: u128) -> (r: Option<ServerInfo>)
        ensures
            r is None <==> !self.entries().contains_key(id),
            r matches Some(s) ==> s == self.entries()[id],
    {
        match self.servers.get(&id) {
            Some(s) => Some(s.duplicate()),
            None => None,
        }
    }

    /// Copies of all registered servers, each once, in no particular order.
    pub fn get_all_servers(&self) -> (r: Vec<ServerInfo>)
        ensures
            exists|ids: Seq<u128>|
                ids.no_duplicates() && ids.to_set() == self.entries().dom() && r@ == ids.map_values(
                    |id: u128| self.entries()[id],
                ),
    {
        let ids = key_list(&self.servers);
        let mut v: Vec<ServerInfo> = Vec::new();
        let mut i: usize = 0;
        while i < ids.len()
            invariant
                i <= ids@.len(),
                ids@.to_set() == self.entries().dom(),
                v@ == ids@.subrange(0, i as int).map_values(|id: u128| self.entries()[id]),
            decreases ids@.len() - i,
        {
            assert(ids@.to_set().contains(ids@[i as int]));
            match self.servers.get(&ids[i]) {
                Some(s) => {
                    v.push(s.duplicate());
                },
                None => vstd::pervasive::unreached(),
            }
            assert(v@ =~= ids@.subrange(0, i + 1).map_values(|id: u128| self.entries()[id]));
            i = i + 1;
        }
        assert(ids@.subrange(0, ids@.len() as int) == ids@);
        v
    }

    fn set_active(&mut self, id: u128, active: bool) -> (r: Result<(), CoreError>)
        requires
            old(self).wf(),
        ensures
            final(self).wf(),
            r is Ok <==> old(self).entries().contains_key(id),
            r matches Err(e) ==> e matches CoreError::Other(m) && m@ == not_found_message(id)
                && final(self).entries() == old(self).entries(),
            r is Ok ==> final(self).entries() == old(self).entries().insert(
                id,
                ServerInfo { active, ..old(self).entries()[id] },
            ),
    {
        match self.servers.get(&id) {
            Some(s) => {
                assert(old(self).entries().contains_key(id));
                let mut s = s.duplicate();
                s.active = active;
                assert(s.id == id);
                self.servers.insert(id, s);
                proof {
                    assert forall|k: u128| #[trigger] self.entries().contains_key(k) implies self.entries()[k].id == k by {
                                if k != id {
                                    assert(old(self).entries().contains_key(k));
                                }
                    }
                }
                Ok(())
            },
            None => {
                let m = "Server with ID ".to_owned();
                let m = m.concat(id_text(id).as_str());
                let m = m.concat(" not found");
                Err(CoreError::Other(m))
            },
        }
    }

    /// Marks the server with id `id` active; an error names the id if there
    /// is no such server.
    pub fn activate_server(&mut self, id: u128) -> (r: Result<(), CoreError>)
        requires
            old(self).wf(),
        ensures
            final(self).wf(),
            r is Ok <==> old(self).entries().contains_key(id),
            r matches Err(e) ==> e matches CoreError::Other(m) && m@ == not_found_message(id)
                && final(self).entries() == old(self).entries(),
            r is Ok ==> final(self).entries() == old(self).entries().insert(
                id,
                ServerInfo { active: true, ..old(self).entries()[id] },
            ),
    {
        self.set_active(id, true)
    }

    /// Marks the server with id `id` inactive; an error names the id if
    /// there is no such server.
    pub fn deactivate_server(&mut self, id: u128) -> (r: Result<(), CoreError>)
        requires
            old(self).wf(),
        ensures
            final(self).wf(),
            r is Ok <==> old(self).entries().contains_key(id),
            r matches Err(e) ==> e matches CoreError::Other(m) && m@ == not_found_message(id)
                && final(self).entries() == old(self).entries(),
            r is Ok ==> final(self).entries() == old(self).entries().insert(
                id,
                ServerInfo { active: false, ..old(self).entries()[id] },
            ),
    {
        self.set_active(id, false)
    }
}

impl Default for ServerRegistry {
    fn default() -> (r: ServerRegistry)
        ensures
            r.wf(),
            r.entries().is_empty(),
    {
        ServerRegistry::new()
    }
}

} // verus!
