//! A keyed store of the remote servers that steps can reach.
use std::collections::HashMap;
use vstd::prelude::*;

use crate::ids::{hyphenated, id_text};
use crate::protocol::same_text;
use crate::servers::{ServerError, ServerResult};

verus! {

/// The keys of `m`, each once, in no particular order.
pub(crate) fn key_list<V>(m: &HashMap<u128, V>) -> (r: Vec<u128>)
    ensures
        r@.to_set() == m@.dom(),
        r@.no_duplicates(),
{
    let mut out: Vec<u128> = Vec::new();
    for k in it: m.keys()
        invariant
            it.seq().unref().to_set() == m@.dom(),
            out@ == it.seq().unref().take(it.index() as int),
            it.seq().unref().no_duplicates(),
            it.index() == it.seq().len() ==> out@.to_set() == m@.dom(),
    {
        out.push(*k);
        assert(out@ =~= it.seq().unref().take(it.index() + 1));
        assert(it.index() + 1 == it.seq().len() ==> out@ =~= it.seq().unref());
    }
    assert(out@.no_duplicates());
    out
}

/// A registered server.
#[derive(Debug, Clone)]
pub struct ServerInfo {
    /// The server's id.
    pub id: u128,
    /// Its name.
    pub name: String,
    /// Its kind.
    pub server_type: String,
    /// Where it is reached.
    pub uri: String,
    /// Whether it is active.
    pub active: bool,
    /// Further attributes.
    pub metadata: HashMap<String, String>,
}

/// `a` and `b` describe the same server in the same way.
pub open spec fn same_info(a: ServerInfo, b: ServerInfo) -> bool {
    &&& a.id == b.id
    &&& a.name == b.name
    &&& a.server_type == b.server_type
    &&& a.uri == b.uri
    &&& a.active == b.active
    &&& a.metadata@ == b.metadata@
}

/// `a` and `b` list the same servers in the same order.
pub open spec fn same_infos(a: Seq<ServerInfo>, b: Seq<ServerInfo>) -> bool {
    a.len() == b.len() && forall|k: int| 0 <= k < a.len() ==> same_info(#[trigger] a[k], b[k])
}

/// The servers of `s` whose kind is `t`, in order.
pub open spec fn of_type(s: Seq<ServerInfo>, t: Seq<char>) -> Seq<ServerInfo>
    decreases s.len(),
{
    if s.len() == 0 {
        Seq::empty()
    } else if s.last().server_type@ == t {
        of_type(s.drop_last(), t).push(s.last())
    } else {
        of_type(s.drop_last(), t)
    }
}

impl ServerInfo {
    /// A copy of the record.
    pub fn duplicate(&self) -> (r: ServerInfo)
        ensures
            same_info(r, *self),
    {
        ServerInfo {
            id: self.id,
            name: self.name.clone(),
            server_type: self.server_type.clone(),
            uri: self.uri.clone(),
            active: self.active,
            metadata: self.metadata.clone(),
        }
    }
}

/// The registered servers, by id.
#[derive(Debug)]
pub struct ServerRegistry {
    servers: HashMap<u128, ServerInfo>,
}

/// The servers of `m` at `ids`, in that order.
pub open spec fn listed(m: Map<u128, ServerInfo>, ids: Seq<u128>) -> Seq<ServerInfo> {
    ids.map_values(|id: u128| m[id])
}

/// `ids` lists every key of `m` once.
pub open spec fn lists_keys(m: Map<u128, ServerInfo>, ids: Seq<u128>) -> bool {
    ids.no_duplicates() && ids.to_set() == m.dom()
}

impl ServerRegistry {
    /// The registered servers, by id.
    pub closed spec fn entries(&self) -> Map<u128, ServerInfo> {
        self.servers@
    }

    /// Each server is registered under its own id.
    pub open spec fn wf(&self) -> bool {
        forall|id: u128| #[trigger] self.entries().contains_key(id) ==> self.entries()[id].id == id
    }

    /// An empty registry.
    pub fn new() -> (r: ServerRegistry)
        ensures
            r.wf(),
            r.entries().is_empty(),
    {
        ServerRegistry { servers: HashMap::new() }
    }

    /// Registers `info`, replacing the server with the same id if there is one.
    pub fn register_server(&mut self, info: ServerInfo) -> (r: ServerResult<()>)
        requires
            old(self).wf(),
        ensures
            final(self).wf(),
            r is Ok,
            final(self).entries() == old(self).entries().insert(info.id, info),
    {
        let id = info.id;
        self.servers.insert(id, info);
        proof {
            assert forall|k: u128| #[trigger] self.entries().contains_key(k) implies self.entries()[k].id == k by {
                if k != id {
                    assert(old(self).entries().contains_key(k));
                }
            }
        }
        Ok(())
    }

    /// Removes the server with id `id`, if there is one.
    pub fn unregister_server(&mut self, id: u128) -> (r: ServerResult<()>)
        requires
            old(self).wf(),
        ensures
            final(self).wf(),
            r is Ok,
            final(self).entries() == old(self).entries().remove(id),
    {
        self.servers.remove(&id);
        proof {
            assert forall|k: u128| #[trigger] self.entries().contains_key(k) implies self.entries()[k].id == k by {
                assert(old(self).entries().contains_key(k));
            }
        }
        Ok(())
    }

    /// A copy of the server with id `id`, if there is one.
    pub fn get_server(&self, id: u128) -> (r: ServerResult<Option<ServerInfo>>)
        ensures
            r matches Ok(found) && (found is None <==> !self.entries().contains_key(id)),
            r matches Ok(Some(s)) ==> same_info(s, self.entries()[id]),
    {
        match self.servers.get(&id) {
            Some(s) => Ok(Some(s.duplicate())),
            None => Ok(None),
        }
    }

    /// Copies of all registered servers, each once, in no particular order.
    pub fn get_all_servers(&self) -> (r: ServerResult<Vec<ServerInfo>>)
        ensures
            r matches Ok(v) && exists|ids: Seq<u128>|
                lists_keys(self.entries(), ids) && same_infos(v@, listed(self.entries(), ids)),
    {
        let ids = key_list(&self.servers);
        let mut v: Vec<ServerInfo> = Vec::new();
        let mut i: usize = 0;
        while i < ids.len()
            invariant
                i <= ids@.len(),
                ids@.to_set() == self.entries().dom(),
                same_infos(v@, listed(self.entries(), ids@.subrange(0, i as int))),
            decreases ids@.len() - i,
        {
            assert(ids@.to_set().contains(ids@[i as int]));
            match self.servers.get(&ids[i]) {
                Some(s) => {
                    v.push(s.duplicate());
                },
                None => vstd::pervasive::unreached(),
            }
            i = i + 1;
        }
        assert(ids@.subrange(0, ids@.len() as int) == ids@);
        assert(lists_keys(self.entries(), ids@) && same_infos(v@, listed(self.entries(), ids@)));
        Ok(v)
    }

    /// Copies of the registered servers of kind `server_type`, each once, in
    /// no particular order.
    pub fn get_servers_by_type(&self, server_type: &str) -> (r: ServerResult<Vec<ServerInfo>>)
        ensures
            r matches Ok(v) && exists|ids: Seq<u128>|
                lists_keys(self.entries(), ids) && same_infos(
                    v@,
                    of_type(listed(self.entries(), ids), server_type@),
                ),
    {
        let ids = key_list(&self.servers);
        let mut v: Vec<ServerInfo> = Vec::new();
        let mut i: usize = 0;
        while i < ids.len()
            invariant
                i <= ids@.len(),
                ids@.to_set() == self.entries().dom(),
                same_infos(v@, of_type(listed(self.entries(), ids@.subrange(0, i as int)), server_type@)),
            decreases ids@.len() - i,
        {
            let ghost pre = listed(self.entries(), ids@.subrange(0, i as int));
            let ghost next = listed(self.entries(), ids@.subrange(0, i + 1));
            assert(next.drop_last() =~= pre);
            assert(next.last() == self.entries()[ids@[i as int]]);
            assert(ids@.to_set().contains(ids@[i as int]));
            match self.servers.get(&ids[i]) {
                Some(s) => {
                    if same_text(s.server_type.as_str(), server_type) {
                        v.push(s.duplicate());
                    }
                },
                None => vstd::pervasive::unreached(),
            }
            i = i + 1;
        }
        assert(ids@.subrange(0, ids@.len() as int) == ids@);
        assert(lists_keys(self.entries(), ids@) && same_infos(
            v@,
            of_type(listed(self.entries(), ids@), server_type@),
        ));
        Ok(v)
    }

    /// A copy of a registered server named `name`, if there is one.
    pub fn find_server_by_name(&self, name: &str) -> (r: ServerResult<Option<ServerInfo>>)
        ensures
            r matches Ok(found) && (found is None <==> forall|id: u128|
                #[trigger] self.entries().contains_key(id) ==> self.entries()[id].name@ != name@),
            r matches Ok(Some(s)) ==> exists|id: u128|
                self.entries().contains_key(id) && self.entries()[id].name@ == name@ && same_info(
                    s,
                    self.entries()[id],
                ),
    {
        let ids = key_list(&self.servers);
        let mut i: usize = 0;
        while i < ids.len()
            invariant
                i <= ids@.len(),
                ids@.to_set() == self.entries().dom(),
                forall|j: int| 0 <= j < i ==> self.entries()[#[trigger] ids@[j]].name@ != name@,
            decreases ids@.len() - i,
        {
            assert(ids@.to_set().contains(ids@[i as int]));
            match self.servers.get(&ids[i]) {
                Some(s) => {
                    if same_text(s.name.as_str(), name) {
                        return Ok(Some(s.duplicate()));
                    }
                },
                None => vstd::pervasive::unreached(),
            }
            i = i + 1;
        }
        proof {
            assert forall|id: u128| #[trigger] self.entries().contains_key(id) implies self.entries()[id].name@ != name@ by {
                assert(ids@.to_set().contains(id));
                let j = choose|j: int| 0 <= j < ids@.len() && ids@[j] == id;
            }
        }
        Ok(None)
    }

    /// Sets whether the server with id `id` is active. Fails with
    /// `ServerNotFound`, carrying the id's text, if there is no such server.
    fn set_active(&mut self, id: u128, active: bool) -> (r: ServerResult<()>)
        requires
            old(self).wf(),
        ensures
            final(self).wf(),
            r is Ok <==> old(self).entries().contains_key(id),
            r matches Err(e) ==> e matches ServerError::ServerNotFound(s) && s@ == hyphenated(id)
                && final(self).entries() == old(self).entries(),
            r is Ok ==> final(self).entries() == old(self).entries().insert(
                id,
                ServerInfo { active, ..old(self).entries()[id] },
            ),
    {
        match self.servers.remove(&id) {
            Some(s) => {
                assert(old(self).entries().contains_key(id));
                let mut s = s;
                assert(s.id == id);
                s.active = active;
                self.servers.insert(id, s);
                proof {
                    assert(self.entries() =~= old(self).entries().insert(
                        id,
                        ServerInfo { active, ..old(self).entries()[id] },
                    ));
                    assert forall|k: u128| #[trigger] self.entries().contains_key(k) implies self.entries()[k].id == k by {
                        assert(old(self).entries().contains_key(k));
                    }
                }
                Ok(())
            },
            None => {
                assert(self.entries() =~= old(self).entries());
                Err(ServerError::ServerNotFound(id_text(id)))
            },
        }
    }

    /// Marks the server with id `id` active. Fails with `ServerNotFound`,
    /// carrying the id's text, if there is no such server.
    pub fn activate_server(&mut self, id: u128) -> (r: ServerResult<()>)
        requires
            old(self).wf(),
        ensures
            final(self).wf(),
            r is Ok <==> old(self).entries().contains_key(id),
            r matches Err(e) ==> e matches ServerError::ServerNotFound(s) && s@ == hyphenated(id)
                && final(self).entries() == old(self).entries(),
            r is Ok ==> final(self).entries() == old(self).entries().insert(
                id,
                ServerInfo { active: true, ..old(self).entries()[id] },
            ),
    {
        self.set_active(id, true)
    }

    /// Marks the server with id `id` inactive. Fails with `ServerNotFound`,
    /// carrying the id's text, if there is no such server.
    pub fn deactivate_server(&mut self, id: u128) -> (r: ServerResult<()>)
        requires
            old(self).wf(),
        ensures
            final(self).wf(),
            r is Ok <==> old(self).entries().contains_key(id),
            r matches Err(e) ==> e matches ServerError::ServerNotFound(s) && s@ == hyphenated(id)
                && final(self).entries() == old(self).entries(),
            r is Ok ==> final(self).entries() == old(self).entries().insert(
                id,
                ServerInfo { active: false, ..old(self).entries()[id] },
            ),
    {
        self.set_active(id, false)
    }
}

impl Default for ServerRegistry {
    fn default() -> (r: ServerRegistry)
        ensures
            r.wf(),
            r.entries().is_empty(),
    {
        ServerRegistry::new()
    }
}

} // verus!
