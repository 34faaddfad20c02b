//! The requests a client can make of the editor server, and its answers.

use std::collections::HashMap;

use uuid::Uuid;
use vstd::prelude::*;
use vstd::std_specs::iter::IteratorSpec;

use super::buffer::Buffer;

verus! {

broadcast use vstd::std_specs::hash::group_hash_axioms;

/// The server's answer to a request.
#[derive(Debug)]
pub enum Response {
    Empty,
    Integer(usize),
    List(Vec<HashMap<String, String>>),
    Error(&'static str),
}

/// The requests the server knows.
#[derive(Copy, Clone, Debug, PartialEq, Eq, Structural)]
pub enum RpcMethod {
    /// Create a buffer in the default workspace from a file path.
    CreateBuffer,
    /// List the workspaces and their buffers.
    ListWorkspaces,
}

/// The request a command name stands for.
pub open spec fn spec_rpc_method(command: Seq<char>) -> Option<RpcMethod> {
    if command == "create_buffer"@ {
        Some(RpcMethod::CreateBuffer)
    } else if command == "list_workspaces"@ {
        Some(RpcMethod::ListWorkspaces)
    } else {
        None
    }
}

/// The request a command name stands for; `None` for an unknown command.
pub fn rpc_method(command: &str) -> (r: Option<RpcMethod>)
    ensures
        r == spec_rpc_method(command@),
{
    let c = command.to_string();
    if c == "create_buffer".to_string() {
        Some(RpcMethod::CreateBuffer)
    } else if c == "list_workspaces".to_string() {
        Some(RpcMethod::ListWorkspaces)
    } else {
        None
    }
}

/// The answer to an unknown command.
pub fn unknown_command() -> (r: Response)
    ensures
        r matches Response::Error(m) && m@ == "Unknown command"@,
{
    Response::Error("Unknown command")
}

/// A fresh random id for a buffer (`Uuid::new_v4`, as its 128 bits). Nothing
/// is claimed of the value: it comes from a random number generator.
#[verifier::external_body]
fn new_buffer_id() -> (r: u128) {
    Uuid::new_v4().as_u128()
}

/// A workspace: its name, and its buffers, each under its id.
pub struct Workspace {
    pub name: String,
    pub buffers: HashMap<u128, Buffer>,
}

/// The text of an optional path.
pub open spec fn path_views(p: Option<String>) -> Option<Seq<char>> {
    match p {
        Some(s) => Some(s@),
        None => None,
    }
}

/// The id and file path of each buffer of `m`, once each, in the order the map
/// is walked.
pub open spec fn lists_buffers(m: Map<u128, Buffer>, l: Seq<(u128, Option<String>)>) -> bool {
    &&& l.len() == m.dom().len()
    &&& forall|k: int|
        0 <= k < l.len() ==> m.contains_key((#[trigger] l[k]).0) && path_views(l[k].1) == m[l[k].0].path_view()
    &&& forall|id: u128| #[trigger] m.contains_key(id) ==> exists|k: int| 0 <= k < l.len() && (#[trigger] l[k]).0 == id
}

/// A listed workspace: its name, and its buffers.
pub open spec fn listed(item: (String, Vec<(u128, Option<String>)>), ws: Workspace) -> bool {
    &&& item.0@ == ws.name@
    &&& lists_buffers(ws.buffers@, item.1@)
}

/// The id and file path of each buffer of `buffers`.
fn list_buffers(buffers: &HashMap<u128, Buffer>) -> (r: Vec<(u128, Option<String>)>)
    ensures
        lists_buffers(buffers@, r@),
{
    let mut list: Vec<(u128, Option<String>)> = Vec::new();
    let ghost m = buffers@;
    let ghost v = vstd::std_specs::hash::spec_hash_map_iter(buffers).remaining();
    for entry in it: buffers.iter()
        invariant
            m == buffers@,
            it.seq() == v,
            list@.len() == it.index(),
            forall|k: int|
                0 <= k < list@.len() ==> (#[trigger] list@[k]).0 == *v[k].0 && path_views(list@[k].1)
                    == (*v[k].1).path_view(),
    {
        let (id, b) = entry;
        list.push((*id, b.path()));
    }
    proof {
        assert(list@.len() == v.len());
        assert forall|id: u128| #[trigger] m.contains_key(id) implies exists|k: int|
            0 <= k < list@.len() && (#[trigger] list@[k]).0 == id by {
            assert(v.contains((&id, &m[id])));
            let k = choose|k: int| 0 <= k < v.len() && v[k] == (&id, &m[id]);
            assert(list@[k].0 == id);
        }
    }
    list
}

/// The workspaces of the editor server.
pub struct ServerApi {
    pub workspaces: Vec<Workspace>,
}

/// The name of the workspace new buffers go to.
pub open spec fn default_workspace() -> Seq<char> {
    "default"@
}

/// The place of the first workspace named `name`, if any.
pub open spec fn workspace_index(ws: Seq<Workspace>, name: Seq<char>) -> Option<int> {
    if exists|i: int| 0 <= i < ws.len() && #[trigger] ws[i].name@ == name {
        Some(choose|i: int| 0 <= i < ws.len() && #[trigger] ws[i].name@ == name && forall|j: int|
            0 <= j < i ==> ws[j].name@ != name)
    } else {
        None
    }
}

impl ServerApi {
    /// A server with one workspace, `default`, without buffers.
    pub fn new() -> (r: ServerApi)
        ensures
            r.workspaces@.len() == 1,
            r.workspaces@[0].name@ == default_workspace(),
            r.workspaces@[0].buffers@ == Map::<u128, Buffer>::empty(),
    {
        let mut workspaces: Vec<Workspace> = Vec::new();
        workspaces.push(Workspace { name: "default".to_string(), buffers: HashMap::new() });
        ServerApi { workspaces }
    }

    /// The place of the first workspace named `name`.
    fn find_workspace(&self, name: &str) -> (r: Option<usize>)
        ensures
            match r {
                Some(i) => i < self.workspaces@.len() && self.workspaces@[i as int].name@ == name@
                    && forall|j: int| 0 <= j < i ==> self.workspaces@[j].name@ != name@,
                None => forall|j: int|
                    0 <= j < self.workspaces@.len() ==> self.workspaces@[j].name@ != name@,
            },
    {
        let key = name.to_string();
        let mut i: usize = 0;
        while i < self.workspaces.len()
            invariant
                i <= self.workspaces@.len(),
                key@ == name@,
                forall|j: int| 0 <= j < i ==> self.workspaces@[j].name@ != name@,
            decreases self.workspaces@.len() - i,
        {
            if self.workspaces[i].name == key {
                return Some(i);
            }
            i = i + 1;
        }
        None
    }

    /// Creates a buffer in the default workspace, from the file at the path
    /// the request names: `buffer` is what was read from it, `None` when the
    /// request names no path. The buffer goes in under a fresh random id.
    pub fn create_buffer(&mut self, buffer: Option<Buffer>) -> (r: Response)
        ensures
            buffer is None ==> (r matches Response::Error(m) && m@ == "Could not create buffer"@)
                && final(self).workspaces@ == old(self).workspaces@,
            buffer is Some ==> match workspace_index(old(self).workspaces@, default_workspace()) {
                None => (r matches Response::Error(m) && m@ == "No workspace with that name"@)
                    && final(self).workspaces@ == old(self).workspaces@,
                Some(i) => r is Empty && final(self).workspaces@.len() == old(self).workspaces@.len()
                    && (forall|j: int|
                    0 <= j < old(self).workspaces@.len() && j != i ==> #[trigger] final(self).workspaces@[j]
                        == old(self).workspaces@[j]) && final(self).workspaces@[i].name
                    == old(self).workspaces@[i].name && exists|id: u128|
                    final(self).workspaces@[i].buffers@ == old(self).workspaces@[i].buffers@.insert(
                        id,
                        buffer->0,
                    ),
            },
    {
        match buffer {
            Some(b) => {
                match self.find_workspace("default") {
                    Some(i) => {
                        proof {
                            reveal_strlit("default");
                            assert(self.workspaces@[i as int].name@ == default_workspace());
                            assert(workspace_index(self.workspaces@, default_workspace()) == Some(i as int));
                        }
                        let id = new_buffer_id();
                        let mut ws = self.workspaces.remove(i);
                        ws.buffers.insert(id, b);
                        self.workspaces.insert(i, ws);
                        Response::Empty
                    },
                    None => {
                        proof {
                            reveal_strlit("default");
                        }
                        Response::Error("No workspace with that name")
                    },
                }
            },
            None => Response::Error("Could not create buffer"),
        }
    }

    /// The workspaces in order, each with its name and the id and file path
    /// of each of its buffers, in the order the map of buffers is walked.
    pub fn list_workspaces(&self) -> (r: Vec<(String, Vec<(u128, Option<String>)>)>)
        ensures
            r@.len() == self.workspaces@.len(),
            forall|i: int| 0 <= i < r@.len() ==> listed(#[trigger] r@[i], self.workspaces@[i]),
    {
        let mut items: Vec<(String, Vec<(u128, Option<String>)>)> = Vec::new();
        let mut i: usize = 0;
        while i < self.workspaces.len()
            invariant
                i <= self.workspaces@.len(),
                items@.len() == i,
                forall|a: int| 0 <= a < i ==> listed(#[trigger] items@[a], self.workspaces@[a]),
            decreases self.workspaces@.len() - i,
        {
            let ws = &self.workspaces[i];
            let list = list_buffers(&ws.buffers);
            items.push((ws.name.clone(), list));
            i = i + 1;
        }
        items
    }
}

} // verus!
