//! The transport-independent dispatch step.
//!
//! The server owns the token-gated registry.  One step takes one inbound
//! message with the token its transport presented, resolves the target
//! state, executes a built-in against it or fans a capability message
//! out to its extensions, and packages the outcome as the one matching
//! response.  A bad message — unknown token, out-of-grant or unknown
//! state — is answered with an error-carrying response: the loop around
//! this step never has a reason to exit.

use vstd::prelude::*;

use crate::extensions_manager::ExtensionsManagerView;
use crate::extensions_manager::LoadedExtensionView;
use crate::extensions_manager::find_info;
use crate::memory_fs::fs_write_spec;
use crate::memory_fs::has_key;
use crate::memory_fs::list_dir_spec;
use crate::memory_fs::map_of;
use crate::memory_fs::lemma_list_dir_complete;
use crate::memory_fs::lemma_map_of_domain;
use crate::memory_fs::lemma_write_read;
use crate::messaging::ClientMessages;
use crate::messaging::ClientMessagesView;
use crate::messaging::Errors;
use crate::messaging::ServerMessages;
use crate::messaging::ServerMessagesView;
use crate::states::State;
use crate::states::StateView;
use crate::states::StatesList;

verus! {

/// How one message changes the state it addresses: a write replaces the
/// file under the path, a data update replaces and persists the slot, a
/// capability message is fanned out to every extension, and everything
/// else only reads.
pub open spec fn state_step(s: StateView, m: ClientMessagesView) -> StateView {
    if m.is_capability_message() {
        StateView {
            extensions_manager: ExtensionsManagerView {
                extensions: s.extensions_manager.extensions.map_values(
                    |e: LoadedExtensionView| e.notify_spec(m).0,
                ),
                ..s.extensions_manager
            },
            ..s
        }
    } else {
        match m {
            ClientMessagesView::SetState(_, d) => StateView { data: d, persisted: Some(d), ..s },
            ClientMessagesView::WriteFile(_, p, c) => StateView {
                fs: fs_write_spec(s.fs, p, c),
                ..s
            },
            _ => s,
        }
    }
}

/// The one response a message is owed, computed against the state as the
/// message found it.
pub open spec fn state_response(s: StateView, m: ClientMessagesView) -> ServerMessagesView {
    match m {
        ClientMessagesView::GetState(sid) => ServerMessagesView::StateData(sid, Ok(s.data)),
        ClientMessagesView::SetState(sid, _) => ServerMessagesView::StateUpdated(sid, Ok(())),
        ClientMessagesView::ListDir(sid, path, _) => ServerMessagesView::DirListed(
            sid,
            path,
            Ok(list_dir_spec(s.fs, path)),
        ),
        ClientMessagesView::ReadFile(sid, path, _) => ServerMessagesView::FileRead(
            sid,
            path,
            if has_key(s.fs, path) {
                Ok(map_of(s.fs)[path])
            } else {
                Err(Errors::FileNotFound)
            },
        ),
        ClientMessagesView::WriteFile(sid, path, _) => ServerMessagesView::FileWritten(
            sid,
            path,
            Ok(()),
        ),
        ClientMessagesView::GetExtensionInfo(sid, name) => ServerMessagesView::ExtensionInfo(
            sid,
            match find_info(s.extensions_manager.extensions, name) {
                Some(info) => Ok(info),
                None => Err(Errors::ExtensionNotFound),
            },
        ),
        ClientMessagesView::ListExtensions(sid) => ServerMessagesView::ExtensionList(
            sid,
            Ok(s.extensions_manager.extensions.map_values(|e: LoadedExtensionView| e.plugin.info)),
        ),
        _ => ServerMessagesView::MessageDispatched(m.state_id(), Ok(())),
    }
}

/// The error-carrying response of the kind the message is owed.
pub open spec fn error_response_spec(m: ClientMessagesView, e: Errors) -> ServerMessagesView {
    match m {
        ClientMessagesView::GetState(sid) => ServerMessagesView::StateData(sid, Err(e)),
        ClientMessagesView::SetState(sid, _) => ServerMessagesView::StateUpdated(sid, Err(e)),
        ClientMessagesView::ListDir(sid, path, _) => ServerMessagesView::DirListed(
            sid,
            path,
            Err(e),
        ),
        ClientMessagesView::ReadFile(sid, path, _) => ServerMessagesView::FileRead(
            sid,
            path,
            Err(e),
        ),
        ClientMessagesView::WriteFile(sid, path, _) => ServerMessagesView::FileWritten(
            sid,
            path,
            Err(e),
        ),
        ClientMessagesView::GetExtensionInfo(sid, _) => ServerMessagesView::ExtensionInfo(
            sid,
            Err(e),
        ),
        ClientMessagesView::ListExtensions(sid) => ServerMessagesView::ExtensionList(sid, Err(e)),
        _ => ServerMessagesView::MessageDispatched(m.state_id(), Err(e)),
    }
}

/// Builds the error-carrying response of the kind the message is owed.
pub fn error_response(msg: &ClientMessages, e: Errors) -> (r: ServerMessages)
    ensures
        r@ == error_response_spec(msg@, e),
{
    match msg {
        ClientMessages::GetState(sid) => ServerMessages::StateData(*sid, Err(e)),
        ClientMessages::SetState(sid, _) => ServerMessages::StateUpdated(*sid, Err(e)),
        ClientMessages::ListDir(sid, path, _) => ServerMessages::DirListed(
            *sid,
            path.clone(),
            Err(e),
        ),
        ClientMessages::ReadFile(sid, path, _) => ServerMessages::FileRead(
            *sid,
            path.clone(),
            Err(e),
        ),
        ClientMessages::WriteFile(sid, path, _) => ServerMessages::FileWritten(
            *sid,
            path.clone(),
            Err(e),
        ),
        ClientMessages::GetExtensionInfo(sid, _) => ServerMessages::ExtensionInfo(*sid, Err(e)),
        ClientMessages::ListExtensions(sid) => ServerMessages::ExtensionList(*sid, Err(e)),
        _ => ServerMessages::MessageDispatched(msg.state_id(), Err(e)),
    }
}

/// Executes one resolved message against its state: a built-in runs
/// directly, a capability message is fanned out via `notify`.
pub fn run_in_state(state: &mut State, msg: ClientMessages) -> (r: ServerMessages)
    requires
        old(state).wf(),
    ensures
        final(state).wf(),
        final(state)@ == state_step(old(state)@, msg@),
        r@ == state_response(old(state)@, msg@),
{
    if msg.is_capability() {
        let sid = msg.state_id();
        state.extensions_manager.fan_out_notify(&msg);
        return ServerMessages::MessageDispatched(sid, Ok(()));
    }
    match msg {
        ClientMessages::GetState(sid) => ServerMessages::StateData(sid, Ok(state.data.clone())),
        ClientMessages::SetState(sid, d) => {
            let _ = state.persistor.save(&d);
            state.data = d;
            ServerMessages::StateUpdated(sid, Ok(()))
        },
        ClientMessages::ListDir(sid, path, _) => {
            let listing = state.fs.list_dir(&path);
            ServerMessages::DirListed(sid, path, Ok(listing))
        },
        ClientMessages::ReadFile(sid, path, _) => {
            match state.fs.read_file(&path) {
                Some(content) => ServerMessages::FileRead(sid, path, Ok(content)),
                None => ServerMessages::FileRead(sid, path, Err(Errors::FileNotFound)),
            }
        },
        ClientMessages::WriteFile(sid, path, content) => {
            state.fs.write_file(path.clone(), content);
            ServerMessages::FileWritten(sid, path, Ok(()))
        },
        ClientMessages::GetExtensionInfo(sid, name) => {
            match state.extensions_manager.get_info_by_name(&name) {
                Some(info) => ServerMessages::ExtensionInfo(sid, Ok(info)),
                None => ServerMessages::ExtensionInfo(sid, Err(Errors::ExtensionNotFound)),
            }
        },
        ClientMessages::ListExtensions(sid) => {
            let infos = state.extensions_manager.list_infos();
            ServerMessages::ExtensionList(sid, Ok(infos))
        },
        _ => {
            // Unreachable: every remaining variant is a capability
            // message, handled above.
            let sid = msg.state_id();
            ServerMessages::MessageDispatched(sid, Ok(()))
        },
    }
}

/// The dispatch core: the registry of states, fixed at startup; the
/// transports around it hand messages in and carry responses back.
pub struct Server {
    pub states: StatesList,
}

impl Server {
    /// A server over a built registry.
    pub fn new(states: StatesList) -> (r: Server)
        ensures
            r.states == states,
    {
        Server { states }
    }

    /// One turn of the dispatch loop.  The token is checked first: an
    /// uncovered pair is answered `Unauthorized` and nothing moves; a
    /// covered pair whose state is not registered is answered
    /// `StateNotFound`.  A resolved message runs against exactly the
    /// state it addresses, and the answer is always of the one kind the
    /// request is owed, under the request's own state id.
    pub fn handle_message(&mut self, token: &String, msg: ClientMessages) -> (r: ServerMessages)
        requires
            old(self).states.wf(),
        ensures
            final(self).states.wf(),
            !old(self).states@.grants(token@, msg@.state_id()) ==> (final(self).states@ == old(
                self,
            ).states@ && r@ == error_response_spec(msg@, Errors::Unauthorized)),
            old(self).states@.grants(token@, msg@.state_id()) && !old(self).states@.has_state(
                msg@.state_id(),
            ) ==> (final(self).states@ == old(self).states@ && r@ == error_response_spec(
                msg@,
                Errors::StateNotFound,
            )),
            old(self).states@.grants(token@, msg@.state_id()) && old(self).states@.has_state(
                msg@.state_id(),
            ) ==> {
                let idx = old(self).states@.state_index(msg@.state_id());
                &&& final(self).states@.states == old(self).states@.states.update(
                    idx,
                    state_step(old(self).states@.states[idx], msg@),
                )
                &&& final(self).states@.tokens == old(self).states@.tokens
                &&& r@ == state_response(old(self).states@.states[idx], msg@)
            },
            r@.kind() == msg@.response_kind(),
            r@.state_id() == msg@.state_id(),
    {
        let sid = msg.state_id();
        if !self.states.grants(token, sid) {
            return error_response(&msg, Errors::Unauthorized);
        }
        match self.states.position_of(sid) {
            None => error_response(&msg, Errors::StateNotFound),
            Some(i) => {
                let ghost pre = self.states@;
                proof {
                    let j = pre.state_index(sid);
                    assert(0 <= j < pre.states.len() && pre.states[j].id == sid);
                    assert(j == i as int);
                }
                let mut st = self.states.states.remove(i);
                let r = run_in_state(&mut st, msg);
                self.states.states.insert(i, st);
                proof {
                    assert(self.states@.states =~= pre.states.update(
                        i as int,
                        state_step(pre.states[i as int], msg@),
                    ));
                    assert(self.states@.tokens =~= pre.tokens);
                    assert forall|a: int, b: int|
                        0 <= a < self.states@.states.len() && 0 <= b < self.states@.states.len()
                            && a != b implies (#[trigger] self.states@.states[a]).id != (
                    #[trigger] self.states@.states[b]).id by {
                        assert(self.states@.states[a].id == pre.states[a].id);
                        assert(self.states@.states[b].id == pre.states[b].id);
                    }
                }
                r
            },
        }
    }
}

/// The round-trip law, through the message protocol: against any sound
/// state, a write answered `Ok` followed by a read of the same path
/// yields exactly the bytes written, whatever payload slot the read
/// request carried.
pub proof fn lemma_write_read_roundtrip(
    s: StateView,
    sid: u8,
    sid2: u8,
    path: Seq<char>,
    content: Seq<char>,
    slot: Result<Seq<char>, Errors>,
)
    requires
        forall|a: int, b: int|
            0 <= a < s.fs.len() && 0 <= b < s.fs.len() && a != b ==> (#[trigger] s.fs[a]).0 != (
            #[trigger] s.fs[b]).0,
    ensures
        ({
            let written = state_step(s, ClientMessagesView::WriteFile(sid, path, content));
            &&& state_response(s, ClientMessagesView::WriteFile(sid, path, content))
                == ServerMessagesView::FileWritten(sid, path, Ok(()))
            &&& state_response(written, ClientMessagesView::ReadFile(sid2, path, slot))
                == ServerMessagesView::FileRead(sid2, path, Ok(content))
        }),
{
    let w = fs_write_spec(s.fs, path, content);
    lemma_write_read(s.fs, path, content);
    lemma_map_of_domain(w);
    assert(map_of(w).contains_key(path));
    assert(has_key(w, path));
    assert(map_of(w)[path] == content);
}

/// The listing law, through the message protocol: after a write, a
/// listing names a path exactly when the store already held it or it is
/// the path just written, and the path extends the listed directory —
/// creating files creates exactly those listing entries.
pub proof fn lemma_listing_after_write(
    s: StateView,
    sid: u8,
    dir: Seq<char>,
    path: Seq<char>,
    content: Seq<char>,
    p: Seq<char>,
)
    requires
        forall|a: int, b: int|
            0 <= a < s.fs.len() && 0 <= b < s.fs.len() && a != b ==> (#[trigger] s.fs[a]).0 != (
            #[trigger] s.fs[b]).0,
    ensures
        ({
            let written = state_step(s, ClientMessagesView::WriteFile(sid, path, content));
            let listing = list_dir_spec(written.fs, dir);
            (exists|j: int| 0 <= j < listing.len() && (#[trigger] listing[j]).path == p) <==> ((
            has_key(s.fs, p) || p == path) && dir.is_prefix_of(p))
        }),
{
    let w = fs_write_spec(s.fs, path, content);
    assert(state_step(s, ClientMessagesView::WriteFile(sid, path, content)).fs == w);
    lemma_list_dir_complete(w, dir, p);
    lemma_write_read(s.fs, path, content);
    lemma_map_of_domain(w);
    lemma_map_of_domain(s.fs);
    assert(has_key(w, p) <==> map_of(w).contains_key(p));
    assert(map_of(w) == map_of(s.fs).insert(path, content));
    assert(map_of(s.fs).insert(path, content).contains_key(p) <==> (p == path || map_of(
        s.fs,
    ).contains_key(p)));
    assert(has_key(s.fs, p) <==> map_of(s.fs).contains_key(p));
}

} // verus!
