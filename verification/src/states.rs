//! Workspace states and their token-gated registry.
//!
//! A `State` owns one extensions manager, one file store for the built-in
//! file operations, a data slot and a persistence strategy.  The
//! `StatesList` is the multi-tenancy boundary: a caller presenting a
//! token reaches exactly the states that token's grant covers, and every
//! other lookup fails closed with `Unauthorized` — never with a wrong
//! state.

use vstd::prelude::*;

use crate::extensions_manager::ExtensionsManager;
use crate::extensions_manager::ExtensionsManagerView;
use crate::memory_fs::MemoryFs;

verus! {

/// The one way an authorization fails.
#[derive(Clone, Copy, PartialEq, Eq, Structural, Debug)]
pub enum AuthError {
    /// The token is unknown, or its grant does not cover the state.
    Unauthorized,
}

/// The one way the in-memory persistor fails.
#[derive(Clone, Copy, PartialEq, Eq, Structural, Debug)]
pub enum PersistError {
    /// Nothing was ever saved.
    NothingStored,
}

/// A memory-backed persistence strategy: holds the last settings saved.
pub struct MemoryPersistor {
    pub stored: Option<String>,
}

impl MemoryPersistor {
    /// What is held: the last settings saved, if any.
    pub open spec fn view(self) -> Option<Seq<char>> {
        match self.stored {
            Some(s) => Some(s@),
            None => None,
        }
    }

    /// A persistor holding nothing.
    pub fn new() -> (r: MemoryPersistor)
        ensures
            r@ is None,
    {
        MemoryPersistor { stored: None }
    }

    /// Saves the settings; in memory this cannot fail.
    pub fn save(&mut self, settings: &String) -> (r: Result<(), PersistError>)
        ensures
            r is Ok,
            final(self)@ == Some(settings@),
    {
        self.stored = Some(settings.clone());
        Ok(())
    }

    /// A copy of the last settings saved, or the one error kind when
    /// nothing ever was.
    pub fn load(&self) -> (r: Result<String, PersistError>)
        ensures
            self@ matches Some(s) ==> r matches Ok(c) && c@ == s,
            self@ is None ==> r == Err::<String, _>(PersistError::NothingStored),
    {
        match &self.stored {
            Some(s) => Ok(s.clone()),
            None => Err(PersistError::NothingStored),
        }
    }
}

/// What a token grants: every state, or a named subset of state ids.
pub enum TokenFlags {
    /// The token reaches every registered state.
    All(String),
    /// The token reaches exactly the listed state ids.
    Subset(String, Vec<u8>),
}

/// Mathematical image of a `TokenFlags`.
pub enum TokenFlagsView {
    All(Seq<char>),
    Subset(Seq<char>, Seq<u8>),
}

impl View for TokenFlags {
    type V = TokenFlagsView;

    open spec fn view(&self) -> TokenFlagsView {
        match self {
            TokenFlags::All(t) => TokenFlagsView::All(t@),
            TokenFlags::Subset(t, ids) => TokenFlagsView::Subset(t@, ids@),
        }
    }
}

impl TokenFlagsView {
    /// The token string of the grant.
    pub open spec fn token(self) -> Seq<char> {
        match self {
            TokenFlagsView::All(t) => t,
            TokenFlagsView::Subset(t, _) => t,
        }
    }

    /// Whether this grant lets `token` reach `state_id`.
    pub open spec fn grants(self, token: Seq<char>, state_id: u8) -> bool {
        match self {
            TokenFlagsView::All(t) => t == token,
            TokenFlagsView::Subset(t, ids) => t == token && ids.contains(state_id),
        }
    }
}

/// One workspace: its id, its extensions, its file store, its data slot
/// and its persistence strategy, bound together for the process
/// lifetime.
pub struct State {
    pub id: u8,
    pub extensions_manager: ExtensionsManager,
    pub fs: MemoryFs,
    pub data: String,
    pub persistor: MemoryPersistor,
}

/// Mathematical image of a `State`.
pub struct StateView {
    pub id: u8,
    pub extensions_manager: ExtensionsManagerView,
    pub fs: Seq<(Seq<char>, Seq<char>)>,
    pub data: Seq<char>,
    pub persisted: Option<Seq<char>>,
}

impl View for State {
    type V = StateView;

    open spec fn view(&self) -> StateView {
        StateView {
            id: self.id,
            extensions_manager: self.extensions_manager@,
            fs: self.fs@,
            data: self.data@,
            persisted: self.persistor@,
        }
    }
}

impl State {
    /// A state is sound when its file store is: one entry per path.
    pub open spec fn wf(self) -> bool {
        self.fs.wf()
    }

    /// Binds an id, an extensions manager and a persistence strategy
    /// into one workspace, with nothing stored and an empty data slot.
    pub fn new(id: u8, extensions_manager: ExtensionsManager, persistor: MemoryPersistor) -> (r:
        State)
        ensures
            r.wf(),
            r@.id == id,
            r@.extensions_manager == extensions_manager@,
            r@.fs == Seq::<(Seq<char>, Seq<char>)>::empty(),
            r@.data == Seq::<char>::empty(),
            r@.persisted == persistor@,
    {
        State { id, extensions_manager, fs: MemoryFs::new(), data: String::new(), persistor }
    }
}

impl Default for State {
    /// The empty workspace under id zero, used by harnesses and
    /// synthetic callers.
    fn default() -> (r: State)
        ensures
            r.wf(),
            r@.id == 0,
            r@.extensions_manager.extensions == Seq::<
                crate::extensions_manager::LoadedExtensionView,
            >::empty(),
            r@.data == Seq::<char>::empty(),
    {
        State::new(0, ExtensionsManager::new(), MemoryPersistor::new())
    }
}

/// The registry: the ordered states, and the token grants, both fixed at
/// construction.
pub struct StatesList {
    pub states: Vec<State>,
    pub tokens: Vec<TokenFlags>,
}

/// Mathematical image of a `StatesList`.
pub struct StatesListView {
    pub states: Seq<StateView>,
    pub tokens: Seq<TokenFlagsView>,
}

impl View for StatesList {
    type V = StatesListView;

    open spec fn view(&self) -> StatesListView {
        StatesListView {
            states: self.states@.map_values(|s: State| s@),
            tokens: self.tokens@.map_values(|t: TokenFlags| t@),
        }
    }
}

impl StatesListView {
    /// Whether some grant lets the token reach the state id.
    pub open spec fn grants(self, token: Seq<char>, state_id: u8) -> bool {
        exists|i: int|
            0 <= i < self.tokens.len() && (#[trigger] self.tokens[i]).grants(token, state_id)
    }

    /// Whether a state with the id is registered.
    pub open spec fn has_state(self, state_id: u8) -> bool {
        exists|i: int| 0 <= i < self.states.len() && (#[trigger] self.states[i]).id == state_id
    }

    /// The position of the state with the id.
    pub open spec fn state_index(self, state_id: u8) -> int {
        choose|i: int| 0 <= i < self.states.len() && (#[trigger] self.states[i]).id == state_id
    }
}

impl StatesList {
    /// One id, one state; and every state's store is sound.
    pub open spec fn wf(self) -> bool {
        &&& forall|i: int, j: int|
            0 <= i < self@.states.len() && 0 <= j < self@.states.len() && i != j ==> (
            #[trigger] self@.states[i]).id != (#[trigger] self@.states[j]).id
        &&& forall|i: int|
            0 <= i < self.states@.len() ==> (#[trigger] self.states@[i]).wf()
    }

    /// An empty registry: no states, no grants — nothing resolves.
    pub fn new() -> (r: StatesList)
        ensures
            r.wf(),
            r@.states == Seq::<StateView>::empty(),
            r@.tokens == Seq::<TokenFlagsView>::empty(),
    {
        let r = StatesList { states: Vec::new(), tokens: Vec::new() };
        proof {
            assert(r@.states =~= Seq::<StateView>::empty());
            assert(r@.tokens =~= Seq::<TokenFlagsView>::empty());
        }
        r
    }

    /// The registry with its token grants set.
    pub fn with_tokens(self, tokens: Vec<TokenFlags>) -> (r: StatesList)
        requires
            self.wf(),
        ensures
            r.wf(),
            r@.states == self@.states,
            r@.tokens == tokens@.map_values(|t: TokenFlags| t@),
    {
        StatesList { states: self.states, tokens }
    }

    /// The registry with one more state.  Ids stay unique: the new
    /// state's id must not be registered yet.
    pub fn with_state(self, state: State) -> (r: StatesList)
        requires
            self.wf(),
            state.wf(),
            !self@.has_state(state@.id),
        ensures
            r.wf(),
            r@.states == self@.states.push(state@),
            r@.tokens == self@.tokens,
    {
        let ghost pre = self@;
        let ghost sv = state@;
        let mut states = self.states;
        states.push(state);
        let r = StatesList { states, tokens: self.tokens };
        proof {
            assert(r@.states =~= pre.states.push(sv));
            let n = pre.states.len() as int;
            assert forall|i: int, j: int|
                0 <= i < r@.states.len() && 0 <= j < r@.states.len() && i != j implies (
            #[trigger] r@.states[i]).id != (#[trigger] r@.states[j]).id by {
                if i < n && j < n {
                } else if i == n {
                    assert(r@.states[j] == pre.states[j]);
                    assert(!(pre.states[j].id == sv.id));
                } else {
                    assert(r@.states[i] == pre.states[i]);
                    assert(!(pre.states[i].id == sv.id));
                }
            }
        }
        r
    }

    /// Whether one of `ids` is `x`.
    fn ids_contain(ids: &Vec<u8>, x: u8) -> (r: bool)
        ensures
            r == ids@.contains(x),
    {
        let mut i: usize = 0;
        while i < ids.len()
            invariant
                i <= ids@.len(),
                forall|j: int| 0 <= j < i ==> ids@[j] != x,
            decreases ids@.len() - i,
        {
            if ids[i] == x {
                return true;
            }
            i = i + 1;
        }
        proof {
            if ids@.contains(x) {
                let j = choose|j: int| 0 <= j < ids@.len() && ids@[j] == x;
                assert(ids@[j] != x);
            }
        }
        false
    }

    /// Whether some grant lets the token reach the state id.
    pub fn grants(&self, token: &String, state_id: u8) -> (r: bool)
        ensures
            r == self@.grants(token@, state_id),
    {
        let mut i: usize = 0;
        while i < self.tokens.len()
            invariant
                i <= self.tokens@.len(),
                forall|j: int| 0 <= j < i ==> !(#[trigger] self@.tokens[j]).grants(token@, state_id),
            decreases self.tokens@.len() - i,
        {
            let hit = match &self.tokens[i] {
                TokenFlags::All(t) => *t == *token,
                TokenFlags::Subset(t, ids) => *t == *token && Self::ids_contain(ids, state_id),
            };
            if hit {
                proof {
                    assert(self@.tokens[i as int].grants(token@, state_id));
                }
                return true;
            }
            i = i + 1;
        }
        false
    }

    /// The position of the state under the id, if one is registered.
    pub fn position_of(&self, state_id: u8) -> (r: Option<usize>)
        ensures
            r matches Some(i) ==> 0 <= i < self@.states.len() && self@.states[i as int].id
                == state_id,
            r is None ==> !self@.has_state(state_id),
    {
        let mut i: usize = 0;
        while i < self.states.len()
            invariant
                i <= self.states@.len(),
                forall|j: int| 0 <= j < i ==> (#[trigger] self@.states[j]).id != state_id,
            decreases self.states@.len() - i,
        {
            if self.states[i].id == state_id {
                return Some(i);
            }
            i = i + 1;
        }
        None
    }

    /// Resolves a token and a state id to the one registered state the
    /// token may reach.  Succeeds exactly when some grant covers the pair
    /// and the state is registered; everything else — unknown token,
    /// out-of-grant id, unregistered id — fails closed with
    /// `Unauthorized`, and no other state is ever handed out.
    pub fn resolve(&self, token: &String, state_id: u8) -> (r: Result<&State, AuthError>)
        requires
            self.wf(),
        ensures
            r is Ok <==> (self@.grants(token@, state_id) && self@.has_state(state_id)),
            r matches Ok(s) ==> s@.id == state_id && s@ == self@.states[self@.state_index(
                state_id,
            )],
            r is Err ==> r == Err::<&State, _>(AuthError::Unauthorized),
    {
        if !self.grants(token, state_id) {
            return Err(AuthError::Unauthorized);
        }
        match self.position_of(state_id) {
            Some(i) => {
                proof {
                    let j = self@.state_index(state_id);
                    assert(0 <= j < self@.states.len() && self@.states[j].id == state_id);
                    assert(j == i as int);
                }
                Ok(&self.states[i])
            },
            None => Err(AuthError::Unauthorized),
        }
    }
}

/// The multi-tenancy law, fail-closed side: a token that no grant names
/// reaches nothing — for every state id, resolution is refused.
pub proof fn lemma_unknown_token_denied(sl: StatesListView, token: Seq<char>, state_id: u8)
    requires
        forall|i: int| 0 <= i < sl.tokens.len() ==> (#[trigger] sl.tokens[i]).token() != token,
    ensures
        !sl.grants(token, state_id),
{
    if sl.grants(token, state_id) {
        let i = choose|i: int|
            0 <= i < sl.tokens.len() && (#[trigger] sl.tokens[i]).grants(token, state_id);
        assert(sl.tokens[i].token() == token);
    }
}

} // verus!
