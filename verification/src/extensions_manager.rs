//! Loading, tracking and tearing down the extensions of one state.
//!
//! Extensions come in two trust levels behind one capability interface:
//! native extensions, built into the process by invoking an entry
//! function, and sandboxed extensions, each bound to a script running in
//! an isolated context.  Every lifecycle call — `init`, `notify`,
//! `unload` — is dispatched to the right variant without the caller
//! knowing which kind it holds.
//!
//! A loading failure is recorded, never propagated: one extension with a
//! bad descriptor must not keep the others from loading.

use vstd::prelude::*;

use crate::manifest::Manifest;
use crate::manifest::ManifestErrors;
use crate::manifest::ManifestInfo;
use crate::manifest::ManifestInfoView;
use crate::manifest::ManifestView;
use crate::manifest::manifest_spec;
use crate::messaging::ClientMessages;
use crate::messaging::ClientMessagesView;

verus! {

/// Where an extension stands in its life.  A failed load is recorded in
/// the manager's failure list and never reaches `Ready`.
#[derive(Clone, Copy, PartialEq, Eq, Structural, Debug)]
pub enum ExtensionStatus {
    /// Loaded but not yet given its shared-state handle.
    Loading,
    /// Initialized; `notify` calls are delivered.
    Ready,
    /// Graceful shutdown requested; nothing is delivered any more.
    Unloading,
    /// Torn down and observed as such; terminal.
    Terminated,
}

/// The capability object every extension exposes: its metadata, where it
/// stands, and the messages delivered to it so far (newest last).
pub struct ExtensionPlugin {
    pub info: ManifestInfo,
    pub status: ExtensionStatus,
    pub inbox: Vec<ClientMessages>,
}

/// Mathematical image of an `ExtensionPlugin`.
pub struct ExtensionPluginView {
    pub info: ManifestInfoView,
    pub status: ExtensionStatus,
    pub inbox: Seq<ClientMessagesView>,
}

impl View for ExtensionPlugin {
    type V = ExtensionPluginView;

    open spec fn view(&self) -> ExtensionPluginView {
        ExtensionPluginView {
            info: self.info@,
            status: self.status,
            inbox: self.inbox@.map_values(|m: ClientMessages| m@),
        }
    }
}

impl ExtensionPlugin {
    /// A freshly loaded capability object for the given metadata.
    pub fn new(info: ManifestInfo) -> (r: ExtensionPlugin)
        ensures
            r@.info == info@,
            r@.status == ExtensionStatus::Loading,
            r@.inbox == Seq::<ClientMessagesView>::empty(),
    {
        let r = ExtensionPlugin { info, status: ExtensionStatus::Loading, inbox: Vec::new() };
        proof {
            assert(r@.inbox =~= Seq::<ClientMessagesView>::empty());
        }
        r
    }
}

/// The two trust levels.
#[derive(Clone, Copy, PartialEq, Eq, Structural, Debug)]
pub enum ExtensionKind {
    /// Trusted, compiled into the host process.
    Native,
    /// Untrusted, bound to an isolated script context.
    Sandboxed,
}

/// One loaded extension, polymorphic over its trust level.
pub enum LoadedExtension {
    /// An in-process object implementing the capability interface.
    Native { plugin: ExtensionPlugin, state_id: u8 },
    /// A handle to an isolated script execution context: the capability
    /// object, the script it is bound to, and whether termination of the
    /// context has been signalled.
    ExtensionInstance {
        plugin: ExtensionPlugin,
        script_path: String,
        termination_requested: bool,
        state_id: u8,
    },
}

/// Mathematical image of a `LoadedExtension`.  A native extension has no
/// script and never requests termination of a context.
pub struct LoadedExtensionView {
    pub kind: ExtensionKind,
    pub plugin: ExtensionPluginView,
    pub script_path: Seq<char>,
    pub termination_requested: bool,
    pub state_id: u8,
}

impl View for LoadedExtension {
    type V = LoadedExtensionView;

    open spec fn view(&self) -> LoadedExtensionView {
        match self {
            LoadedExtension::Native { plugin, state_id } => LoadedExtensionView {
                kind: ExtensionKind::Native,
                plugin: plugin@,
                script_path: Seq::empty(),
                termination_requested: false,
                state_id: *state_id,
            },
            LoadedExtension::ExtensionInstance {
                plugin,
                script_path,
                termination_requested,
                state_id,
            } => LoadedExtensionView {
                kind: ExtensionKind::Sandboxed,
                plugin: plugin@,
                script_path: script_path@,
                termination_requested: *termination_requested,
                state_id: *state_id,
            },
        }
    }
}

impl LoadedExtensionView {
    /// `init` gives a loading extension its shared-state handle and
    /// makes it ready; anywhere else in its life the call changes
    /// nothing.
    pub open spec fn init_spec(self) -> LoadedExtensionView {
        if self.plugin.status == ExtensionStatus::Loading {
            LoadedExtensionView {
                plugin: ExtensionPluginView { status: ExtensionStatus::Ready, ..self.plugin },
                ..self
            }
        } else {
            self
        }
    }

    /// `notify` delivers exactly to a ready extension; a message to an
    /// extension in any other phase is rejected, never handed to a
    /// half-torn-down context.
    pub open spec fn notify_spec(self, m: ClientMessagesView) -> (LoadedExtensionView, bool) {
        if self.plugin.status == ExtensionStatus::Ready {
            (
                LoadedExtensionView {
                    plugin: ExtensionPluginView { inbox: self.plugin.inbox.push(m), ..self.plugin },
                    ..self
                },
                true,
            )
        } else {
            (self, false)
        }
    }

    /// `unload` tears the extension down: graceful shutdown is requested
    /// and, if the context does not exit by itself, termination is
    /// forced; the call reports only once `Terminated` is observed.
    pub open spec fn unload_spec(self) -> LoadedExtensionView {
        LoadedExtensionView {
            plugin: ExtensionPluginView { status: ExtensionStatus::Terminated, ..self.plugin },
            termination_requested: self.kind == ExtensionKind::Sandboxed,
            ..self
        }
    }
}

impl LoadedExtension {
    /// Gives the extension its handle to global shared state; called
    /// once after load.
    pub fn init(&mut self)
        ensures
            final(self)@ == old(self)@.init_spec(),
    {
        match self {
            LoadedExtension::Native { plugin, .. } => {
                if matches!(plugin.status, ExtensionStatus::Loading) {
                    plugin.status = ExtensionStatus::Ready;
                }
            },
            LoadedExtension::ExtensionInstance { plugin, .. } => {
                if matches!(plugin.status, ExtensionStatus::Loading) {
                    plugin.status = ExtensionStatus::Ready;
                }
            },
        }
    }

    /// Delivers one inbound message, and says whether it was delivered.
    pub fn notify(&mut self, msg: ClientMessages) -> (delivered: bool)
        ensures
            (final(self)@, delivered) == old(self)@.notify_spec(msg@),
    {
        let ghost mv = msg@;
        let delivered: bool;
        match self {
            LoadedExtension::Native { plugin, .. } => {
                if matches!(plugin.status, ExtensionStatus::Ready) {
                    plugin.inbox.push(msg);
                    delivered = true;
                } else {
                    delivered = false;
                }
            },
            LoadedExtension::ExtensionInstance { plugin, .. } => {
                if matches!(plugin.status, ExtensionStatus::Ready) {
                    plugin.inbox.push(msg);
                    delivered = true;
                } else {
                    delivered = false;
                }
            },
        }
        proof {
            if delivered {
                assert(self@.plugin.inbox =~= old(self)@.plugin.inbox.push(mv));
            }
        }
        delivered
    }

    /// Graceful teardown: a native extension is dropped in place, a
    /// sandboxed one has termination of its context signalled; either
    /// way the extension is `Terminated` when the call returns, and no
    /// later `notify` is delivered.
    pub fn unload(&mut self)
        ensures
            final(self)@ == old(self)@.unload_spec(),
    {
        match self {
            LoadedExtension::Native { plugin, .. } => {
                plugin.status = ExtensionStatus::Terminated;
            },
            LoadedExtension::ExtensionInstance { plugin, termination_requested, .. } => {
                *termination_requested = true;
                plugin.status = ExtensionStatus::Terminated;
            },
        }
    }

    /// Where the extension stands.
    pub fn status(&self) -> (r: ExtensionStatus)
        ensures
            r == self@.plugin.status,
    {
        match self {
            LoadedExtension::Native { plugin, .. } => plugin.status,
            LoadedExtension::ExtensionInstance { plugin, .. } => plugin.status,
        }
    }

    /// A copy of the extension's summary.
    pub fn info(&self) -> (r: ManifestInfo)
        ensures
            r@ == self@.plugin.info,
    {
        match self {
            LoadedExtension::Native { plugin, .. } => plugin.info.clone(),
            LoadedExtension::ExtensionInstance { plugin, .. } => plugin.info.clone(),
        }
    }
}

/// The lifecycle law: a freshly loaded extension that is initialized
/// reaches `Ready`; a ready extension has a `notify` delivered, and the
/// message lands in its inbox; `unload` drives it to `Terminated`, and
/// from then on no `notify` is delivered or observable.
pub proof fn lemma_extension_lifecycle(
    e: LoadedExtensionView,
    m: ClientMessagesView,
    m2: ClientMessagesView,
)
    requires
        e.plugin.status == ExtensionStatus::Loading,
    ensures
        ({
            let ready = e.init_spec();
            let notified = ready.notify_spec(m);
            let gone = notified.0.unload_spec();
            &&& ready.plugin.status == ExtensionStatus::Ready
            &&& notified.1 == true
            &&& notified.0.plugin.inbox == ready.plugin.inbox.push(m)
            &&& gone.plugin.status == ExtensionStatus::Terminated
            &&& gone.notify_spec(m2) == (gone, false)
        }),
{
}

/// One recorded load failure: the source that failed and why.
pub struct ExtensionLoadFailure {
    pub path: String,
    pub error: ManifestErrors,
}

/// Mathematical image of a recorded load failure.
pub struct ExtensionLoadFailureView {
    pub path: Seq<char>,
    pub error: ManifestErrors,
}

impl View for ExtensionLoadFailure {
    type V = ExtensionLoadFailureView;

    open spec fn view(&self) -> ExtensionLoadFailureView {
        ExtensionLoadFailureView { path: self.path@, error: self.error }
    }
}

/// One candidate sandboxed extension found under a directory: where it
/// lies, and its descriptor text as far as it could be read.  The
/// directory walk and the file reads are the host's; `None` stands for a
/// descriptor that did not resolve to a readable file.
pub struct ExtensionSource {
    pub path: String,
    pub manifest_text: Option<String>,
}

/// Mathematical image of an `ExtensionSource`.
pub struct ExtensionSourceView {
    pub path: Seq<char>,
    pub text: Option<Seq<char>>,
}

impl View for ExtensionSource {
    type V = ExtensionSourceView;

    open spec fn view(&self) -> ExtensionSourceView {
        ExtensionSourceView {
            path: self.path@,
            text: match self.manifest_text {
                Some(t) => Some(t@),
                None => None,
            },
        }
    }
}

/// The summary of a parsed descriptor.
pub open spec fn info_of(mv: ManifestView) -> ManifestInfoView {
    ManifestInfoView { name: mv.name, version: mv.version }
}

/// The image of a sandboxed extension the moment it is loaded.
pub open spec fn sandboxed_loading_view(
    info: ManifestInfoView,
    script_path: Seq<char>,
    state_id: u8,
) -> LoadedExtensionView {
    LoadedExtensionView {
        kind: ExtensionKind::Sandboxed,
        plugin: ExtensionPluginView {
            info,
            status: ExtensionStatus::Loading,
            inbox: Seq::empty(),
        },
        script_path,
        termination_requested: false,
        state_id,
    }
}

/// What loading one candidate yields: its parsed descriptor, or the one
/// error kind that felled it.
pub open spec fn load_outcome(text: Option<Seq<char>>) -> Result<ManifestView, ManifestErrors> {
    match text {
        None => Err(ManifestErrors::NotFound),
        Some(t) => match manifest_spec(t) {
            Some(mv) => Ok(mv),
            None => Err(ManifestErrors::CannotParse),
        },
    }
}

/// Loads, tracks and tears down the extensions of one state.  The
/// manager exclusively owns its sequence of loaded extensions.
pub struct ExtensionsManager {
    pub extensions: Vec<LoadedExtension>,
    pub load_failures: Vec<ExtensionLoadFailure>,
}

/// Mathematical image of an `ExtensionsManager`.
pub struct ExtensionsManagerView {
    pub extensions: Seq<LoadedExtensionView>,
    pub load_failures: Seq<ExtensionLoadFailureView>,
}

impl View for ExtensionsManager {
    type V = ExtensionsManagerView;

    open spec fn view(&self) -> ExtensionsManagerView {
        ExtensionsManagerView {
            extensions: self.extensions@.map_values(|e: LoadedExtension| e@),
            load_failures: self.load_failures@.map_values(|f: ExtensionLoadFailure| f@),
        }
    }
}

/// How one candidate changes the manager: a readable, well-formed
/// descriptor loads a sandboxed extension in `Loading`; anything else is
/// one recorded failure.  Never both, never neither.
pub open spec fn load_step(
    m: ExtensionsManagerView,
    src: ExtensionSourceView,
    state_id: u8,
) -> ExtensionsManagerView {
    match load_outcome(src.text) {
        Ok(mv) => ExtensionsManagerView {
            extensions: m.extensions.push(sandboxed_loading_view(info_of(mv), src.path, state_id)),
            ..m
        },
        Err(e) => ExtensionsManagerView {
            load_failures: m.load_failures.push(ExtensionLoadFailureView { path: src.path, error: e }),
            ..m
        },
    }
}

/// How a whole directory of candidates changes the manager, first
/// candidate first.
pub open spec fn directory_load_spec(
    m: ExtensionsManagerView,
    sources: Seq<ExtensionSourceView>,
    state_id: u8,
) -> ExtensionsManagerView
    decreases sources.len(),
{
    if sources.len() == 0 {
        m
    } else {
        directory_load_spec(load_step(m, sources[0], state_id), sources.skip(1), state_id)
    }
}

proof fn lemma_directory_load_snoc(
    m: ExtensionsManagerView,
    sources: Seq<ExtensionSourceView>,
    src: ExtensionSourceView,
    state_id: u8,
)
    ensures
        directory_load_spec(m, sources.push(src), state_id) == load_step(
            directory_load_spec(m, sources, state_id),
            src,
            state_id,
        ),
    decreases sources.len(),
{
    if sources.len() == 0 {
        assert(sources.push(src)[0] == src);
        assert(sources.push(src).skip(1) =~= Seq::<ExtensionSourceView>::empty());
        assert(directory_load_spec(m, sources, state_id) == m);
        assert(directory_load_spec(
            load_step(m, src, state_id),
            Seq::<ExtensionSourceView>::empty(),
            state_id,
        ) == load_step(m, src, state_id));
    } else {
        assert(sources.push(src)[0] == sources[0]);
        assert(sources.push(src).skip(1) =~= sources.skip(1).push(src));
        lemma_directory_load_snoc(load_step(m, sources[0], state_id), sources.skip(1), src, state_id);
        assert(directory_load_spec(m, sources.push(src), state_id) == directory_load_spec(
            load_step(m, sources[0], state_id),
            sources.skip(1).push(src),
            state_id,
        ));
        assert(directory_load_spec(m, sources, state_id) == directory_load_spec(
            load_step(m, sources[0], state_id),
            sources.skip(1),
            state_id,
        ));
    }
}

/// How many of a directory's candidates carry a readable, well-formed
/// descriptor.
pub open spec fn count_loadable(sources: Seq<ExtensionSourceView>) -> int
    decreases sources.len(),
{
    if sources.len() == 0 {
        0
    } else {
        (if load_outcome(sources[0].text) is Ok {
            1int
        } else {
            0int
        }) + count_loadable(sources.skip(1))
    }
}

/// Isolation under partial failure: loading a directory loads exactly
/// the candidates whose descriptor reads and parses, and records exactly
/// one failure for each of the others — one bad descriptor never costs a
/// good extension, and nothing is lost or double-counted.
pub proof fn lemma_isolated_failures(
    m: ExtensionsManagerView,
    sources: Seq<ExtensionSourceView>,
    state_id: u8,
)
    ensures
        directory_load_spec(m, sources, state_id).extensions.len() == m.extensions.len()
            + count_loadable(sources),
        directory_load_spec(m, sources, state_id).load_failures.len() == m.load_failures.len() + (
        sources.len() - count_loadable(sources)),
        0 <= count_loadable(sources) <= sources.len(),
    decreases sources.len(),
{
    if sources.len() > 0 {
        lemma_isolated_failures(load_step(m, sources[0], state_id), sources.skip(1), state_id);
    }
}

impl ExtensionsManager {
    /// A manager with nothing loaded and nothing failed.
    pub fn new() -> (r: ExtensionsManager)
        ensures
            r@.extensions == Seq::<LoadedExtensionView>::empty(),
            r@.load_failures == Seq::<ExtensionLoadFailureView>::empty(),
    {
        let r = ExtensionsManager { extensions: Vec::new(), load_failures: Vec::new() };
        proof {
            assert(r@.extensions =~= Seq::<LoadedExtensionView>::empty());
            assert(r@.load_failures =~= Seq::<ExtensionLoadFailureView>::empty());
        }
        r
    }

    /// Instantiates a trusted, compiled-in extension by invoking its
    /// entry function on the metadata and the state id, and stores the
    /// resulting capability object as a native extension of that state.
    pub fn load_extension_from_entry<F: FnOnce(ManifestInfo, u8) -> ExtensionPlugin>(
        &mut self,
        entry: F,
        info: ManifestInfo,
        state_id: u8,
    )
        requires
            call_requires(entry, (info, state_id)),
        ensures
            final(self)@.load_failures == old(self)@.load_failures,
            exists|p: ExtensionPlugin|
                #[trigger] call_ensures(entry, (info, state_id), p) && final(self)@.extensions
                    == old(self)@.extensions.push(
                    LoadedExtensionView {
                        kind: ExtensionKind::Native,
                        plugin: p@,
                        script_path: Seq::empty(),
                        termination_requested: false,
                        state_id,
                    },
                ),
    {
        let plugin = entry(info, state_id);
        let ghost p = plugin;
        self.extensions.push(LoadedExtension::Native { plugin, state_id });
        proof {
            assert(self@.extensions =~= old(self)@.extensions.push(
                LoadedExtensionView {
                    kind: ExtensionKind::Native,
                    plugin: p@,
                    script_path: Seq::empty(),
                    termination_requested: false,
                    state_id,
                },
            ));
            assert(self@.load_failures =~= old(self)@.load_failures);
        }
    }

    /// Starts an isolated script extension: the handle is recorded in
    /// `Loading` with its metadata and script path.  The script context
    /// itself is the host runtime's to drive.
    pub fn load_extension_with_deno(
        &mut self,
        script_path: String,
        info: ManifestInfo,
        state_id: u8,
    )
        ensures
            final(self)@.load_failures == old(self)@.load_failures,
            final(self)@.extensions == old(self)@.extensions.push(
                sandboxed_loading_view(info@, script_path@, state_id),
            ),
    {
        let ghost path_view = script_path@;
        let plugin = ExtensionPlugin::new(info);
        self.extensions.push(
            LoadedExtension::ExtensionInstance {
                plugin,
                script_path,
                termination_requested: false,
                state_id,
            },
        );
        proof {
            assert(self@.extensions =~= old(self)@.extensions.push(
                sandboxed_loading_view(info@, path_view, state_id),
            ));
            assert(self@.load_failures =~= old(self)@.load_failures);
        }
    }

    /// Discovers nothing itself: takes the candidates a directory walk
    /// found, each with its descriptor text as far as it could be read,
    /// and loads each readable, well-formed one as a sandboxed extension
    /// of the state.  A candidate that fails — unreadable descriptor, or
    /// text the grammar rejects — is one recorded failure and costs no
    /// other candidate.
    pub fn load_extensions_with_deno_in_directory(
        &mut self,
        sources: Vec<ExtensionSource>,
        state_id: u8,
    )
        ensures
            final(self)@ == directory_load_spec(
                old(self)@,
                sources@.map_values(|s: ExtensionSource| s@),
                state_id,
            ),
    {
        let ghost all = sources@.map_values(|s: ExtensionSource| s@);
        let mut i: usize = 0;
        while i < sources.len()
            invariant
                i <= sources@.len(),
                all == sources@.map_values(|s: ExtensionSource| s@),
                self@ == directory_load_spec(old(self)@, all.take(i as int), state_id),
            decreases sources@.len() - i,
        {
            let ghost pre = self@;
            let ghost src_view = all[i as int];
            let src = &sources[i];
            let text: Option<&str> = match &src.manifest_text {
                Some(t) => Some(t.as_str()),
                None => None,
            };
            proof {
                assert(match text {
                    Some(c) => src_view.text == Some(c@),
                    None => src_view.text is None,
                });
            }
            match Manifest::parse(text) {
                Ok(m) => {
                    let info = m.info();
                    proof {
                        assert(load_outcome(src_view.text) matches Ok(mv) && info_of(mv) == info@);
                    }
                    self.load_extension_with_deno(src.path.clone(), info, state_id);
                    proof {
                        assert(self@.extensions =~= load_step(pre, src_view, state_id).extensions);
                        assert(self@ == load_step(pre, src_view, state_id));
                    }
                },
                Err(e) => {
                    proof {
                        assert(load_outcome(src_view.text) == Err::<ManifestView, _>(e));
                    }
                    self.load_failures.push(ExtensionLoadFailure { path: src.path.clone(), error: e });
                    proof {
                        assert(self@.load_failures =~= load_step(pre, src_view, state_id).load_failures);
                        assert(self@.extensions =~= load_step(pre, src_view, state_id).extensions);
                        assert(self@ == load_step(pre, src_view, state_id));
                    }
                },
            }
            proof {
                lemma_directory_load_snoc_take(old(self)@, all, i as int, state_id);
            }
            i = i + 1;
        }
        proof {
            assert(all.take(sources@.len() as int) =~= all);
        }
    }
}

/// The summary of the first extension carrying the name, if any.
pub open spec fn find_info(exts: Seq<LoadedExtensionView>, name: Seq<char>) -> Option<
    ManifestInfoView,
>
    decreases exts.len(),
{
    if exts.len() == 0 {
        None
    } else if exts[0].plugin.info.name == name {
        Some(exts[0].plugin.info)
    } else {
        find_info(exts.skip(1), name)
    }
}

proof fn lemma_find_info_after_mismatch(exts: Seq<LoadedExtensionView>, name: Seq<char>, i: int)
    requires
        0 <= i <= exts.len(),
        forall|j: int| 0 <= j < i ==> (#[trigger] exts[j]).plugin.info.name != name,
    ensures
        find_info(exts, name) == find_info(exts.skip(i), name),
    decreases i,
{
    if i > 0 {
        lemma_find_info_after_mismatch(exts.skip(1), name, i - 1);
        assert(exts.skip(1).skip(i - 1) =~= exts.skip(i));
    } else {
        assert(exts.skip(0) =~= exts);
    }
}

impl ExtensionsManager {
    /// A copy of the summary of the first loaded extension carrying the
    /// name, used to answer an extension-info request; nothing where no
    /// loaded extension carries it.
    pub fn get_info_by_name(&self, name: &String) -> (r: Option<ManifestInfo>)
        ensures
            r matches Some(info) ==> find_info(self@.extensions, name@) == Some(info@),
            r is None ==> find_info(self@.extensions, name@) is None,
    {
        let mut i: usize = 0;
        while i < self.extensions.len()
            invariant
                i <= self.extensions@.len(),
                forall|j: int|
                    0 <= j < i ==> (#[trigger] self@.extensions[j]).plugin.info.name != name@,
            decreases self.extensions@.len() - i,
        {
            let info = self.extensions[i].info();
            if info.name == *name {
                proof {
                    lemma_find_info_after_mismatch(self@.extensions, name@, i as int);
                    assert(self@.extensions.skip(i as int)[0] == self@.extensions[i as int]);
                }
                return Some(info);
            }
            i = i + 1;
        }
        proof {
            lemma_find_info_after_mismatch(self@.extensions, name@, i as int);
        }
        None
    }

    /// Copies of every loaded extension's summary, in load order.
    pub fn list_infos(&self) -> (r: Vec<ManifestInfo>)
        ensures
            r@.map_values(|m: ManifestInfo| m@) == self@.extensions.map_values(
                |e: LoadedExtensionView| e.plugin.info,
            ),
    {
        let mut r: Vec<ManifestInfo> = Vec::new();
        let mut i: usize = 0;
        while i < self.extensions.len()
            invariant
                i <= self.extensions@.len(),
                r@.len() == i,
                forall|j: int|
                    0 <= j < i ==> (#[trigger] r@[j])@ == self@.extensions[j].plugin.info,
            decreases self.extensions@.len() - i,
        {
            r.push(self.extensions[i].info());
            i = i + 1;
        }
        proof {
            assert(r@.map_values(|m: ManifestInfo| m@) =~= self@.extensions.map_values(
                |e: LoadedExtensionView| e.plugin.info,
            ));
        }
        r
    }

    /// Fans one message out: every loaded extension sees one `notify`
    /// with its own copy, and each ready one has it delivered; extensions
    /// in any other phase reject it, and nothing else moves.
    pub fn fan_out_notify(&mut self, msg: &ClientMessages)
        ensures
            final(self)@.extensions == old(self)@.extensions.map_values(
                |e: LoadedExtensionView| e.notify_spec(msg@).0,
            ),
            final(self)@.load_failures == old(self)@.load_failures,
    {
        let ghost orig = self@.extensions;
        let ghost mv = msg@;
        let mut done: Vec<LoadedExtension> = Vec::new();
        while self.extensions.len() > 0
            invariant
                done@.len() + self.extensions@.len() == orig.len(),
                forall|j: int|
                    0 <= j < done@.len() ==> (#[trigger] done@[j])@ == orig[j].notify_spec(mv).0,
                forall|j: int|
                    0 <= j < self.extensions@.len() ==> (#[trigger] self.extensions@[j])@ == orig[
                        done@.len() + j
                    ],
                self@.load_failures == old(self)@.load_failures,
                mv == msg@,
            decreases self.extensions@.len(),
        {
            let mut e = self.extensions.remove(0);
            let _ = e.notify(msg.clone());
            done.push(e);
        }
        self.extensions = done;
        proof {
            assert(self@.extensions =~= orig.map_values(
                |e: LoadedExtensionView| e.notify_spec(mv).0,
            ));
        }
    }
}

proof fn lemma_directory_load_snoc_take(
    m: ExtensionsManagerView,
    all: Seq<ExtensionSourceView>,
    i: int,
    state_id: u8,
)
    requires
        0 <= i < all.len(),
    ensures
        directory_load_spec(m, all.take(i + 1), state_id) == load_step(
            directory_load_spec(m, all.take(i), state_id),
            all[i],
            state_id,
        ),
{
    assert(all.take(i + 1) =~= all.take(i).push(all[i]));
    lemma_directory_load_snoc(m, all.take(i), all[i], state_id);
}

} // verus!
