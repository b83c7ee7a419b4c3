//! The closed, tagged message vocabulary exchanged between transports,
//! the core and extensions.
//!
//! `ClientMessages` flow into the core (from a transport or from an
//! extension); `ServerMessages` flow back to the transport that sent the
//! request.  Every request variant has exactly one matching response
//! kind, and every response carries its outcome as a `Result` payload so
//! a failure never terminates the dispatch loop.

use vstd::prelude::*;

use crate::manifest::ManifestInfo;
use crate::manifest::ManifestInfoView;

verus! {

/// Error kinds carried inside a response's `Result` payload.
#[derive(Clone, Copy, PartialEq, Eq, Structural, Debug)]
pub enum Errors {
    /// The token is unknown or does not grant the addressed state.
    Unauthorized,
    /// The token grants the state id but no such state is registered.
    StateNotFound,
    /// No loaded extension carries the requested name.
    ExtensionNotFound,
    /// A file built-in addressed a path that holds no file.
    FileNotFound,
}

/// One entry of a directory listing.
#[derive(PartialEq, Debug)]
pub struct DirItemInfo {
    pub path: String,
    pub is_file: bool,
}

impl Clone for DirItemInfo {
    fn clone(&self) -> (res: Self)
        ensures
            res@ == self@,
    {
        DirItemInfo { path: self.path.clone(), is_file: self.is_file }
    }
}

/// Mathematical image of a `DirItemInfo`.
pub struct DirItemInfoView {
    pub path: Seq<char>,
    pub is_file: bool,
}

impl View for DirItemInfo {
    type V = DirItemInfoView;

    open spec fn view(&self) -> DirItemInfoView {
        DirItemInfoView { path: self.path@, is_file: self.is_file }
    }
}

/// The view of a whole listing.
pub open spec fn dir_items_view(items: Seq<DirItemInfo>) -> Seq<DirItemInfoView> {
    items.map_values(|d: DirItemInfo| d@)
}

/// The view of a listing outcome.
pub open spec fn dir_result_view(r: Result<Vec<DirItemInfo>, Errors>) -> Result<
    Seq<DirItemInfoView>,
    Errors,
> {
    match r {
        Ok(items) => Ok(dir_items_view(items@)),
        Err(e) => Err(e),
    }
}

/// The view of a text outcome.
pub open spec fn text_result_view(r: Result<String, Errors>) -> Result<Seq<char>, Errors> {
    match r {
        Ok(s) => Ok(s@),
        Err(e) => Err(e),
    }
}

/// Copies a listing, entry by entry.
fn clone_dir_items(items: &Vec<DirItemInfo>) -> (res: Vec<DirItemInfo>)
    ensures
        dir_items_view(res@) == dir_items_view(items@),
{
    let mut res: Vec<DirItemInfo> = Vec::new();
    let mut i: usize = 0;
    while i < items.len()
        invariant
            i <= items@.len(),
            res@.len() == i,
            forall|j: int| 0 <= j < i ==> res@[j]@ == items@[j]@,
        decreases items@.len() - i,
    {
        res.push(items[i].clone());
        i = i + 1;
    }
    proof {
        assert(dir_items_view(res@) =~= dir_items_view(items@));
    }
    res
}

/// Copies a listing outcome.
fn clone_dir_result(r: &Result<Vec<DirItemInfo>, Errors>) -> (res: Result<
    Vec<DirItemInfo>,
    Errors,
>)
    ensures
        dir_result_view(res) == dir_result_view(*r),
{
    match r {
        Ok(items) => Ok(clone_dir_items(items)),
        Err(e) => Err(*e),
    }
}

/// Copies a text outcome.
fn clone_text_result(r: &Result<String, Errors>) -> (res: Result<String, Errors>)
    ensures
        text_result_view(res) == text_result_view(*r),
{
    match r {
        Ok(s) => Ok(s.clone()),
        Err(e) => Err(*e),
    }
}

/// Messages that flow into the core: requests from a transport, and
/// events fanned out to extensions.  The trailing `Result` of a listing
/// or read variant is empty on a fresh request; when the same message is
/// fanned out to a subscribed extension it carries the outcome.
#[derive(PartialEq, Debug)]
pub enum ClientMessages {
    GetState(u8),
    SetState(u8, String),
    ListDir(u8, String, Result<Vec<DirItemInfo>, Errors>),
    ReadFile(u8, String, Result<String, Errors>),
    WriteFile(u8, String, String),
    GetExtensionInfo(u8, String),
    ListExtensions(u8),
    GetAllLanguageServerBuilders(u8),
    CreateLanguageServer(u8, String),
    WriteToLanguageServer(u8, String, String),
    CreateTerminalShell(u8, String),
    WriteToTerminalShell(u8, String, String),
    ResizeTerminalShell(u8, String, u32, u32),
    CloseTerminalShell(u8, String),
    GetTerminalShellBuilders(u8),
}

/// Mathematical image of a `ClientMessages` value.
pub enum ClientMessagesView {
    GetState(u8),
    SetState(u8, Seq<char>),
    ListDir(u8, Seq<char>, Result<Seq<DirItemInfoView>, Errors>),
    ReadFile(u8, Seq<char>, Result<Seq<char>, Errors>),
    WriteFile(u8, Seq<char>, Seq<char>),
    GetExtensionInfo(u8, Seq<char>),
    ListExtensions(u8),
    GetAllLanguageServerBuilders(u8),
    CreateLanguageServer(u8, Seq<char>),
    WriteToLanguageServer(u8, Seq<char>, Seq<char>),
    CreateTerminalShell(u8, Seq<char>),
    WriteToTerminalShell(u8, Seq<char>, Seq<char>),
    ResizeTerminalShell(u8, Seq<char>, u32, u32),
    CloseTerminalShell(u8, Seq<char>),
    GetTerminalShellBuilders(u8),
}

impl View for ClientMessages {
    type V = ClientMessagesView;

    open spec fn view(&self) -> ClientMessagesView {
        match self {
            ClientMessages::GetState(sid) => ClientMessagesView::GetState(*sid),
            ClientMessages::SetState(sid, data) => ClientMessagesView::SetState(*sid, data@),
            ClientMessages::ListDir(sid, path, r) => ClientMessagesView::ListDir(
                *sid,
                path@,
                dir_result_view(*r),
            ),
            ClientMessages::ReadFile(sid, path, r) => ClientMessagesView::ReadFile(
                *sid,
                path@,
                text_result_view(*r),
            ),
            ClientMessages::WriteFile(sid, path, content) => ClientMessagesView::WriteFile(
                *sid,
                path@,
                content@,
            ),
            ClientMessages::GetExtensionInfo(sid, name) => ClientMessagesView::GetExtensionInfo(
                *sid,
                name@,
            ),
            ClientMessages::ListExtensions(sid) => ClientMessagesView::ListExtensions(*sid),
            ClientMessages::GetAllLanguageServerBuilders(sid)
                => ClientMessagesView::GetAllLanguageServerBuilders(*sid),
            ClientMessages::CreateLanguageServer(sid, lang)
                => ClientMessagesView::CreateLanguageServer(*sid, lang@),
            ClientMessages::WriteToLanguageServer(sid, lang, data)
                => ClientMessagesView::WriteToLanguageServer(*sid, lang@, data@),
            ClientMessages::CreateTerminalShell(sid, term)
                => ClientMessagesView::CreateTerminalShell(*sid, term@),
            ClientMessages::WriteToTerminalShell(sid, term, data)
                => ClientMessagesView::WriteToTerminalShell(*sid, term@, data@),
            ClientMessages::ResizeTerminalShell(sid, term, cols, rows)
                => ClientMessagesView::ResizeTerminalShell(*sid, term@, *cols, *rows),
            ClientMessages::CloseTerminalShell(sid, term)
                => ClientMessagesView::CloseTerminalShell(*sid, term@),
            ClientMessages::GetTerminalShellBuilders(sid)
                => ClientMessagesView::GetTerminalShellBuilders(*sid),
        }
    }
}

impl ClientMessagesView {
    /// The correlation identifier: the state the message addresses.
    pub open spec fn state_id(self) -> u8 {
        match self {
            ClientMessagesView::GetState(sid) => sid,
            ClientMessagesView::SetState(sid, _) => sid,
            ClientMessagesView::ListDir(sid, _, _) => sid,
            ClientMessagesView::ReadFile(sid, _, _) => sid,
            ClientMessagesView::WriteFile(sid, _, _) => sid,
            ClientMessagesView::GetExtensionInfo(sid, _) => sid,
            ClientMessagesView::ListExtensions(sid) => sid,
            ClientMessagesView::GetAllLanguageServerBuilders(sid) => sid,
            ClientMessagesView::CreateLanguageServer(sid, _) => sid,
            ClientMessagesView::WriteToLanguageServer(sid, _, _) => sid,
            ClientMessagesView::CreateTerminalShell(sid, _) => sid,
            ClientMessagesView::WriteToTerminalShell(sid, _, _) => sid,
            ClientMessagesView::ResizeTerminalShell(sid, _, _, _) => sid,
            ClientMessagesView::CloseTerminalShell(sid, _) => sid,
            ClientMessagesView::GetTerminalShellBuilders(sid) => sid,
        }
    }

    /// True of the variants that name an extension capability: they are
    /// fanned out to the state's extensions instead of being executed as
    /// a built-in.
    pub open spec fn is_capability_message(self) -> bool {
        match self {
            ClientMessagesView::GetAllLanguageServerBuilders(_) => true,
            ClientMessagesView::CreateLanguageServer(_, _) => true,
            ClientMessagesView::WriteToLanguageServer(_, _, _) => true,
            ClientMessagesView::CreateTerminalShell(_, _) => true,
            ClientMessagesView::WriteToTerminalShell(_, _, _) => true,
            ClientMessagesView::ResizeTerminalShell(_, _, _, _) => true,
            ClientMessagesView::CloseTerminalShell(_, _) => true,
            ClientMessagesView::GetTerminalShellBuilders(_) => true,
            _ => false,
        }
    }
}

/// The view of a summary list.
pub open spec fn manifest_infos_view(infos: Seq<ManifestInfo>) -> Seq<ManifestInfoView> {
    infos.map_values(|m: ManifestInfo| m@)
}

/// Messages that flow back to the transport that sent a request.  The
/// outcome rides inside the matching variant as a `Result`, so a failed
/// request is answered, never dropped.
#[derive(PartialEq, Debug)]
pub enum ServerMessages {
    StateData(u8, Result<String, Errors>),
    StateUpdated(u8, Result<(), Errors>),
    DirListed(u8, String, Result<Vec<DirItemInfo>, Errors>),
    FileRead(u8, String, Result<String, Errors>),
    FileWritten(u8, String, Result<(), Errors>),
    ExtensionInfo(u8, Result<ManifestInfo, Errors>),
    ExtensionList(u8, Result<Vec<ManifestInfo>, Errors>),
    MessageDispatched(u8, Result<(), Errors>),
}

/// Mathematical image of a `ServerMessages` value.
pub enum ServerMessagesView {
    StateData(u8, Result<Seq<char>, Errors>),
    StateUpdated(u8, Result<(), Errors>),
    DirListed(u8, Seq<char>, Result<Seq<DirItemInfoView>, Errors>),
    FileRead(u8, Seq<char>, Result<Seq<char>, Errors>),
    FileWritten(u8, Seq<char>, Result<(), Errors>),
    ExtensionInfo(u8, Result<ManifestInfoView, Errors>),
    ExtensionList(u8, Result<Seq<ManifestInfoView>, Errors>),
    MessageDispatched(u8, Result<(), Errors>),
}

impl View for ServerMessages {
    type V = ServerMessagesView;

    open spec fn view(&self) -> ServerMessagesView {
        match self {
            ServerMessages::StateData(sid, r) => ServerMessagesView::StateData(
                *sid,
                text_result_view(*r),
            ),
            ServerMessages::StateUpdated(sid, r) => ServerMessagesView::StateUpdated(*sid, *r),
            ServerMessages::DirListed(sid, path, r) => ServerMessagesView::DirListed(
                *sid,
                path@,
                dir_result_view(*r),
            ),
            ServerMessages::FileRead(sid, path, r) => ServerMessagesView::FileRead(
                *sid,
                path@,
                text_result_view(*r),
            ),
            ServerMessages::FileWritten(sid, path, r) => ServerMessagesView::FileWritten(
                *sid,
                path@,
                *r,
            ),
            ServerMessages::ExtensionInfo(sid, r) => ServerMessagesView::ExtensionInfo(
                *sid,
                match r {
                    Ok(info) => Ok(info@),
                    Err(e) => Err(*e),
                },
            ),
            ServerMessages::ExtensionList(sid, r) => ServerMessagesView::ExtensionList(
                *sid,
                match r {
                    Ok(infos) => Ok(manifest_infos_view(infos@)),
                    Err(e) => Err(*e),
                },
            ),
            ServerMessages::MessageDispatched(sid, r) => ServerMessagesView::MessageDispatched(
                *sid,
                *r,
            ),
        }
    }
}

/// The response kinds: one per `ServerMessages` variant.
#[derive(Clone, Copy, PartialEq, Eq, Structural, Debug)]
pub enum ResponseKind {
    StateData,
    StateUpdated,
    DirListed,
    FileRead,
    FileWritten,
    ExtensionInfo,
    ExtensionList,
    MessageDispatched,
}

impl ClientMessagesView {
    /// The one response kind owed to a request: built-ins are answered
    /// with their payload, a capability message with a dispatch receipt.
    pub open spec fn response_kind(self) -> ResponseKind {
        match self {
            ClientMessagesView::GetState(_) => ResponseKind::StateData,
            ClientMessagesView::SetState(_, _) => ResponseKind::StateUpdated,
            ClientMessagesView::ListDir(_, _, _) => ResponseKind::DirListed,
            ClientMessagesView::ReadFile(_, _, _) => ResponseKind::FileRead,
            ClientMessagesView::WriteFile(_, _, _) => ResponseKind::FileWritten,
            ClientMessagesView::GetExtensionInfo(_, _) => ResponseKind::ExtensionInfo,
            ClientMessagesView::ListExtensions(_) => ResponseKind::ExtensionList,
            _ => ResponseKind::MessageDispatched,
        }
    }
}

impl ServerMessagesView {
    /// The kind of a response.
    pub open spec fn kind(self) -> ResponseKind {
        match self {
            ServerMessagesView::StateData(_, _) => ResponseKind::StateData,
            ServerMessagesView::StateUpdated(_, _) => ResponseKind::StateUpdated,
            ServerMessagesView::DirListed(_, _, _) => ResponseKind::DirListed,
            ServerMessagesView::FileRead(_, _, _) => ResponseKind::FileRead,
            ServerMessagesView::FileWritten(_, _, _) => ResponseKind::FileWritten,
            ServerMessagesView::ExtensionInfo(_, _) => ResponseKind::ExtensionInfo,
            ServerMessagesView::ExtensionList(_, _) => ResponseKind::ExtensionList,
            ServerMessagesView::MessageDispatched(_, _) => ResponseKind::MessageDispatched,
        }
    }

    /// The correlation identifier a response carries.
    pub open spec fn state_id(self) -> u8 {
        match self {
            ServerMessagesView::StateData(sid, _) => sid,
            ServerMessagesView::StateUpdated(sid, _) => sid,
            ServerMessagesView::DirListed(sid, _, _) => sid,
            ServerMessagesView::FileRead(sid, _, _) => sid,
            ServerMessagesView::FileWritten(sid, _, _) => sid,
            ServerMessagesView::ExtensionInfo(sid, _) => sid,
            ServerMessagesView::ExtensionList(sid, _) => sid,
            ServerMessagesView::MessageDispatched(sid, _) => sid,
        }
    }
}

impl Clone for ClientMessages {
    fn clone(&self) -> (res: Self)
        ensures
            res@ == self@,
    {
        match self {
            ClientMessages::GetState(sid) => ClientMessages::GetState(*sid),
            ClientMessages::SetState(sid, data) => ClientMessages::SetState(*sid, data.clone()),
            ClientMessages::ListDir(sid, path, r) => ClientMessages::ListDir(
                *sid,
                path.clone(),
                clone_dir_result(r),
            ),
            ClientMessages::ReadFile(sid, path, r) => ClientMessages::ReadFile(
                *sid,
                path.clone(),
                clone_text_result(r),
            ),
            ClientMessages::WriteFile(sid, path, content) => ClientMessages::WriteFile(
                *sid,
                path.clone(),
                content.clone(),
            ),
            ClientMessages::GetExtensionInfo(sid, name) => ClientMessages::GetExtensionInfo(
                *sid,
                name.clone(),
            ),
            ClientMessages::ListExtensions(sid) => ClientMessages::ListExtensions(*sid),
            ClientMessages::GetAllLanguageServerBuilders(sid)
                => ClientMessages::GetAllLanguageServerBuilders(*sid),
            ClientMessages::CreateLanguageServer(sid, lang)
                => ClientMessages::CreateLanguageServer(*sid, lang.clone()),
            ClientMessages::WriteToLanguageServer(sid, lang, data)
                => ClientMessages::WriteToLanguageServer(*sid, lang.clone(), data.clone()),
            ClientMessages::CreateTerminalShell(sid, term)
                => ClientMessages::CreateTerminalShell(*sid, term.clone()),
            ClientMessages::WriteToTerminalShell(sid, term, data)
                => ClientMessages::WriteToTerminalShell(*sid, term.clone(), data.clone()),
            ClientMessages::ResizeTerminalShell(sid, term, cols, rows)
                => ClientMessages::ResizeTerminalShell(*sid, term.clone(), *cols, *rows),
            ClientMessages::CloseTerminalShell(sid, term)
                => ClientMessages::CloseTerminalShell(*sid, term.clone()),
            ClientMessages::GetTerminalShellBuilders(sid)
                => ClientMessages::GetTerminalShellBuilders(*sid),
        }
    }
}

impl ClientMessages {
    /// Whether the message names an extension capability.
    pub fn is_capability(&self) -> (r: bool)
        ensures
            r == self@.is_capability_message(),
    {
        match self {
            ClientMessages::GetAllLanguageServerBuilders(_) => true,
            ClientMessages::CreateLanguageServer(_, _) => true,
            ClientMessages::WriteToLanguageServer(_, _, _) => true,
            ClientMessages::CreateTerminalShell(_, _) => true,
            ClientMessages::WriteToTerminalShell(_, _, _) => true,
            ClientMessages::ResizeTerminalShell(_, _, _, _) => true,
            ClientMessages::CloseTerminalShell(_, _) => true,
            ClientMessages::GetTerminalShellBuilders(_) => true,
            _ => false,
        }
    }

    /// The correlation identifier of the message.
    pub fn state_id(&self) -> (sid: u8)
        ensures
            sid == self@.state_id(),
    {
        match self {
            ClientMessages::GetState(sid) => *sid,
            ClientMessages::SetState(sid, _) => *sid,
            ClientMessages::ListDir(sid, _, _) => *sid,
            ClientMessages::ReadFile(sid, _, _) => *sid,
            ClientMessages::WriteFile(sid, _, _) => *sid,
            ClientMessages::GetExtensionInfo(sid, _) => *sid,
            ClientMessages::ListExtensions(sid) => *sid,
            ClientMessages::GetAllLanguageServerBuilders(sid) => *sid,
            ClientMessages::CreateLanguageServer(sid, _) => *sid,
            ClientMessages::WriteToLanguageServer(sid, _, _) => *sid,
            ClientMessages::CreateTerminalShell(sid, _) => *sid,
            ClientMessages::WriteToTerminalShell(sid, _, _) => *sid,
            ClientMessages::ResizeTerminalShell(sid, _, _, _) => *sid,
            ClientMessages::CloseTerminalShell(sid, _) => *sid,
            ClientMessages::GetTerminalShellBuilders(sid) => *sid,
        }
    }
}

} // verus!
