//! Duplex event bridge between the core and one sandboxed extension.
//!
//! A sandboxed extension reaches the core through exactly three call
//! surfaces: listen for a named core event and take its one reply, send
//! one message to the core, and request termination of its own context.
//! The bridge owns the wiring those calls run through: the extension's
//! client handle, the state's event registry, and the context's
//! termination handle.

use vstd::prelude::*;

use crate::events_manager::EventsManager;
use crate::extension_client::CoreChannel;
use crate::extension_client::ExtensionClient;
use crate::messaging::ClientMessages;
use crate::messaging::ClientMessagesView;

verus! {

/// Relies on `uuid::Uuid::new_v4` (via `as_u128`): a freshly drawn
/// random identifier.  Nothing is promised of the value; every caller
/// must work whatever comes back.
#[verifier::external_body]
fn fresh_listener_id() -> u128 {
    uuid::Uuid::new_v4().as_u128()
}

/// The termination handle of one sandboxed execution context.  The
/// handle is absent when the context never started or already tore
/// itself down.
pub struct WorkerHandle {
    pub handle_present: bool,
    pub terminated: bool,
}

/// The bridge bound into one sandboxed extension's shared state.
pub struct SandboxBridge {
    pub client: ExtensionClient,
    pub events: EventsManager,
    pub worker: WorkerHandle,
}

/// Binds the three call surfaces of one sandboxed extension to its
/// client handle, its state's event registry and its termination
/// handle.
pub fn new(
    client: ExtensionClient,
    events_manager: EventsManager,
    worker_handle: WorkerHandle,
) -> (r: SandboxBridge)
    ensures
        r.client@ == client@,
        r.events == events_manager,
        r.worker == worker_handle,
{
    SandboxBridge { client, events: events_manager, worker: worker_handle }
}

impl SandboxBridge {
    /// Begins one listen on a named core event: a listener is registered
    /// under a freshly drawn id, which the caller quotes to take the one
    /// reply.  Fresh means drawn at random: should the draw collide with
    /// a live registration, that registration starts over empty.
    pub fn listen_messages(&mut self, event_name: String) -> (id: u128)
        requires
            old(self).events.wf(),
        ensures
            final(self).events.wf(),
            final(self).events@ == old(self).events@.insert(
                (event_name@, id),
                None::<ClientMessagesView>,
            ),
            final(self).client == old(self).client,
            final(self).worker == old(self).worker,
    {
        let id = fresh_listener_id();
        self.events.listen_on(event_name, id);
        id
    }

    /// Takes the one reply pending under `(event_name, id)`, if it has
    /// arrived; the registration is gone with it.  While no reply is
    /// pending nothing changes, and the caller polls again.
    pub fn poll_message(&mut self, event_name: &String, id: u128) -> (r: Option<ClientMessages>)
        requires
            old(self).events.wf(),
        ensures
            final(self).events.wf(),
            (old(self).events@.contains_key((event_name@, id)) && old(self).events@[(
                event_name@,
                id,
            )] matches Some(_)) ==> (r matches Some(m) && Some(m@) == old(self).events@[(
                event_name@,
                id,
            )] && final(self).events@ == old(self).events@.remove((event_name@, id))),
            !(old(self).events@.contains_key((event_name@, id)) && old(self).events@[(
                event_name@,
                id,
            )] matches Some(_)) ==> (r is None && final(self).events == old(self).events),
            final(self).client == old(self).client,
            final(self).worker == old(self).worker,
    {
        self.events.poll(event_name, id)
    }

    /// Gives up one listen without taking a reply: the registration is
    /// removed, and a reply arriving later is dropped by design.
    pub fn unlisten_messages(&mut self, event_name: &String, id: u128)
        requires
            old(self).events.wf(),
        ensures
            final(self).events.wf(),
            final(self).events@ == old(self).events@.remove((event_name@, id)),
            final(self).client == old(self).client,
            final(self).worker == old(self).worker,
    {
        self.events.unlisten_from(event_name, id);
    }

    /// Sends one message from the sandbox to the core: appended to the
    /// core's inbound channel, never dropped.
    pub fn send_message(&self, channel: &mut CoreChannel, msg: ClientMessages)
        ensures
            final(channel)@ == old(channel)@.push(msg@),
    {
        self.client.send(channel, msg);
    }

    /// Requests termination of the sandboxed context.  With a live
    /// handle the context is marked terminated; without one there is
    /// nothing left to stop, and the call is a no-op.
    pub fn terminate_main_worker(&mut self)
        ensures
            final(self).worker.handle_present == old(self).worker.handle_present,
            final(self).worker.terminated == (old(self).worker.terminated || old(
                self,
            ).worker.handle_present),
            final(self).client == old(self).client,
            final(self).events == old(self).events,
    {
        if self.worker.handle_present {
            self.worker.terminated = true;
        }
    }
}

} // verus!
