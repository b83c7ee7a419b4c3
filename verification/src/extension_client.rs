//! The handle a loaded extension uses to push messages into the core.
//!
//! Every extension, and every transport, feeds one inbound channel; the
//! channel is modelled here as the queue of messages not yet taken by
//! the dispatch loop.  Order on this one channel is preserved: a send
//! appends, a take removes from the front.

use vstd::prelude::*;

use crate::messaging::ClientMessages;
use crate::messaging::ClientMessagesView;

verus! {

/// The core's inbound channel: every producer appends, the dispatch
/// loop drains from the front.
pub struct CoreChannel {
    pub queue: Vec<ClientMessages>,
}

impl CoreChannel {
    /// The messages pending, oldest first.
    pub open spec fn view(self) -> Seq<ClientMessagesView> {
        self.queue@.map_values(|m: ClientMessages| m@)
    }

    /// An empty channel.
    pub fn new() -> (r: CoreChannel)
        ensures
            r@ == Seq::<ClientMessagesView>::empty(),
    {
        let r = CoreChannel { queue: Vec::new() };
        proof {
            assert(r@ =~= Seq::<ClientMessagesView>::empty());
        }
        r
    }

    /// Takes the oldest pending message, if one is pending.
    pub fn take_front(&mut self) -> (r: Option<ClientMessages>)
        ensures
            old(self)@.len() == 0 ==> r is None && *final(self) == *old(self),
            old(self)@.len() > 0 ==> (r matches Some(m) && m@ == old(self)@[0] && final(self)@
                == old(self)@.skip(1)),
    {
        if self.queue.len() == 0 {
            None
        } else {
            let m = self.queue.remove(0);
            proof {
                assert(final(self)@ =~= old(self)@.skip(1));
            }
            Some(m)
        }
    }
}

/// The lightweight handle a loaded extension holds: its name, and the
/// right to append to the core's inbound channel.
pub struct ExtensionClient {
    pub name: String,
}

impl ExtensionClient {
    /// The name of the extension the handle was issued to.
    pub open spec fn view(self) -> Seq<char> {
        self.name@
    }

    /// A handle for the named extension.
    pub fn new(name: String) -> (r: ExtensionClient)
        ensures
            r@ == name@,
    {
        ExtensionClient { name }
    }

    /// Pushes one message into the core's inbound channel.  The channel
    /// is bounded in the running system and a full channel suspends the
    /// sender; it never drops: the message is appended, nothing else
    /// moves.
    pub fn send(&self, channel: &mut CoreChannel, msg: ClientMessages)
        ensures
            final(channel)@ == old(channel)@.push(msg@),
    {
        channel.queue.push(msg);
        proof {
            assert(final(channel)@ =~= old(channel)@.push(msg@));
        }
    }
}

impl Clone for ExtensionClient {
    fn clone(&self) -> (res: Self)
        ensures
            res@ == self@,
    {
        ExtensionClient { name: self.name.clone() }
    }
}

} // verus!
