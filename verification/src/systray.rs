//! The tray command bridge: a background indicator signals `Open` and
//! `Quit` intents into a UI session that may not currently exist. Two
//! logically-named channels carry them — a remote sink slot that a live
//! UI session registers and its teardown clears, and a local fallback
//! queue the main control loop waits on between sessions. The indicator
//! thread and the real channel live outside the crate; the dispatch
//! rule and the slot's lifecycle live here.

use vstd::prelude::*;

verus! {

/// A tray intent: open the UI, or quit the process. No payload.
#[derive(Clone, Copy, Debug, PartialEq, Eq, Structural)]
pub enum Cmd {
    Open,
    Quit,
}

/// One delivery into a registered remote sink: which registration got
/// which command.
pub struct RemoteDelivery {
    pub sink: u64,
    pub cmd: Cmd,
}

/// The state of the bridge: whether the local fallback channel exists,
/// what it currently queues, which remote sink (if any) is registered,
/// and everything delivered remotely so far, in order.
pub struct TrayBridge {
    pub local_initialized: bool,
    pub local: Vec<Cmd>,
    pub remote: Option<u64>,
    pub delivered: Vec<RemoteDelivery>,
}

impl TrayBridge {
    /// A bridge with no channel and no sink yet.
    pub fn new() -> (s: Self)
        ensures
            !s.local_initialized,
            s.local@.len() == 0,
            s.remote is None,
            s.delivered@.len() == 0,
    {
        TrayBridge { local_initialized: false, local: Vec::new(), remote: None, delivered: Vec::new() }
    }

    /// Brings the local fallback channel up, once: a second call changes
    /// nothing, and what is already queued survives.
    pub fn run_tray_in_background(&mut self)
        ensures
            final(self).local_initialized,
            final(self).local == old(self).local,
            final(self).remote == old(self).remote,
            final(self).delivered == old(self).delivered,
    {
        if !self.local_initialized {
            self.local_initialized = true;
        }
    }

    /// Registers the remote sink of a freshly constructed UI session.
    /// Last writer wins: whatever was registered before is replaced
    /// outright.
    pub fn connect_to_backend(&mut self, sink: u64)
        ensures
            final(self).remote == Some(sink),
            final(self).local == old(self).local,
            final(self).local_initialized == old(self).local_initialized,
            final(self).delivered == old(self).delivered,
    {
        self.remote = Some(sink);
    }

    /// Clears the remote sink when its UI session is torn down:
    /// unconditionally, never partially, whether or not one was
    /// registered.
    pub fn disconnect(&mut self)
        ensures
            final(self).remote is None,
            final(self).local == old(self).local,
            final(self).local_initialized == old(self).local_initialized,
            final(self).delivered == old(self).delivered,
    {
        self.remote = None;
    }

    /// Dispatches one tray click: delivered directly to the remote sink
    /// when one is registered, else queued on the local fallback
    /// channel. Answers where the command went. With neither a sink nor
    /// a channel the dispatch has nowhere to go — a programming-contract
    /// violation the caller must rule out.
    pub fn emit_cmd(&mut self, cmd: Cmd) -> (r: Option<u64>)
        requires
            old(self).remote is Some || old(self).local_initialized,
        ensures
            (old(self).remote matches Some(sink) ==> r == Some(sink) && final(self).delivered@
                == old(self).delivered@.push((RemoteDelivery { sink, cmd })) && final(self).local
                == old(self).local),
            (old(self).remote is None ==> r is None && final(self).local@ == old(
                self,
            ).local@.push(cmd) && final(self).delivered == old(self).delivered),
            final(self).remote == old(self).remote,
            final(self).local_initialized == old(self).local_initialized,
    {
        match self.remote {
            Some(sink) => {
                self.delivered.push(RemoteDelivery { sink, cmd });
                Some(sink)
            },
            None => {
                self.local.push(cmd);
                None
            },
        }
    }

    /// Takes the oldest command off the local fallback channel, if one
    /// is queued; the control loop blocks on the real channel and asks
    /// again. Asking without a channel is the same contract violation as
    /// dispatching into nothing.
    pub fn wait(&mut self) -> (r: Option<Cmd>)
        requires
            old(self).local_initialized,
        ensures
            (old(self).local@.len() > 0 ==> r == Some(old(self).local@[0]) && final(self).local@
                == old(self).local@.drop_first()),
            (old(self).local@.len() == 0 ==> r is None && final(self).local == old(self).local),
            final(self).remote == old(self).remote,
            final(self).local_initialized == old(self).local_initialized,
            final(self).delivered == old(self).delivered,
    {
        if self.local.len() > 0 {
            let cmd = self.local.remove(0);
            proof {
                assert(self.local@ =~= old(self).local@.drop_first());
            }
            Some(cmd)
        } else {
            None
        }
    }
}

} // verus!
