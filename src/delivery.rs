//! The delivery worker's decisions: what each command taken off the queue
//! leads to. The worker itself only performs the sends decided here.

use vstd::prelude::*;
use crate::datastructures::CommandBundle;

verus! {

/// A command on the delivery queue.
#[derive(Debug)]
pub enum Command {
    /// Stop the worker; what is still queued is dropped.
    Terminate,
    /// Send a message to some chats.
    Bundle(CommandBundle),
}

/// One message to send to one chat.
#[derive(Debug, Clone)]
pub struct Delivery {
    pub chat_id: i64,
    pub text: String,
}

/// Deliveries as (chat, text) pairs.
pub open spec fn delivery_views(d: Seq<Delivery>) -> Seq<(i64, Seq<char>)> {
    d.map_values(|x: Delivery| (x.chat_id, x.text@))
}

/// One delivery of `text` per chat of `chats`, in their order.
pub open spec fn fan_out(chats: Seq<i64>, text: Seq<char>) -> Seq<(i64, Seq<char>)> {
    Seq::new(chats.len(), |i: int| (chats[i], text))
}

/// Where the worker stands.
#[derive(Debug, Clone, Copy, PartialEq, Eq, Structural)]
pub enum WorkerState {
    /// Taking commands.
    Running,
    /// Stopped: no command is acted on any more.
    Terminated,
}

/// The delivery worker. With no bot credential it is disabled: it still
/// takes commands, so that it stops when told, but sends nothing.
#[derive(Debug, Clone, Copy)]
pub struct DeliveryWorker {
    pub enabled: bool,
    pub state: WorkerState,
}

impl DeliveryWorker {
    /// A running worker, enabled when `bot_token` is not empty.
    pub fn new(bot_token: &str) -> (r: Self)
        ensures
            r.enabled == (bot_token@.len() > 0),
            r.state == WorkerState::Running,
    {
        DeliveryWorker { enabled: !bot_token.is_empty(), state: WorkerState::Running }
    }

    pub fn is_running(&self) -> (r: bool)
        ensures
            r == (self.state == WorkerState::Running),
    {
        self.state == WorkerState::Running
    }

    /// Takes one command and gives the sends it calls for. A running, enabled
    /// worker sends a bundle's text to each of its chats, in order; a disabled
    /// one sends nothing. `Terminate` stops the worker, and a stopped worker
    /// acts on nothing.
    pub fn handle(&mut self, command: Command) -> (r: Vec<Delivery>)
        ensures
            final(self).enabled == old(self).enabled,
            old(self).state == WorkerState::Terminated ==> final(self).state
                == WorkerState::Terminated && r@.len() == 0,
            old(self).state == WorkerState::Running ==> match command {
                Command::Terminate => final(self).state == WorkerState::Terminated && r@.len()
                    == 0,
                Command::Bundle(b) => final(self).state == WorkerState::Running && if old(
                    self,
                ).enabled {
                    delivery_views(r@) == fan_out(b.receiver@, b.text@)
                } else {
                    r@.len() == 0
                },
            },
    {
        let mut out: Vec<Delivery> = Vec::new();
        if self.state == WorkerState::Terminated {
            return out;
        }
        match command {
            Command::Terminate => {
                self.state = WorkerState::Terminated;
            },
            Command::Bundle(bundle) => {
                if self.enabled {
                    let mut i: usize = 0;
                    while i < bundle.receiver.len()
                        invariant
                            i <= bundle.receiver@.len(),
                            out@.len() == i,
                            forall|j: int|
                                0 <= j < i ==> (#[trigger] out@[j]).chat_id == bundle.receiver@[j]
                                    && out@[j].text@ == bundle.text@,
                        decreases bundle.receiver.len() - i,
                    {
                        out.push(Delivery { chat_id: bundle.receiver[i], text: bundle.text.clone() });
                        i = i + 1;
                    }
                    assert(delivery_views(out@) =~= fan_out(bundle.receiver@, bundle.text@));
                }
            },
        }
        out
    }
}

} // verus!
