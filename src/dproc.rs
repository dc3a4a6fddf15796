//! The caller's handle and the worker's endpoint.
use vstd::prelude::*;

use std::sync::mpsc::{Receiver, Sender};

use crate::channel::{Incoming, open_channel, send_value, try_take};
use crate::protocol::{CommandView, DProcCommand, DProcResponse, GeneralError, Sample};
use crate::worker::{WorkerModel, WorkerState, advance_spec, apply_spec, idle_model};

verus! {

/// The caller's handle: the sending end of the command queue and the
/// receiving end of the response queue. Dropping it tells the worker to stop.
#[derive(Debug)]
pub struct DProc {
    pub from_dproc_rx: Receiver<DProcResponse>,
    pub to_dproc_tx: Sender<DProcCommand>,
}

/// The worker's end: its state and the other ends of the two queues. It is
/// meant to be moved to the worker's own thread and polled there.
pub struct Worker {
    state: WorkerState,
    commands: Receiver<DProcCommand>,
    responses: Sender<DProcResponse>,
}

/// What one poll of the worker did.
#[derive(Debug, PartialEq, Eq, Structural)]
pub enum Polled {
    /// No command was waiting: wait a moment before the next poll.
    Idle,
    /// A command was taken and applied.
    Applied,
    /// A run went one step forward and its responses were sent: the caller
    /// should be told.
    Sent,
    /// The caller is gone: the worker is done.
    Stopped,
}

impl DProc {
    /// A handle and a worker connected to each other. The worker holds no
    /// samples and runs nothing yet.
    pub fn new() -> (r: (DProc, Worker))
        ensures
            r.1.wf(),
            r.1@ == idle_model(seq![]),
    {
        let (to_dproc_tx, to_dproc_rx) = open_channel();
        let (from_dproc_tx, from_dproc_rx) = open_channel();
        let worker = Worker { state: WorkerState::new(), commands: to_dproc_rx, responses: from_dproc_tx };
        (DProc { from_dproc_rx, to_dproc_tx }, worker)
    }

    /// Queues `cmd` for the worker, without blocking. It fails only where the
    /// worker is gone, and then hands `cmd` back unchanged.
    pub fn submit(&self, cmd: DProcCommand) -> (r: Result<(), GeneralError>)
        ensures
            r matches Err(GeneralError::SendError(back)) ==> back == cmd,
    {
        match send_value(&self.to_dproc_tx, cmd) {
            Ok(()) => Ok(()),
            Err(back) => Err(GeneralError::SendError(back)),
        }
    }

    /// Queues a copy of `data` as the worker's new samples. Where the worker
    /// is gone, the command that carried the copy comes back.
    pub fn send_data_cmd(&self, data: &Vec<Sample>) -> (r: Result<(), GeneralError>)
        ensures
            r matches Err(GeneralError::SendError(back)) ==> back@ == CommandView::SendData(data@),
    {
        let copy = data.clone();
        assert(copy@ =~= data@);
        self.submit(DProcCommand::SendData(copy))
    }

    /// The oldest response that is ready, if any. It never blocks: `None`
    /// means that nothing is ready now, or that the worker is gone.
    pub fn receive_response(&self) -> Option<DProcResponse> {
        match try_take(&self.from_dproc_rx) {
            Incoming::Item(r) => Some(r),
            Incoming::Empty => None,
            Incoming::Closed => None,
        }
    }
}

impl View for Worker {
    type V = WorkerModel;

    closed spec fn view(&self) -> WorkerModel {
        self.state@
    }
}

impl Worker {
    /// The worker's state is well formed.
    pub closed spec fn wf(&self) -> bool {
        self.state.wf()
    }

    /// Whether a run is going.
    pub fn is_running(&self) -> (r: bool)
        requires
            self.wf(),
        ensures
            r == (self@.run is Some),
    {
        self.state.is_running()
    }

    /// What an idle worker does with what it found on the command queue: it
    /// applies a command, waits on an empty queue, and stops once the caller
    /// is gone.
    pub fn take(&mut self, incoming: Incoming<DProcCommand>) -> (r: Polled)
        requires
            old(self).wf(),
            old(self)@.run is None,
        ensures
            final(self).wf(),
            match incoming {
                Incoming::Item(c) => r == Polled::Applied && final(self)@ == apply_spec(old(self)@, c@),
                Incoming::Empty => r == Polled::Idle && final(self)@ == old(self)@,
                Incoming::Closed => r == Polled::Stopped && final(self)@ == old(self)@,
            },
    {
        match incoming {
            Incoming::Item(c) => {
                self.state.apply(c);
                Polled::Applied
            },
            Incoming::Empty => Polled::Idle,
            Incoming::Closed => Polled::Stopped,
        }
    }

    /// Sends `rs` in order; `false` where the caller is gone.
    fn send_all(&self, rs: Vec<DProcResponse>) -> bool {
        let mut rs = rs;
        while rs.len() > 0
            decreases rs.len(),
        {
            let r = rs.remove(0);
            if send_value(&self.responses, r).is_err() {
                return false;
            }
        }
        true
    }

    /// One turn of the worker's loop. While a run is going, it goes one step
    /// forward and sends what that step produced; commands wait in the queue
    /// meanwhile, in order. An idle worker looks at the command queue once,
    /// without blocking, and does what [`Worker::take`] says.
    pub fn poll_once(&mut self) -> (r: Polled)
        requires
            old(self).wf(),
        ensures
            final(self).wf(),
            old(self)@.run matches Some(done) ==> {
                &&& final(self)@ == advance_spec(old(self)@.samples, done).0
                &&& (r == Polled::Sent || r == Polled::Stopped)
            },
            old(self)@.run is None ==> match r {
                Polled::Applied => exists|c: CommandView| final(self)@ == apply_spec(old(self)@, c),
                Polled::Sent => false,
                _ => final(self)@ == old(self)@,
            },
    {
        if self.state.is_running() {
            let rs = self.state.advance();
            if self.send_all(rs) {
                Polled::Sent
            } else {
                Polled::Stopped
            }
        } else {
            let incoming = try_take(&self.commands);
            let ghost found = incoming;
            let r = self.take(incoming);
            proof {
                if let Incoming::Item(c) = found {
                    assert(self@ == apply_spec(old(self)@, c@));
                }
            }
            r
        }
    }
}

} // verus!
