//! The worker's decisions: what it keeps, and what it answers.
//!
//! The worker holds the samples it was last sent. A processing request starts
//! a run over those samples, which goes forward one chunk per step, reports
//! its progress after each chunk and ends with the result. The pipeline is
//! the identity: the result of a run is the samples it ran on, in order.
use vstd::prelude::*;
use vstd::arithmetic::div_mod::lemma_div_is_ordered;

use crate::protocol::{CommandView, DProcCommand, DProcResponse, ResponseView, Sample, responses_view};

verus! {

/// How many samples one step of a run processes.
pub const CHUNK: usize = 64;

/// The worker's state as mathematical values: the samples it holds and,
/// while a run is going, how many of them that run has processed.
pub struct WorkerModel {
    pub samples: Seq<Sample>,
    pub run: Option<nat>,
}

/// A worker that holds `samples` and runs nothing.
pub open spec fn idle_model(samples: Seq<Sample>) -> WorkerModel {
    WorkerModel { samples, run: None }
}

/// The progress of a run that has processed `done` of `len` samples, in
/// percent. A run over no samples is complete at once.
pub open spec fn percent(done: nat, len: nat) -> nat {
    if len == 0 {
        100
    } else {
        done * 100 / len
    }
}

/// How far a run that has processed `done` of `len` samples gets in one step.
pub open spec fn next_done(done: nat, len: nat) -> nat {
    if done + CHUNK >= len {
        len
    } else {
        (done + CHUNK) as nat
    }
}

/// An idle worker taking a command: new samples replace the old ones; a
/// processing request starts a run over the samples held.
pub open spec fn apply_spec(m: WorkerModel, c: CommandView) -> WorkerModel {
    match c {
        CommandView::SendData(s) => idle_model(s),
        CommandView::DoProcessing => WorkerModel { samples: m.samples, run: Some(0) },
    }
}

/// One step of a run that has processed `done` samples: the next state, and
/// the responses sent, a progress report and, once every sample is done, the
/// result.
pub open spec fn advance_spec(samples: Seq<Sample>, done: nat) -> (WorkerModel, Seq<ResponseView>) {
    let d = next_done(done, samples.len());
    let report = ResponseView::ProcProgress(percent(d, samples.len()));
    if d == samples.len() {
        (idle_model(samples), seq![report, ResponseView::Data(samples)])
    } else {
        (WorkerModel { samples, run: Some(d) }, seq![report])
    }
}

/// What is left of the run in `m`, if any, until it completes: the state
/// then, and every response sent on the way.
pub open spec fn finish(m: WorkerModel) -> (WorkerModel, Seq<ResponseView>)
    decreases
            (match m.run {
                Some(d) => if d <= m.samples.len() { m.samples.len() - d + 1 } else { 0 },
                None => 0,
            }),
{
    match m.run {
        Some(d) => if d <= m.samples.len() {
            let (m2, rs) = advance_spec(m.samples, d);
            let (m3, rest) = finish(m2);
            (m3, rs + rest)
        } else {
            (m, seq![])
        },
        None => (m, seq![]),
    }
}

/// A worker in state `m` given `cmds` in order: it completes what it is
/// running before it takes the next command, and completes the last run too.
pub open spec fn drive(m: WorkerModel, cmds: Seq<CommandView>) -> (WorkerModel, Seq<ResponseView>)
    decreases cmds.len(),
{
    let (m1, r1) = finish(m);
    if cmds.len() == 0 {
        (m1, r1)
    } else {
        let (m2, r2) = drive(apply_spec(m1, cmds[0]), cmds.drop_first());
        (m2, r1 + r2)
    }
}

/// The payloads of the `Data` responses in `rs`, in order.
pub open spec fn data_of(rs: Seq<ResponseView>) -> Seq<Seq<Sample>>
    decreases rs.len(),
{
    if rs.len() == 0 {
        seq![]
    } else {
        let head = match rs[0] {
            ResponseView::Data(s) => seq![s],
            ResponseView::ProcProgress(_) => seq![],
        };
        head + data_of(rs.drop_first())
    }
}

/// The results that `cmds`, given in order to a worker holding `last`, call
/// for: one per processing request, of the samples sent last before it.
pub open spec fn expected_data(last: Seq<Sample>, cmds: Seq<CommandView>) -> Seq<Seq<Sample>>
    decreases cmds.len(),
{
    if cmds.len() == 0 {
        seq![]
    } else {
        match cmds[0] {
            CommandView::SendData(s) => expected_data(s, cmds.drop_first()),
            CommandView::DoProcessing => seq![last] + expected_data(last, cmds.drop_first()),
        }
    }
}

/// The state of a worker, owned by the worker's thread alone.
pub struct WorkerState {
    samples: Vec<Sample>,
    running: bool,
    done: usize,
    output: Vec<Sample>,
}

impl View for WorkerState {
    type V = WorkerModel;

    closed spec fn view(&self) -> WorkerModel {
        WorkerModel {
            samples: self.samples@,
            run: if self.running { Some(self.done as nat) } else { None },
        }
    }
}

impl WorkerState {
    /// The run's output so far is the processed part of the samples.
    pub closed spec fn wf(&self) -> bool {
        self.running ==> {
            &&& self.done <= self.samples.len()
            &&& self.output@ == self.samples@.subrange(0, self.done as int)
        }
    }

    /// A worker that holds no samples and runs nothing.
    pub fn new() -> (r: WorkerState)
        ensures
            r.wf(),
            r@ == idle_model(seq![]),
    {
        WorkerState { samples: Vec::new(), running: false, done: 0, output: Vec::new() }
    }

    /// Whether a run is going.
    pub fn is_running(&self) -> (r: bool)
        ensures
            r == (self@.run is Some),
    {
        self.running
    }

    /// Takes one command. Only an idle worker takes commands.
    pub fn apply(&mut self, cmd: DProcCommand)
        requires
            old(self).wf(),
            old(self)@.run is None,
        ensures
            final(self).wf(),
            final(self)@ == apply_spec(old(self)@, cmd@),
    {
        match cmd {
            DProcCommand::SendData(v) => {
                self.samples = v;
            },
            DProcCommand::DoProcessing => {
                self.running = true;
                self.done = 0;
                self.output = Vec::new();
                assert(self.output@ =~= self.samples@.subrange(0, 0));
            },
        }
    }

    /// One step of the run that is going: processes the next chunk and
    /// returns what to send, in order: a progress report and, once the run is
    /// complete, its result.
    pub fn advance(&mut self) -> (r: Vec<DProcResponse>)
        requires
            old(self).wf(),
            old(self)@.run is Some,
        ensures
            final(self).wf(),
            (final(self)@, responses_view(r@)) == advance_spec(old(self)@.samples, old(self)@.run->Some_0),
    {
        let len = self.samples.len();
        let end: usize = if len - self.done <= CHUNK { len } else { self.done + CHUNK };
        let mut i: usize = self.done;
        while i < end
            invariant
                self.done <= i <= end <= len,
                len == self.samples.len(),
                self.samples@ == old(self).samples@,
                self.running,
                self.done == old(self).done,
                self.output@ == self.samples@.subrange(0, i as int),
            decreases end - i,
        {
            self.output.push(self.samples[i]);
            i = i + 1;
            assert(self.output@ =~= self.samples@.subrange(0, i as int));
        }
        self.done = end;
        let pct = progress_percent(end, len);
        let mut r: Vec<DProcResponse> = Vec::new();
        r.push(DProcResponse::ProcProgress(pct));
        if end == len {
            let mut out: Vec<Sample> = Vec::new();
            std::mem::swap(&mut out, &mut self.output);
            self.running = false;
            assert(out@ =~= self.samples@);
            r.push(DProcResponse::Data(out));
        }
        assert(responses_view(r@) =~= advance_spec(old(self)@.samples, old(self)@.run->Some_0).1);
        r
    }
}

/// The progress of a run that has processed `done` of `len` samples.
pub fn progress_percent(done: usize, len: usize) -> (r: u8)
    requires
        done <= len,
    ensures
        r as nat == percent(done as nat, len as nat),
{
    if len == 0 {
        100
    } else {
        let p: u128 = (done as u128) * 100 / (len as u128);
        proof {
            lemma_div_is_ordered(done as int * 100, len as int * 100, len as int);
            assert(len as int * 100 / len as int == 100) by (nonlinear_arith)
                requires len > 0;
        }
        p as u8
    }
}

} // verus!
