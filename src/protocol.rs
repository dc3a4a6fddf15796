//! The messages exchanged between a caller and the worker.
use vstd::prelude::*;

verus! {

/// One waveform sample: the bit pattern of an IEEE-754 double.
pub type Sample = u64;

/// A message from the caller to the worker.
#[derive(Debug)]
pub enum DProcCommand {
    /// Replace the worker's samples with these.
    SendData(Vec<Sample>),
    /// Run the pipeline on the samples last sent.
    DoProcessing,
}

/// A message from the worker to the caller.
#[derive(Debug)]
pub enum DProcResponse {
    /// The result of one processing run.
    Data(Vec<Sample>),
    /// How far the running pipeline has come, in percent.
    ProcProgress(u8),
}

/// The failure of a submission: the worker is gone. The command that could
/// not be delivered is handed back whole.
#[derive(Debug)]
pub enum GeneralError {
    SendError(DProcCommand),
}

/// What a command says, as mathematical values.
pub enum CommandView {
    SendData(Seq<Sample>),
    DoProcessing,
}

/// What a response says, as mathematical values.
pub enum ResponseView {
    Data(Seq<Sample>),
    ProcProgress(nat),
}

impl View for DProcCommand {
    type V = CommandView;

    open spec fn view(&self) -> CommandView {
        match self {
            DProcCommand::SendData(v) => CommandView::SendData(v@),
            DProcCommand::DoProcessing => CommandView::DoProcessing,
        }
    }
}

impl View for DProcResponse {
    type V = ResponseView;

    open spec fn view(&self) -> ResponseView {
        match self {
            DProcResponse::Data(v) => ResponseView::Data(v@),
            DProcResponse::ProcProgress(p) => ResponseView::ProcProgress(*p as nat),
        }
    }
}

/// The views of a sequence of responses, in order.
pub open spec fn responses_view(rs: Seq<DProcResponse>) -> Seq<ResponseView> {
    rs.map_values(|r: DProcResponse| r@)
}

} // verus!
