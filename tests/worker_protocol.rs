use rust_dsp::{
    progress_percent, DProc, DProcCommand, DProcResponse, GeneralError, Incoming, Polled, Sample,
    Worker, CHUNK,
};

fn bits(xs: &[f64]) -> Vec<Sample> {
    xs.iter().map(|x| x.to_bits()).collect()
}

fn collect_responses(dproc: &DProc) -> Vec<DProcResponse> {
    let mut out = Vec::new();
    while let Some(r) = dproc.receive_response() {
        out.push(r);
    }
    out
}

/// Polls the worker until it has nothing left to do.
fn run_until_idle(worker: &mut Worker) -> Vec<Polled> {
    let mut steps = Vec::new();
    loop {
        let p = worker.poll_once();
        let done = p == Polled::Idle || p == Polled::Stopped;
        steps.push(p);
        if done {
            return steps;
        }
    }
}

fn data_payloads(rs: &[DProcResponse]) -> Vec<Vec<Sample>> {
    rs.iter()
        .filter_map(|r| match r {
            DProcResponse::Data(v) => Some(v.clone()),
            DProcResponse::ProcProgress(_) => None,
        })
        .collect()
}

fn progress_values(rs: &[DProcResponse]) -> Vec<u8> {
    rs.iter()
        .filter_map(|r| match r {
            DProcResponse::ProcProgress(p) => Some(*p),
            DProcResponse::Data(_) => None,
        })
        .collect()
}

#[test]
fn identity_pipeline_returns_sent_samples() {
    let (dproc, mut worker) = DProc::new();
    let input = bits(&[0.0, 0.2, 0.4]);
    assert!(dproc.send_data_cmd(&input).is_ok());
    assert!(dproc.submit(DProcCommand::DoProcessing).is_ok());
    let steps = run_until_idle(&mut worker);
    assert_eq!(steps, vec![Polled::Applied, Polled::Applied, Polled::Sent, Polled::Idle]);
    let rs = collect_responses(&dproc);
    assert_eq!(rs.len(), 2);
    assert!(matches!(rs[0], DProcResponse::ProcProgress(100)));
    match &rs[1] {
        DProcResponse::Data(v) => {
            let back: Vec<f64> = v.iter().map(|b| f64::from_bits(*b)).collect();
            assert_eq!(back, vec![0.0, 0.2, 0.4]);
        }
        other => panic!("expected data, got {:?}", other),
    }
}

#[test]
fn processing_without_samples_gives_empty_result() {
    let (dproc, mut worker) = DProc::new();
    assert!(dproc.submit(DProcCommand::DoProcessing).is_ok());
    let steps = run_until_idle(&mut worker);
    assert_eq!(steps, vec![Polled::Applied, Polled::Sent, Polled::Idle]);
    let rs = collect_responses(&dproc);
    assert_eq!(progress_values(&rs), vec![100]);
    assert_eq!(data_payloads(&rs), vec![Vec::<Sample>::new()]);
}

#[test]
fn commands_take_effect_in_order() {
    let (dproc, mut worker) = DProc::new();
    let a = bits(&[1.0, 2.0]);
    let b = bits(&[3.0]);
    let c = bits(&[4.0, 5.0, 6.0]);
    assert!(dproc.send_data_cmd(&a).is_ok());
    assert!(dproc.submit(DProcCommand::DoProcessing).is_ok());
    assert!(dproc.send_data_cmd(&b).is_ok());
    assert!(dproc.send_data_cmd(&c).is_ok());
    assert!(dproc.submit(DProcCommand::DoProcessing).is_ok());
    assert!(dproc.submit(DProcCommand::DoProcessing).is_ok());
    run_until_idle(&mut worker);
    let rs = collect_responses(&dproc);
    assert_eq!(data_payloads(&rs), vec![a, c.clone(), c]);
}

#[test]
fn later_samples_replace_earlier_ones() {
    let (dproc, mut worker) = DProc::new();
    assert!(dproc.send_data_cmd(&bits(&[9.0, 9.0, 9.0])).is_ok());
    assert!(dproc.send_data_cmd(&bits(&[0.5])).is_ok());
    assert!(dproc.submit(DProcCommand::DoProcessing).is_ok());
    run_until_idle(&mut worker);
    let rs = collect_responses(&dproc);
    assert_eq!(data_payloads(&rs), vec![bits(&[0.5])]);
}

#[test]
fn long_run_reports_rising_progress() {
    let (dproc, mut worker) = DProc::new();
    let input: Vec<Sample> = (0..200u64).collect();
    assert!(dproc.send_data_cmd(&input).is_ok());
    assert!(dproc.submit(DProcCommand::DoProcessing).is_ok());
    let steps = run_until_idle(&mut worker);
    assert_eq!(
        steps,
        vec![
            Polled::Applied,
            Polled::Applied,
            Polled::Sent,
            Polled::Sent,
            Polled::Sent,
            Polled::Sent,
            Polled::Idle
        ]
    );
    let rs = collect_responses(&dproc);
    assert_eq!(progress_values(&rs), vec![32, 64, 96, 100]);
    assert!(matches!(rs.last(), Some(DProcResponse::Data(v)) if *v == input));
    assert_eq!(rs.len(), 5);
}

#[test]
fn commands_wait_while_a_run_is_going() {
    let (dproc, mut worker) = DProc::new();
    let first: Vec<Sample> = (0..(2 * CHUNK as u64 + 1)).collect();
    assert!(dproc.send_data_cmd(&first).is_ok());
    assert!(dproc.submit(DProcCommand::DoProcessing).is_ok());
    assert_eq!(worker.poll_once(), Polled::Applied);
    assert_eq!(worker.poll_once(), Polled::Applied);
    assert!(worker.is_running());
    assert!(dproc.send_data_cmd(&bits(&[7.0])).is_ok());
    assert_eq!(worker.poll_once(), Polled::Sent);
    assert_eq!(worker.poll_once(), Polled::Sent);
    assert_eq!(worker.poll_once(), Polled::Sent);
    assert!(!worker.is_running());
    assert!(dproc.submit(DProcCommand::DoProcessing).is_ok());
    run_until_idle(&mut worker);
    let rs = collect_responses(&dproc);
    assert_eq!(data_payloads(&rs), vec![first, bits(&[7.0])]);
}

#[test]
fn submit_to_a_gone_worker_returns_the_command() {
    let (dproc, worker) = DProc::new();
    drop(worker);
    let input = bits(&[0.0, -1.5, f64::MAX]);
    match dproc.submit(DProcCommand::SendData(input.clone())) {
        Err(GeneralError::SendError(DProcCommand::SendData(v))) => assert_eq!(v, input),
        other => panic!("expected the command back, got {:?}", other),
    }
    match dproc.submit(DProcCommand::DoProcessing) {
        Err(GeneralError::SendError(DProcCommand::DoProcessing)) => {}
        other => panic!("expected the command back, got {:?}", other),
    }
}

#[test]
fn send_data_to_a_gone_worker_returns_a_copy() {
    let (dproc, worker) = DProc::new();
    drop(worker);
    let input = bits(&[0.25, 0.5]);
    match dproc.send_data_cmd(&input) {
        Err(GeneralError::SendError(DProcCommand::SendData(v))) => assert_eq!(v, input),
        other => panic!("expected the command back, got {:?}", other),
    }
}

#[test]
fn draining_with_nothing_ready_is_empty() {
    let (dproc, mut worker) = DProc::new();
    assert!(dproc.receive_response().is_none());
    assert!(dproc.receive_response().is_none());
    assert_eq!(worker.poll_once(), Polled::Idle);
    assert!(collect_responses(&dproc).is_empty());
}

#[test]
fn draining_after_the_worker_is_gone_is_empty() {
    let (dproc, worker) = DProc::new();
    drop(worker);
    assert!(dproc.receive_response().is_none());
}

#[test]
fn worker_stops_when_the_caller_is_gone() {
    let (dproc, mut worker) = DProc::new();
    drop(dproc);
    assert_eq!(worker.poll_once(), Polled::Stopped);
}

#[test]
fn worker_stops_when_results_cannot_be_sent() {
    let (dproc, mut worker) = DProc::new();
    assert!(dproc.submit(DProcCommand::DoProcessing).is_ok());
    assert_eq!(worker.poll_once(), Polled::Applied);
    drop(dproc);
    assert_eq!(worker.poll_once(), Polled::Stopped);
    assert!(!worker.is_running());
}

#[test]
fn queued_commands_are_taken_before_the_stop() {
    let (dproc, mut worker) = DProc::new();
    assert!(dproc.send_data_cmd(&bits(&[1.0])).is_ok());
    drop(dproc);
    assert_eq!(worker.poll_once(), Polled::Applied);
    assert_eq!(worker.poll_once(), Polled::Stopped);
}

#[test]
fn take_reports_what_it_found() {
    let (_dproc, mut worker) = DProc::new();
    assert_eq!(worker.take(Incoming::Empty), Polled::Idle);
    assert_eq!(worker.take(Incoming::Closed), Polled::Stopped);
    assert_eq!(worker.take(Incoming::Item(DProcCommand::SendData(vec![1, 2]))), Polled::Applied);
    assert!(!worker.is_running());
    assert_eq!(worker.take(Incoming::Item(DProcCommand::DoProcessing)), Polled::Applied);
    assert!(worker.is_running());
}

#[test]
fn progress_percent_values() {
    assert_eq!(progress_percent(0, 0), 100);
    assert_eq!(progress_percent(0, 7), 0);
    assert_eq!(progress_percent(1, 3), 33);
    assert_eq!(progress_percent(64, 200), 32);
    assert_eq!(progress_percent(200, 200), 100);
    assert_eq!(progress_percent(usize::MAX - 1, usize::MAX), 99);
    assert_eq!(progress_percent(usize::MAX, usize::MAX), 100);
}

#[test]
fn worker_loop_answers_the_sample_waveform() {
    let (dproc, mut worker) = DProc::new();
    let input = bits(&[0.0, 0.0, 0.2, 0.4, 0.8, 1.0, 0.6, 0.2, 0.16, 0.1, 0.04, 0.0, 0.0]);
    assert!(dproc.send_data_cmd(&input).is_ok());
    assert!(dproc.submit(DProcCommand::DoProcessing).is_ok());
    let mut got = Vec::new();
    let mut notified = 0;
    for _ in 0..100 {
        match worker.poll_once() {
            Polled::Sent => notified += 1,
            Polled::Idle | Polled::Stopped => break,
            Polled::Applied => {}
        }
        while let Some(r) = dproc.receive_response() {
            got.push(r);
        }
    }
    assert_eq!(notified, 1);
    assert_eq!(data_payloads(&got), vec![input]);
    drop(dproc);
    assert_eq!(worker.poll_once(), Polled::Stopped);
}
