//! What holds of the worker over many steps and many commands.
use vstd::prelude::*;
use vstd::arithmetic::div_mod::lemma_div_is_ordered;

use crate::protocol::{CommandView, ResponseView, Sample};
use crate::worker::{
    WorkerModel, advance_spec, apply_spec, data_of, drive, expected_data, finish, idle_model,
    next_done, percent,
};

verus! {

/// The progress of a run never goes down as it processes more samples, and
/// never passes 100.
pub proof fn lemma_percent_ordered(a: nat, b: nat, len: nat)
    requires
        a <= b <= len,
    ensures
        percent(a, len) <= percent(b, len) <= 100,
{
    if len > 0 {
        lemma_div_is_ordered((a * 100) as int, (b * 100) as int, len as int);
        lemma_div_is_ordered((b * 100) as int, (len * 100) as int, len as int);
        assert((len as int) * 100 / (len as int) == 100) by (nonlinear_arith)
            requires
                len > 0,
        ;
        assert(a * 100 <= b * 100 && b * 100 <= len * 100) by (nonlinear_arith)
            requires
                a <= b <= len,
        ;
    }
}

/// The results in two runs of responses, one after the other, are those of
/// the first followed by those of the second.
pub proof fn lemma_data_of_concat(a: Seq<ResponseView>, b: Seq<ResponseView>)
    ensures
        data_of(a + b) == data_of(a) + data_of(b),
    decreases a.len(),
{
    if a.len() == 0 {
        assert(a + b =~= b);
        assert(data_of(a) + data_of(b) =~= data_of(b));
    } else {
        assert((a + b).drop_first() =~= a.drop_first() + b);
        lemma_data_of_concat(a.drop_first(), b);
        let head = match a[0] {
            ResponseView::Data(s) => seq![s],
            ResponseView::ProcProgress(_) => seq![],
        };
        assert(head + (data_of(a.drop_first()) + data_of(b)) =~= (head + data_of(a.drop_first()))
            + data_of(b));
    }
}

/// A run over `samples` that has processed `done` of them goes on to
/// completion: it sends progress reports whose percentages never go down,
/// from at least where it stands up to 100, and then one result, which is
/// `samples` whole and in order. The worker is idle afterwards and still holds
/// `samples`.
pub proof fn lemma_run_completes(samples: Seq<Sample>, done: nat)
    requires
        done <= samples.len(),
    ensures
        ({
            let (m, rs) = finish(WorkerModel { samples, run: Some(done) });
            &&& m == idle_model(samples)
            &&& rs.len() >= 2
            &&& rs.last() == ResponseView::Data(samples)
            &&& rs[rs.len() - 2] == ResponseView::ProcProgress(100)
            &&& forall|i: int| 0 <= i < rs.len() - 1 ==> (#[trigger] rs[i] is ProcProgress)
            &&& forall|i: int|
                0 <= i < rs.len() - 1 ==> percent(done, samples.len()) <= (#[trigger] rs[i])->ProcProgress_0 <= 100
            &&& forall|i: int, j: int|
                0 <= i <= j < rs.len() - 1 ==> (#[trigger] rs[i])->ProcProgress_0 <= (#[trigger] rs[j])->ProcProgress_0
            &&& data_of(rs) == seq![samples]
        }),
    decreases samples.len() - done,
{
    let len = samples.len();
    let m = WorkerModel { samples, run: Some(done) };
    let (m2, rs1) = advance_spec(samples, done);
    let d2 = next_done(done, len);
    lemma_percent_ordered(done, d2, len);
    let (m3, rest) = finish(m2);
    let rs = rs1 + rest;
    assert(finish(m) == (m3, rs));
    if d2 == len {
        lemma_percent_ordered(len, len, len);
        if len > 0 {
            assert((len as int) * 100 / (len as int) == 100) by (nonlinear_arith)
                requires
                    len > 0,
            ;
        }
        assert(rs =~= rs1);
        assert(data_of(rs.drop_first().drop_first()) == Seq::<Seq<Sample>>::empty());
        assert(rs.drop_first().drop_first() =~= seq![]);
        assert(data_of(rs.drop_first()) =~= seq![samples]);
        assert(data_of(rs) =~= seq![samples]);
    } else {
        lemma_run_completes(samples, d2);
        assert(rs.drop_first() =~= rest);
        assert forall|i: int, j: int|
            0 <= i <= j < rs.len() - 1 implies (#[trigger] rs[i])->ProcProgress_0
            <= (#[trigger] rs[j])->ProcProgress_0 by {
            if i > 0 {
                assert(rs[i] == rest[i - 1]);
                assert(rs[j] == rest[j - 1]);
            } else {
                assert(rs[j] == rest[j - 1] || j == 0);
            }
        }
        assert(forall|i: int| 0 < i < rs.len() ==> rs[i] == rest[i - 1]);
    }
}

/// The result that a worker in state `m` still owes: that of the run it is
/// in, if any.
pub open spec fn pending(m: WorkerModel) -> Seq<Seq<Sample>> {
    if m.run is Some {
        seq![m.samples]
    } else {
        seq![]
    }
}

/// A worker that is owed a result by its current run, and then given `cmds`,
/// sends that result first and then one result for each processing request
/// among `cmds`, in order, each of the samples sent last before it.
pub proof fn lemma_drive_data(m: WorkerModel, cmds: Seq<CommandView>)
    requires
        m.run is Some ==> m.run->Some_0 <= m.samples.len(),
    ensures
        data_of(drive(m, cmds).1) == pending(m) + expected_data(m.samples, cmds),
    decreases cmds.len(),
{
    let (m1, r1) = finish(m);
    if m.run is Some {
        lemma_run_completes(m.samples, m.run->Some_0);
    } else {
        assert(data_of(r1) =~= seq![]);
    }
    assert(m1 == idle_model(m.samples));
    assert(data_of(r1) == pending(m));
    if cmds.len() == 0 {
        assert(pending(m) + expected_data(m.samples, cmds) =~= pending(m));
    } else {
        let m2 = apply_spec(m1, cmds[0]);
        let (m3, r2) = drive(m2, cmds.drop_first());
        lemma_drive_data(m2, cmds.drop_first());
        lemma_data_of_concat(r1, r2);
        match cmds[0] {
            CommandView::SendData(s) => {
                assert(pending(m2) + expected_data(s, cmds.drop_first()) =~= expected_data(
                    s,
                    cmds.drop_first(),
                ));
            },
            CommandView::DoProcessing => {
                assert(pending(m) + (seq![m.samples] + expected_data(m.samples, cmds.drop_first()))
                    =~= pending(m) + seq![m.samples] + expected_data(m.samples, cmds.drop_first()));
            },
        }
    }
}

/// Commands take effect in the order they were given: an idle worker holding
/// `samples` and given `cmds` in order sends exactly one result for each
/// processing request among them, in the order of the requests, and each
/// result is the samples sent last before its request (`samples` if none
/// was), whole and in order.
pub proof fn lemma_commands_applied_in_order(samples: Seq<Sample>, cmds: Seq<CommandView>)
    ensures
        data_of(drive(idle_model(samples), cmds).1) == expected_data(samples, cmds),
{
    lemma_drive_data(idle_model(samples), cmds);
    assert(pending(idle_model(samples)) + expected_data(samples, cmds) =~= expected_data(
        samples,
        cmds,
    ));
}

/// Nothing sent is lost: an idle worker, whatever it holds, that is sent `v`
/// and then asked to process sends exactly one result, `v` whole and in
/// order.
pub proof fn lemma_sent_data_is_processed(samples: Seq<Sample>, v: Seq<Sample>)
    ensures
        data_of(
            drive(idle_model(samples), seq![CommandView::SendData(v), CommandView::DoProcessing]).1,
        ) == seq![v],
{
    let cmds = seq![CommandView::SendData(v), CommandView::DoProcessing];
    lemma_commands_applied_in_order(samples, cmds);
    assert(cmds.drop_first() =~= seq![CommandView::DoProcessing]);
    assert(cmds.drop_first().drop_first() =~= seq![]);
    assert(cmds[0] == CommandView::SendData(v));
    assert(cmds.drop_first()[0] == CommandView::DoProcessing);
    assert(expected_data(v, cmds.drop_first().drop_first()) == Seq::<Seq<Sample>>::empty());
    assert(expected_data(v, cmds.drop_first()) =~= seq![v]);
}

} // verus!
