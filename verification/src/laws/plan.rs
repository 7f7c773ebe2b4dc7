//! What carrying out a plan does.

use crate::plan::{Argument, ArgumentModel, Call, End, EndModel, FailureModel, Plan, Run};
use vstd::prelude::*;

verus! {

/// What is handed to the engine is what the plan says, whatever its kind.
pub proof fn law_arguments(flag: bool, number: u64, text: String, bytes: Vec<u8>, codes: Vec<u16>)
    ensures
        Argument::Nothing@ == ArgumentModel::Nothing,
        Argument::Flag(flag)@ == ArgumentModel::Flag(flag),
        Argument::Number(number)@ == ArgumentModel::Number(number),
        Argument::Text(text)@ == ArgumentModel::Text(text@),
        Argument::Bytes(bytes)@ == ArgumentModel::Bytes(bytes@),
        Argument::Codes(codes)@ == ArgumentModel::Codes(codes@),
{
}

/// A plan starts at its first step; without steps it has ended, with its
/// refusal where it has one.
pub proof fn law_runs_start(plan: Plan, run: Run, end: Option<End>, call: &Call)
    requires
        call_ensures(Run::new, (plan,), run),
        call_ensures(Run::end, (&run,), end),
        plan.steps@.len() > 0 ==> call_ensures(Run::call, (&run,), call),
    ensures
        end is None <==> plan.steps@.len() > 0,
        plan.steps@.len() > 0 ==> call@ == plan.steps@[0].call@,
        plan.steps@.len() == 0 && plan.refusal is None ==> (end matches Some(e) && e@
            == EndModel::Done),
        plan.steps@.len() == 0 ==> (plan.refusal matches Some(t) ==> (end matches Some(e) && e@
            == EndModel::Refused(t@))),
{
    let steps = crate::plan::steps_view(plan.steps@);
    assert(steps.len() == plan.steps@.len());
    if plan.steps@.len() > 0 {
        assert(steps[0] == plan.steps@[0]@);
    }
}

/// A call that succeeds leads to the next step. One that fails ends the plan
/// where its failure is to be reported or refused, with that label or text;
/// leads to the next step where it does not matter; and is followed by its
/// alternative where it has one. An error is taken off the engine's queue
/// exactly where that is what its failure means.
pub proof fn law_answers(
    run: &mut Run,
    ok: bool,
    drain: bool,
    after: &Run,
    end: Option<End>,
)
    requires
        old(run)@.is_proper(),
        old(run)@.end() is None,
        call_ensures(Run::answer, (run, ok), drain),
        after@ == final(run)@,
        call_ensures(Run::end, (after,), end),
    ensures
        ({
            let step = old(run)@.plan.steps[old(run)@.at as int];
            &&& final(run)@.plan == old(run)@.plan
            &&& drain <==> !ok && step.on_failure is Drain
            &&& ok ==> final(run)@.at == old(run)@.at + 1 && final(run)@.stopped is None
            &&& !ok && (step.on_failure is Ignore || step.on_failure is Drain) ==> final(run)@.at
                == old(run)@.at + 1 && final(run)@.stopped is None
            &&& !ok ==> (step.on_failure matches FailureModel::Report(l) ==> (end matches Some(e)
                && e@ == EndModel::Failed(l)))
            &&& !ok ==> (step.on_failure matches FailureModel::Refuse(t) ==> (end matches Some(e)
                && e@ == EndModel::Refused(t)))
            &&& !ok && !old(run)@.other ==> (step.on_failure matches FailureModel::Otherwise(
                other,
                l,
            ) ==> end is None && final(run)@.call() == other && final(run)@.at == old(run)@.at)
            &&& !ok && old(run)@.other ==> (step.on_failure matches FailureModel::Otherwise(
                other,
                l,
            ) ==> (end matches Some(e) && e@ == EndModel::Failed(l)))
        }),
{
}

} // verus!
