//! Start and stop, fanned out over a list of targets.
//!
//! Every target is resolved against one inventory, the one in hand when
//! the dispatch begins, and gets one result, in the order of the targets.
//! A target that does not resolve, or whose instance is not in the state
//! that the transition starts from, is skipped and asks nothing of the
//! provider; the others are called one by one. No result of one target
//! hinders another.
//!
//! The calls themselves are made by the caller. A [`Dispatcher`] says which
//! call comes next and takes the provider's reply to it.

use crate::instance::{InstanceRecord, InstanceState, RecordView};
use crate::resolve::{
    copy_error, resolve, resolve_spec, ResolutionError, ResolutionErrorView,
};
use vstd::prelude::*;

verus! {

/// The change of state asked for.
#[derive(Clone, Copy, Debug, PartialEq, Eq, Structural)]
pub enum Transition {
    Start,
    Stop,
}

/// Why a target was passed over.
#[derive(Clone, Debug, PartialEq, Eq)]
pub enum SkipReason {
    /// The name did not resolve to one instance.
    Unresolved(ResolutionError),
    /// The instance is in this state, from which the transition does not
    /// start.
    NotEligible(InstanceState),
}

/// What a [`SkipReason`] holds, as plain values.
pub enum SkipReasonView {
    Unresolved(ResolutionErrorView),
    NotEligible(InstanceState),
}

impl View for SkipReason {
    type V = SkipReasonView;

    open spec fn view(&self) -> SkipReasonView {
        match *self {
            SkipReason::Unresolved(e) => SkipReasonView::Unresolved(e@),
            SkipReason::NotEligible(state) => SkipReasonView::NotEligible(state),
        }
    }
}

/// How a target fared.
#[derive(Clone, Debug, PartialEq, Eq)]
pub enum Outcome {
    /// The provider accepted the call.
    Succeeded,
    /// The provider refused the call, for this reason.
    Failed(String),
    /// No call was made.
    Skipped(SkipReason),
}

/// What an [`Outcome`] holds, as plain values.
pub enum OutcomeView {
    Succeeded,
    Failed(Seq<char>),
    Skipped(SkipReasonView),
}

impl View for Outcome {
    type V = OutcomeView;

    open spec fn view(&self) -> OutcomeView {
        match *self {
            Outcome::Succeeded => OutcomeView::Succeeded,
            Outcome::Failed(reason) => OutcomeView::Failed(reason@),
            Outcome::Skipped(reason) => OutcomeView::Skipped(reason@),
        }
    }
}

/// The result for one target. The id is empty where the name did not
/// resolve.
#[derive(Clone, Debug, PartialEq, Eq)]
pub struct OperationResult {
    pub instance_id: String,
    pub instance_name: String,
    pub requested_transition: Transition,
    pub outcome: Outcome,
}

/// What an [`OperationResult`] holds, as plain values.
pub struct ResultView {
    pub instance_id: Seq<char>,
    pub instance_name: Seq<char>,
    pub requested_transition: Transition,
    pub outcome: OutcomeView,
}

impl View for OperationResult {
    type V = ResultView;

    open spec fn view(&self) -> ResultView {
        ResultView {
            instance_id: self.instance_id@,
            instance_name: self.instance_name@,
            requested_transition: self.requested_transition,
            outcome: self.outcome@,
        }
    }
}

impl DeepView for OperationResult {
    type V = ResultView;

    open spec fn deep_view(&self) -> ResultView {
        self@
    }
}

/// What is to be done for one target.
#[derive(Clone, Debug, PartialEq, Eq)]
pub enum Step {
    /// Ask the provider for the transition of this instance.
    Call { instance_id: String, instance_name: String },
    /// Ask nothing, and report the reason.
    Skip { instance_id: String, instance_name: String, reason: SkipReason },
}

/// What a [`Step`] holds, as plain values.
pub enum StepView {
    Call { instance_id: Seq<char>, instance_name: Seq<char> },
    Skip { instance_id: Seq<char>, instance_name: Seq<char>, reason: SkipReasonView },
}

impl View for Step {
    type V = StepView;

    open spec fn view(&self) -> StepView {
        match *self {
            Step::Call { instance_id, instance_name } => StepView::Call {
                instance_id: instance_id@,
                instance_name: instance_name@,
            },
            Step::Skip { instance_id, instance_name, reason } => StepView::Skip {
                instance_id: instance_id@,
                instance_name: instance_name@,
                reason: reason@,
            },
        }
    }
}

impl DeepView for Step {
    type V = StepView;

    open spec fn deep_view(&self) -> StepView {
        self@
    }
}

/// One call to make to the provider.
#[derive(Clone, Debug, PartialEq, Eq)]
pub struct ProviderCall {
    pub transition: Transition,
    pub instance_id: String,
}

/// What the caller is to do next.
#[derive(Clone, Debug, PartialEq, Eq)]
pub enum Action {
    /// Make this call, and hand its reply to [`Dispatcher::record`].
    Call(ProviderCall),
    /// Nothing is left to do: every target has its result.
    Done,
}

/// What an [`Action`] holds, as plain values.
pub enum ActionView {
    Call { transition: Transition, instance_id: Seq<char> },
    Done,
}

impl View for Action {
    type V = ActionView;

    open spec fn view(&self) -> ActionView {
        match *self {
            Action::Call(call) => ActionView::Call {
                transition: call.transition,
                instance_id: call.instance_id@,
            },
            Action::Done => ActionView::Done,
        }
    }
}

/// The transition starts from this state: `Start` from `Stopped`, `Stop`
/// from `Running`.
pub open spec fn eligible(transition: Transition, state: InstanceState) -> bool {
    match transition {
        Transition::Start => state == InstanceState::Stopped,
        Transition::Stop => state == InstanceState::Running,
    }
}

/// What is to be done for the target `name`.
pub open spec fn step_spec(
    transition: Transition,
    name: Seq<char>,
    directory: Seq<RecordView>,
) -> StepView {
    match resolve_spec(name, directory) {
        Err(e) => StepView::Skip {
            instance_id: Seq::empty(),
            instance_name: name,
            reason: SkipReasonView::Unresolved(e),
        },
        Ok(record) => if eligible(transition, record.state) {
            StepView::Call { instance_id: record.id, instance_name: name }
        } else {
            StepView::Skip {
                instance_id: record.id,
                instance_name: name,
                reason: SkipReasonView::NotEligible(record.state),
            }
        },
    }
}

/// What is to be done for each of the targets, in their order.
pub open spec fn plan_spec(
    transition: Transition,
    targets: Seq<Seq<char>>,
    directory: Seq<RecordView>,
) -> Seq<StepView> {
    Seq::new(targets.len(), |k: int| step_spec(transition, targets[k], directory))
}

/// The result of a step that asks nothing of the provider.
pub open spec fn skipped_result(transition: Transition, step: StepView) -> ResultView
    recommends
        step is Skip,
{
    ResultView {
        instance_id: step->Skip_instance_id,
        instance_name: step->Skip_instance_name,
        requested_transition: transition,
        outcome: OutcomeView::Skipped(step->reason),
    }
}

/// The result of a call, given the provider's reply to it.
pub open spec fn called_result(
    transition: Transition,
    step: StepView,
    reply: Result<(), Seq<char>>,
) -> ResultView
    recommends
        step is Call,
{
    ResultView {
        instance_id: step->Call_instance_id,
        instance_name: step->Call_instance_name,
        requested_transition: transition,
        outcome: match reply {
            Ok(_) => OutcomeView::Succeeded,
            Err(reason) => OutcomeView::Failed(reason),
        },
    }
}

/// `result` is a result that `step` can end in: that of the skip, or that
/// of the call under some reply.
pub open spec fn settles(transition: Transition, step: StepView, result: ResultView) -> bool {
    match step {
        StepView::Skip { .. } => result == skipped_result(transition, step),
        StepView::Call { .. } => exists|reply: Result<(), Seq<char>>|
            result == #[trigger] called_result(transition, step, reply),
    }
}

/// The first step at or after `from` that is a call; the length of the
/// plan where there is none.
pub open spec fn next_call(plan: Seq<StepView>, from: int) -> int
    decreases plan.len() - from,
{
    if from < 0 || from >= plan.len() {
        plan.len() as int
    } else if plan[from] is Call {
        from
    } else {
        next_call(plan, from + 1)
    }
}

/// What is due at the step `at` of a plan, a call or the end of the plan:
/// that call, or `Done`.
pub open spec fn due_action(transition: Transition, plan: Seq<StepView>, at: int) -> ActionView {
    if 0 <= at < plan.len() {
        ActionView::Call { transition, instance_id: plan[at]->Call_instance_id }
    } else {
        ActionView::Done
    }
}

/// The results of the steps from `from` up to `upto`, all of them skips.
pub open spec fn skipped_results(
    transition: Transition,
    plan: Seq<StepView>,
    from: int,
    upto: int,
) -> Seq<ResultView> {
    Seq::new((upto - from) as nat, |j: int| skipped_result(transition, plan[from + j]))
}

/// The view of the provider's reply to a call.
pub open spec fn reply_view(reply: Result<(), String>) -> Result<(), Seq<char>> {
    match reply {
        Ok(_) => Ok(()),
        Err(reason) => Err(reason@),
    }
}

/// A dispatch under way, as plain values.
pub struct DispatcherView {
    pub transition: Transition,
    /// One step per target, in the order of the targets.
    pub plan: Seq<StepView>,
    /// The results so far: those of the first steps of the plan.
    pub results: Seq<ResultView>,
    /// A call was handed out, and its reply has not come in.
    pub awaiting: bool,
}

impl DispatcherView {
    /// Each result so far is one that its step can end in, and a reply is
    /// awaited only where the next step is a call.
    pub open spec fn consistent(self) -> bool {
        &&& self.results.len() <= self.plan.len()
        &&& forall|k: int|
            0 <= k < self.results.len() ==> settles(
                self.transition,
                #[trigger] self.plan[k],
                self.results[k],
            )
        &&& self.awaiting ==> self.results.len() < self.plan.len()
            && self.plan[self.results.len() as int] is Call
    }

    /// Every target has its result.
    pub open spec fn finished(self) -> bool {
        self.results.len() == self.plan.len()
    }
}

/// A dispatch under way: the plan for all targets, and the results so far.
#[derive(Debug)]
pub struct Dispatcher {
    transition: Transition,
    plan: Vec<Step>,
    results: Vec<OperationResult>,
    awaiting: bool,
}

impl View for Dispatcher {
    type V = DispatcherView;

    closed spec fn view(&self) -> DispatcherView {
        DispatcherView {
            transition: self.transition,
            plan: self.plan.deep_view(),
            results: self.results.deep_view(),
            awaiting: self.awaiting,
        }
    }
}

/// Whether the transition starts from the state.
pub fn is_eligible(transition: Transition, state: InstanceState) -> (r: bool)
    ensures
        r == eligible(transition, state),
{
    match transition {
        Transition::Start => match state {
            InstanceState::Stopped => true,
            _ => false,
        },
        Transition::Stop => match state {
            InstanceState::Running => true,
            _ => false,
        },
    }
}

/// What is to be done for the target `name`: a call where the name
/// resolves to one instance in the state that the transition starts from,
/// a skip with its reason otherwise.
pub fn decide(transition: Transition, name: &str, directory: &Vec<InstanceRecord>) -> (step: Step)
    ensures
        step@ == step_spec(transition, name@, directory.deep_view()),
{
    match resolve(name, directory) {
        Err(e) => Step::Skip {
            instance_id: String::new(),
            instance_name: name.to_owned(),
            reason: SkipReason::Unresolved(e),
        },
        Ok(record) => {
            if is_eligible(transition, record.state) {
                Step::Call { instance_id: record.id.clone(), instance_name: name.to_owned() }
            } else {
                Step::Skip {
                    instance_id: record.id.clone(),
                    instance_name: name.to_owned(),
                    reason: SkipReason::NotEligible(record.state),
                }
            }
        },
    }
}

/// A copy of a skip reason.
pub fn copy_reason(reason: &SkipReason) -> (r: SkipReason)
    ensures
        r@ == reason@,
{
    match reason {
        SkipReason::Unresolved(e) => SkipReason::Unresolved(copy_error(e)),
        SkipReason::NotEligible(state) => SkipReason::NotEligible(*state),
    }
}

impl Dispatcher {
    /// The dispatch is consistent: see [`DispatcherView::consistent`].
    pub open spec fn wf(&self) -> bool {
        self@.consistent()
    }

    /// Begins a dispatch of `transition` over `targets`: every target is
    /// resolved against `directory` now, and never again.
    pub fn begin(
        transition: Transition,
        targets: &Vec<String>,
        directory: &Vec<InstanceRecord>,
    ) -> (d: Dispatcher)
        ensures
            d.wf(),
            d@.transition == transition,
            d@.plan == plan_spec(transition, targets.deep_view(), directory.deep_view()),
            d@.results == Seq::<ResultView>::empty(),
            !d@.awaiting,
    {
        let mut plan: Vec<Step> = Vec::new();
        let mut i: usize = 0;
        while i < targets.len()
            invariant
                i <= targets.len(),
                plan.len() == i,
                forall|k: int|
                    0 <= k < i ==> (#[trigger] plan[k])@ == step_spec(
                        transition,
                        targets[k]@,
                        directory.deep_view(),
                    ),
            decreases targets.len() - i,
        {
            let step = decide(transition, targets[i].as_str(), directory);
            plan.push(step);
            i = i + 1;
        }
        let d = Dispatcher { transition, plan, results: Vec::new(), awaiting: false };
        proof {
            assert(d@.plan =~= plan_spec(
                transition,
                targets.deep_view(),
                directory.deep_view(),
            ));
            assert(d@.results =~= Seq::<ResultView>::empty());
        }
        d
    }

    /// Whether a call was handed out whose reply has not come in.
    pub fn awaits_reply(&self) -> (r: bool)
        ensures
            r == self@.awaiting,
    {
        self.awaiting
    }

    /// Whether every target has its result.
    pub fn finished(&self) -> (r: bool)
        ensures
            r == self@.finished(),
    {
        self.results.len() == self.plan.len()
    }

    /// Says what to do next. The steps up to the next call are skips: their
    /// results are recorded. Where a call comes next, it is handed out,
    /// and handed out again by every poll until its reply is recorded;
    /// where none is left, every target has its result.
    pub fn poll(&mut self) -> (action: Action)
        requires
            old(self).wf(),
        ensures
            final(self).wf(),
            final(self)@.transition == old(self)@.transition,
            final(self)@.plan == old(self)@.plan,
            final(self)@.results == old(self)@.results + skipped_results(
                old(self)@.transition,
                old(self)@.plan,
                old(self)@.results.len() as int,
                next_call(old(self)@.plan, old(self)@.results.len() as int),
            ),
            final(self)@.results.len() == next_call(
                old(self)@.plan,
                old(self)@.results.len() as int,
            ),
            action@ == due_action(
                old(self)@.transition,
                old(self)@.plan,
                next_call(old(self)@.plan, old(self)@.results.len() as int),
            ),
            final(self)@.awaiting == !final(self)@.finished(),
    {
        let ghost plan = self@.plan;
        let ghost start = self@.results.len() as int;
        let ghost before = self@.results;
        proof {
            assert(before + skipped_results(self.transition, plan, start, start) =~= before);
        }
        loop
            invariant
                self.wf(),
                self@.plan == plan,
                self@.transition == old(self)@.transition,
                before == old(self)@.results,
                plan == old(self)@.plan,
                start == before.len(),
                start <= self@.results.len() <= plan.len(),
                next_call(plan, start) == next_call(plan, self@.results.len() as int),
                self@.results == before + skipped_results(
                    self.transition,
                    plan,
                    start,
                    self@.results.len() as int,
                ),
            decreases plan.len() - self@.results.len(),
        {
            let at = self.results.len();
            if at >= self.plan.len() {
                return Action::Done;
            }
            assert(plan[at as int] == self.plan[at as int]@);
            match &self.plan[at] {
                Step::Call { instance_id, instance_name: _ } => {
                    let call = ProviderCall {
                        transition: self.transition,
                        instance_id: instance_id.clone(),
                    };
                    self.awaiting = true;
                    return Action::Call(call);
                },
                Step::Skip { instance_id, instance_name, reason } => {
                    let result = OperationResult {
                        instance_id: instance_id.clone(),
                        instance_name: instance_name.clone(),
                        requested_transition: self.transition,
                        outcome: Outcome::Skipped(copy_reason(reason)),
                    };
                    let ghost sofar = self@.results;
                    self.results.push(result);
                    proof {
                        assert(result@ == skipped_result(self.transition, plan[at as int]));
                        assert(self@.results =~= sofar.push(result@));
                        assert(self@.results =~= before + skipped_results(
                            self.transition,
                            plan,
                            start,
                            at + 1,
                        ));
                    }
                },
            }
        }
    }

    /// Takes the provider's reply to the call that [`Dispatcher::poll`]
    /// handed out: the target succeeded, or failed with the reason that
    /// the provider gave. A reply can be recorded only for a call that was
    /// handed out, and once.
    pub fn record(&mut self, reply: Result<(), String>)
        requires
            old(self).wf(),
            old(self)@.awaiting,
        ensures
            final(self).wf(),
            !final(self)@.awaiting,
            final(self)@.transition == old(self)@.transition,
            final(self)@.plan == old(self)@.plan,
            final(self)@.results == old(self)@.results.push(
                called_result(
                    old(self)@.transition,
                    old(self)@.plan[old(self)@.results.len() as int],
                    reply_view(reply),
                ),
            ),
    {
        let at = self.results.len();
        let ghost step = self@.plan[at as int];
        assert(step == self.plan[at as int]@);
        let ghost sofar = self@.results;
        match &self.plan[at] {
            Step::Call { instance_id, instance_name } => {
                let outcome = match reply {
                    Ok(_) => Outcome::Succeeded,
                    Err(reason) => Outcome::Failed(reason),
                };
                let result = OperationResult {
                    instance_id: instance_id.clone(),
                    instance_name: instance_name.clone(),
                    requested_transition: self.transition,
                    outcome,
                };
                self.results.push(result);
                self.awaiting = false;
                proof {
                    assert(result@ == called_result(self.transition, step, reply_view(reply)));
                    assert(self@.results =~= sofar.push(result@));
                }
            },
            Step::Skip { .. } => {},
        }
    }

    /// The results so far, in the order of the targets.
    pub fn results(&self) -> (r: &Vec<OperationResult>)
        ensures
            r.deep_view() == self@.results,
    {
        &self.results
    }

    /// The plan: one step per target, in the order of the targets.
    pub fn plan(&self) -> (r: &Vec<Step>)
        ensures
            r.deep_view() == self@.plan,
    {
        &self.plan
    }

    /// Ends the dispatch and hands out its results.
    pub fn into_results(self) -> (r: Vec<OperationResult>)
        ensures
            r.deep_view() == self@.results,
    {
        self.results
    }
}

} // verus!

verus! {

/// A dispatch runs to its end whatever the single targets come to: once
/// it has finished there is one result per target, in the order of the
/// targets, and the result of each is one that this target's own step can
/// end in. A target that does not resolve is reported as skipped, with
/// the resolver's error, and takes nothing from the others.
pub proof fn lemma_every_target_reported(
    dispatch: DispatcherView,
    targets: Seq<Seq<char>>,
    directory: Seq<RecordView>,
)
    requires
        dispatch.consistent(),
        dispatch.finished(),
        dispatch.plan == plan_spec(dispatch.transition, targets, directory),
    ensures
        dispatch.results.len() == targets.len(),
        forall|k: int|
            0 <= k < targets.len() ==> settles(
                dispatch.transition,
                step_spec(dispatch.transition, #[trigger] targets[k], directory),
                dispatch.results[k],
            ),
        forall|k: int|
            0 <= k < targets.len() && resolve_spec(#[trigger] targets[k], directory) is Err
                ==> dispatch.results[k].outcome == OutcomeView::Skipped(
                SkipReasonView::Unresolved(resolve_spec(targets[k], directory)->Err_0),
            ),
        forall|k: int|
            0 <= k < targets.len() ==> dispatch.results[k].instance_name == #[trigger] targets[k]
                && dispatch.results[k].requested_transition == dispatch.transition,
{
    assert forall|k: int| 0 <= k < targets.len() implies settles(
        dispatch.transition,
        step_spec(dispatch.transition, #[trigger] targets[k], directory),
        dispatch.results[k],
    ) by {
        assert(dispatch.plan[k] == step_spec(dispatch.transition, targets[k], directory));
    }
}

/// To stop an instance that is stopped already is no failure and asks
/// nothing of the provider: the step for it is a skip, the one result it
/// can end in is `Skipped`, and a dispatch over this one target has no
/// call to make, so that its first poll says `Done`.
pub proof fn lemma_stop_of_stopped_is_skipped(name: Seq<char>, directory: Seq<RecordView>)
    requires
        resolve_spec(name, directory) is Ok,
        resolve_spec(name, directory)->Ok_0.state == InstanceState::Stopped,
    ensures
        step_spec(Transition::Stop, name, directory) is Skip,
        forall|result: ResultView| #[trigger]
            settles(Transition::Stop, step_spec(Transition::Stop, name, directory), result)
                ==> result.outcome == OutcomeView::Skipped(
                SkipReasonView::NotEligible(InstanceState::Stopped),
            ),
        next_call(plan_spec(Transition::Stop, seq![name], directory), 0) == 1,
        due_action(
            Transition::Stop,
            plan_spec(Transition::Stop, seq![name], directory),
            next_call(plan_spec(Transition::Stop, seq![name], directory), 0),
        ) == ActionView::Done,
{
    let plan = plan_spec(Transition::Stop, seq![name], directory);
    assert(plan[0] == step_spec(Transition::Stop, name, directory));
    assert(next_call(plan, 1) == 1);
}

/// A step that is a skip never turns into a call: from any position, the
/// next call of a plan is at a step that is a call, or there is none.
pub proof fn lemma_next_call_is_call(plan: Seq<StepView>, from: int)
    requires
        0 <= from <= plan.len(),
    ensures
        from <= next_call(plan, from) <= plan.len(),
        next_call(plan, from) < plan.len() ==> plan[next_call(plan, from)] is Call,
        forall|k: int| from <= k < next_call(plan, from) ==> (#[trigger] plan[k]) is Skip,
    decreases plan.len() - from,
{
    if from < plan.len() && !(plan[from] is Call) {
        lemma_next_call_is_call(plan, from + 1);
    }
}

} // verus!
