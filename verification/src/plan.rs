//! What the TLS engine is asked to do: calls, in order, each with what its
//! failure means.

use vstd::prelude::*;

verus! {

/// A function of the TLS engine, or of the tables that its callbacks consult.
#[derive(Debug, Clone, Copy, PartialEq, Eq, Structural)]
pub enum Function {
    // on a context
    /// `SSL_CTX_new` with the client or server method; the flag is true for a
    /// server.
    NewContext,
    /// `SSL_CTX_set_min_proto_version`.
    SetMinVersion,
    /// `SSL_CTX_set_max_proto_version`.
    SetMaxVersion,
    /// `SSL_CTX_set_verify` without a callback.
    SetVerify,
    /// `SSL_CTX_clear_mode` of `SSL_MODE_AUTO_RETRY`.
    ClearAutoRetry,
    /// `SSL_CTX_set_select_certificate_cb` with the capture callback.
    InstallCapture,
    /// `SSL_CTX_set_alpn_select_cb` with the selection callback.
    InstallAlpnSelection,
    /// `SSL_CTX_set_tlsext_servername_callback` with the dispatch callback.
    InstallSniDispatch,
    /// `SSL_CTX_set_alpn_protos`.
    SetContextAlpn,
    /// `SSL_CTX_set_cipher_list`.
    SetContextCiphers,
    /// `SSL_CTX_set_session_id_context`.
    SetSessionIdContext,
    /// `SSL_CTX_set1_curves_list`.
    SetCurves,
    /// `SSL_CTX_set_num_tickets`.
    SetNumTickets,
    /// `SSL_CTX_get0_param`, which fails by returning nothing.
    GetContextParam,
    /// `X509_VERIFY_PARAM_clear_flags` on the parameters got last.
    ClearVerifyFlags,
    /// `X509_VERIFY_PARAM_set_flags` on the parameters got last.
    SetVerifyFlags,
    /// `SSL_CTX_set_keylog_callback`; the flag is false to take it out.
    SetKeylogCallback,
    /// `SSL_CTX_load_verify_locations`.
    LoadVerifyLocations,
    /// `d2i_X509`.
    ParseCertificate,
    /// `X509_STORE_add_cert` of the certificate just read.
    AddToStore,
    // on a connection
    /// `SSL_new`.
    NewConnection,
    /// `SSL_new` for a connection that settings are tried on and that is freed
    /// once the plan has ended.
    NewTrial,
    /// `SSL_set_verify` without a callback.
    SetConnectionVerify,
    /// `SSL_set_min_proto_version`.
    SetConnectionMinVersion,
    /// `SSL_set_max_proto_version`.
    SetConnectionMaxVersion,
    /// `SSL_set_session_id_context`.
    SetConnectionIdContext,
    /// `SSL_get0_param`, which fails by returning nothing.
    GetConnectionParam,
    /// `SSL_set_SSL_CTX` with the connection's private context.
    AttachPrivateContext,
    /// `SSL_set_bio` with both memory buffers.
    SetBio,
    /// `SSL_set_accept_state`.
    SetAcceptState,
    /// `SSL_set_connect_state`.
    SetConnectState,
    /// Gives the connection a slot for the captured ClientHello.
    AttachCaptureSlot,
    /// `SSL_set_tlsext_host_name`.
    SetServerName,
    /// `X509_VERIFY_PARAM_set1_ip_asc` on the connection.
    ExpectIp,
    /// `SSL_set1_host`.
    ExpectHost,
    /// `X509_VERIFY_PARAM_set_hostflags` on the connection.
    SetHostFlags,
    /// `SSL_set_session`.
    SetSession,
    /// `SSL_set_cipher_list`.
    SetCiphers,
    /// `SSL_set1_groups_list`.
    SetGroups,
    /// `SSL_set_verify_algorithm_prefs`.
    SetVerifyAlgorithms,
    /// `SSL_set_alpn_protos`.
    SetAlpn,
    /// `SSL_get_SSL_CTX`, which fails by returning nothing.
    GetContext,
    /// `SSL_CTX_add_cert_compression_alg` with the library's decompression.
    AddCompression,
    /// `SSL_enable_ocsp_stapling`.
    EnableOcsp,
    /// `SSL_enable_signed_cert_timestamps`.
    EnableTimestamps,
    /// `SSL_CTX_set_grease_enabled` on the private context.
    SetGrease,
    /// `SSL_CTX_set_grease_sigalgs_enabled` on the private context.
    SetGreaseSigalgs,
    /// `SSL_set_permute_extensions`.
    SetPermuteExtensions,
    /// `SSL_set1_client_key_shares`.
    SetKeyShares,
    /// `SSL_set_alps_use_new_codepoint`.
    SetAlpsCodepoint,
    /// `SSL_add_application_settings` without settings.
    AddAlps,
    /// `SSL_set_enable_ech_grease`.
    SetEchGrease,
    /// `SSL_set1_ech_config_list`.
    SetEchConfig,
    /// `SSL_set1_requested_trust_anchors`.
    SetTrustAnchors,
    // on a private context, from the context it is made for
    /// `X509_STORE_up_ref` of the store.
    ShareStore,
    /// `SSL_CTX_set_cert_store`.
    SetStore,
    /// `X509_VERIFY_PARAM_set1`.
    CopyParam,
    /// `SSL_CTX_use_certificate` with the other context's certificate.
    CopyCertificate,
    /// `SSL_CTX_use_PrivateKey` with the other context's key.
    CopyKey,
    /// `SSL_CTX_get0_chain_certs`.
    GetChain,
    /// `SSL_CTX_set1_chain`.
    CopyChain,
    /// Hands the other context's key-log writer on.
    CopyKeylog,
    /// Hands the other context's SNI dispatcher on, where it has one.
    CopySni,
    // on the tables that callbacks consult
    /// Records the protocols that the selection callback prefers for the
    /// connections of a context.
    RegisterAlpn,
    /// Records the protocols that it prefers for one connection.
    RegisterConnectionAlpn,
    /// Records the key-log writer, or forgets it where the flag is false.
    RegisterKeylog,
    /// Records the key-log writer of one connection, or that it has none where
    /// the flag is false.
    RegisterConnectionKeylog,
    /// Records the SNI dispatcher, or forgets it where the flag is false.
    RegisterSni,
    /// Records the SNI dispatcher of one connection, or that it has none where
    /// the flag is false.
    RegisterConnectionSni,
}

/// What a call is given besides the handle.
#[derive(Debug)]
pub enum Argument {
    Nothing,
    Flag(bool),
    Number(u64),
    Text(String),
    Bytes(Vec<u8>),
    Codes(Vec<u16>),
    Names(Vec<Vec<u8>>),
    Paths(Option<String>, Option<String>),
}

/// The mathematical content of an [`Argument`].
pub enum ArgumentModel {
    Nothing,
    Flag(bool),
    Number(u64),
    Text(Seq<char>),
    Bytes(Seq<u8>),
    Codes(Seq<u16>),
    Names(Seq<Seq<u8>>),
    Paths(Option<Seq<char>>, Option<Seq<char>>),
}

/// The content of an optional text.
pub open spec fn opt_text(t: Option<String>) -> Option<Seq<char>> {
    match t {
        Some(s) => Some(s@),
        None => None,
    }
}

/// The contents of each byte string of `v`.
pub open spec fn byte_strings(v: Seq<Vec<u8>>) -> Seq<Seq<u8>> {
    v.map_values(|b: Vec<u8>| b@)
}

impl View for Argument {
    type V = ArgumentModel;

    open spec fn view(&self) -> ArgumentModel {
        match *self {
            Argument::Nothing => ArgumentModel::Nothing,
            Argument::Flag(b) => ArgumentModel::Flag(b),
            Argument::Number(n) => ArgumentModel::Number(n),
            Argument::Text(s) => ArgumentModel::Text(s@),
            Argument::Bytes(b) => ArgumentModel::Bytes(b@),
            Argument::Codes(c) => ArgumentModel::Codes(c@),
            Argument::Names(n) => ArgumentModel::Names(byte_strings(n@)),
            Argument::Paths(a, b) => ArgumentModel::Paths(opt_text(a), opt_text(b)),
        }
    }
}

/// One call.
#[derive(Debug)]
pub struct Call {
    pub function: Function,
    pub argument: Argument,
}

/// The mathematical content of a [`Call`].
pub struct CallModel {
    pub function: Function,
    pub argument: ArgumentModel,
}

impl View for Call {
    type V = CallModel;

    open spec fn view(&self) -> CallModel {
        CallModel { function: self.function, argument: self.argument@ }
    }
}

/// What the failure of a call means.
#[derive(Debug)]
pub enum OnFailure {
    /// Nothing: the call has no result, or its result does not matter.
    Ignore,
    /// Nothing, but one error is taken off the engine's error queue.
    Drain,
    /// The engine's error queue is reported under this label.
    Report(&'static str),
    /// A usage error with this text.
    Refuse(&'static str),
    /// The other call is made instead; where that fails too, the engine's
    /// error queue is reported under this label.
    Otherwise(Call, &'static str),
}

/// The mathematical content of an [`OnFailure`].
pub enum FailureModel {
    Ignore,
    Drain,
    Report(Seq<char>),
    Refuse(Seq<char>),
    Otherwise(CallModel, Seq<char>),
}

impl View for OnFailure {
    type V = FailureModel;

    open spec fn view(&self) -> FailureModel {
        match *self {
            OnFailure::Ignore => FailureModel::Ignore,
            OnFailure::Drain => FailureModel::Drain,
            OnFailure::Report(l) => FailureModel::Report(l@),
            OnFailure::Refuse(t) => FailureModel::Refuse(t@),
            OnFailure::Otherwise(c, l) => FailureModel::Otherwise(c@, l@),
        }
    }
}

/// One call of a plan.
#[derive(Debug)]
pub struct Step {
    pub call: Call,
    pub on_failure: OnFailure,
}

/// The mathematical content of a [`Step`].
pub struct StepModel {
    pub call: CallModel,
    pub on_failure: FailureModel,
}

impl View for Step {
    type V = StepModel;

    open spec fn view(&self) -> StepModel {
        StepModel { call: self.call@, on_failure: self.on_failure@ }
    }
}

/// The contents of the steps of `v`.
pub open spec fn steps_view(v: Seq<Step>) -> Seq<StepModel> {
    v.map_values(|s: Step| s@)
}

/// Calls to make in order. Where there is a refusal, it is a usage error that
/// comes once all calls have been made.
#[derive(Debug)]
pub struct Plan {
    pub steps: Vec<Step>,
    pub refusal: Option<String>,
}

/// The mathematical content of a [`Plan`].
pub struct PlanModel {
    pub steps: Seq<StepModel>,
    pub refusal: Option<Seq<char>>,
}

impl View for Plan {
    type V = PlanModel;

    open spec fn view(&self) -> PlanModel {
        PlanModel { steps: steps_view(self.steps@), refusal: opt_text(self.refusal) }
    }
}

/// The plan that makes the given calls.
pub open spec fn plan_of(steps: Seq<StepModel>) -> PlanModel {
    PlanModel { steps, refusal: None }
}

/// The plan that makes no call and refuses.
pub open spec fn refused(text: Seq<char>) -> PlanModel {
    PlanModel { steps: seq![], refusal: Some(text) }
}

/// A call whose result does not matter.
pub open spec fn ignoring(function: Function, argument: ArgumentModel) -> StepModel {
    StepModel { call: CallModel { function, argument }, on_failure: FailureModel::Ignore }
}

/// A call whose failure is reported under a label.
pub open spec fn reporting(
    function: Function,
    argument: ArgumentModel,
    label: Seq<char>,
) -> StepModel {
    StepModel { call: CallModel { function, argument }, on_failure: FailureModel::Report(label) }
}

/// A list of at most one step.
pub open spec fn step_if(there: bool, step: StepModel) -> Seq<StepModel> {
    if there {
        seq![step]
    } else {
        seq![]
    }
}

impl PlanModel {
    /// This plan with one more call.
    pub open spec fn and(self, step: StepModel) -> PlanModel {
        PlanModel { steps: self.steps.push(step), ..self }
    }

    /// This plan and, unless it refuses, the next one after it.
    pub open spec fn followed_by(self, next: PlanModel) -> PlanModel {
        if self.refusal is Some {
            self
        } else {
            PlanModel { steps: self.steps + next.steps, refusal: next.refusal }
        }
    }
}

impl Plan {
    /// A plan without calls.
    pub(crate) fn new() -> (r: Self)
        ensures
            r@ == plan_of(seq![]),
    {
        let r = Plan { steps: Vec::new(), refusal: None };
        assert(r@.steps =~= seq![]);
        r
    }

    /// A plan that makes no call and refuses.
    pub(crate) fn refusing(text: String) -> (r: Self)
        ensures
            r@ == refused(text@),
    {
        let r = Plan { steps: Vec::new(), refusal: Some(text) };
        assert(r@.steps =~= seq![]);
        r
    }

    /// Adds a call.
    pub(crate) fn add_step(&mut self, function: Function, argument: Argument, on_failure: OnFailure)
        ensures
            final(self)@ == old(self)@.and(
                StepModel {
                    call: CallModel { function, argument: argument@ },
                    on_failure: on_failure@,
                },
            ),
    {
        self.steps.push(Step { call: Call { function, argument }, on_failure });
        assert(self@.steps =~= old(self)@.steps.push(self.steps@.last()@));
    }

    /// Adds a call whose result does not matter.
    pub(crate) fn ignore(&mut self, function: Function, argument: Argument)
        ensures
            final(self)@ == old(self)@.and(ignoring(function, argument@)),
    {
        self.add_step(function, argument, OnFailure::Ignore);
    }

    /// Adds a call whose failure is reported under a label.
    pub(crate) fn report(&mut self, function: Function, argument: Argument, label: &'static str)
        ensures
            final(self)@ == old(self)@.and(reporting(function, argument@, label@)),
    {
        self.add_step(function, argument, OnFailure::Report(label));
    }

    /// Puts another plan behind this one, unless this one refuses.
    pub(crate) fn follow(&mut self, next: Plan)
        ensures
            final(self)@ == old(self)@.followed_by(next@),
    {
        if self.refusal.is_none() {
            let ghost whole = next@;
            let Plan { mut steps, refusal } = next;
            self.steps.append(&mut steps);
            self.refusal = refusal;
            assert(self@.steps =~= old(self)@.followed_by(whole).steps);
        }
    }
}

// ------------------------------------------------------------ carrying out

/// How a plan ended.
#[derive(Debug, PartialEq, Eq)]
pub enum End {
    /// Every call was made and none failed for good.
    Done,
    /// A call failed; the engine's error queue is reported under this label.
    Failed(&'static str),
    /// A usage error with this text.
    Refused(String),
}

/// The mathematical content of an [`End`].
pub enum EndModel {
    Done,
    Failed(Seq<char>),
    Refused(Seq<char>),
}

impl View for End {
    type V = EndModel;

    open spec fn view(&self) -> EndModel {
        match *self {
            End::Done => EndModel::Done,
            End::Failed(l) => EndModel::Failed(l@),
            End::Refused(t) => EndModel::Refused(t@),
        }
    }
}

/// A plan that is being carried out.
#[derive(Debug)]
pub struct Run {
    plan: Plan,
    at: usize,
    /// Whether the other call of the current step is to be made.
    other: bool,
    stopped: Option<End>,
}

/// Where carrying out a plan stands.
pub struct RunModel {
    pub plan: PlanModel,
    pub at: nat,
    pub other: bool,
    pub stopped: Option<EndModel>,
}

impl View for Run {
    type V = RunModel;

    closed spec fn view(&self) -> RunModel {
        RunModel {
            plan: self.plan@,
            at: self.at as nat,
            other: self.other,
            stopped: match self.stopped {
                Some(e) => Some(e@),
                None => None,
            },
        }
    }
}

impl RunModel {
    /// Whether this is a state in which a plan can be.
    pub open spec fn is_proper(self) -> bool {
        &&& self.at <= self.plan.steps.len()
        &&& self.other ==> self.at < self.plan.steps.len()
            && self.plan.steps[self.at as int].on_failure is Otherwise
    }

    /// The plan before its first call.
    pub open spec fn start(plan: PlanModel) -> RunModel {
        RunModel { plan, at: 0, other: false, stopped: None }
    }

    /// How the plan ended, if it has.
    pub open spec fn end(self) -> Option<EndModel> {
        if self.stopped is Some {
            self.stopped
        } else if self.at < self.plan.steps.len() {
            None
        } else {
            match self.plan.refusal {
                Some(t) => Some(EndModel::Refused(t)),
                None => Some(EndModel::Done),
            }
        }
    }

    /// The step that is due.
    pub open spec fn step(self) -> StepModel {
        self.plan.steps[self.at as int]
    }

    /// The call that is due.
    pub open spec fn call(self) -> CallModel {
        match self.step().on_failure {
            FailureModel::Otherwise(other, _) if self.other => other,
            _ => self.step().call,
        }
    }

    /// The state after the due call, and whether it succeeded.
    pub open spec fn after(self, ok: bool) -> RunModel {
        let next = RunModel { at: self.at + 1, other: false, ..self };
        if ok {
            next
        } else {
            match self.step().on_failure {
                FailureModel::Ignore => next,
                FailureModel::Drain => next,
                FailureModel::Report(l) => RunModel { stopped: Some(EndModel::Failed(l)), ..self },
                FailureModel::Refuse(t) => RunModel { stopped: Some(EndModel::Refused(t)), ..self },
                FailureModel::Otherwise(_, l) => if self.other {
                    RunModel { stopped: Some(EndModel::Failed(l)), ..self }
                } else {
                    RunModel { other: true, ..self }
                },
            }
        }
    }

    /// The state after calls with the given results, as far as calls are due.
    pub open spec fn answered(self, results: Seq<bool>) -> RunModel
        decreases results.len(),
    {
        if results.len() == 0 || self.end() is Some {
            self
        } else {
            self.after(results[0]).answered(results.drop_first())
        }
    }
}

impl Run {
    #[verifier::type_invariant]
    closed spec fn is_proper(self) -> bool {
        self@.is_proper()
    }

    /// Starts a plan.
    pub fn new(plan: Plan) -> (r: Self)
        ensures
            r@ == RunModel::start(plan@),
    {
        Run { plan, at: 0, other: false, stopped: None }
    }

    /// How the plan ended, if it has.
    pub fn end(&self) -> (r: Option<End>)
        ensures
            match self@.end() {
                Some(m) => r matches Some(e) && e@ == m,
                None => r is None,
            },
    {
        match &self.stopped {
            Some(End::Done) => Some(End::Done),
            Some(End::Failed(l)) => Some(End::Failed(*l)),
            Some(End::Refused(t)) => Some(End::Refused(t.clone())),
            None => if self.at < self.plan.steps.len() {
                None
            } else {
                match &self.plan.refusal {
                    Some(t) => Some(End::Refused(t.clone())),
                    None => Some(End::Done),
                }
            },
        }
    }

    /// The call to make next.
    pub fn call(&self) -> (r: &Call)
        requires
            self@.end() is None,
        ensures
            r@ == self@.call(),
    {
        let step = &self.plan.steps[self.at];
        match &step.on_failure {
            OnFailure::Otherwise(other, _) => if self.other {
                other
            } else {
                &step.call
            },
            _ => &step.call,
        }
    }

    /// Takes note of whether the call succeeded. The result says whether one
    /// error is to be taken off the engine's error queue.
    pub fn answer(&mut self, ok: bool) -> (drain: bool)
        requires
            old(self)@.end() is None,
        ensures
            final(self)@ == old(self)@.after(ok),
            drain == (!ok && old(self)@.step().on_failure is Drain),
    {
        proof {
            use_type_invariant(&*self);
        }
        let mut stopped: Option<End> = None;
        let mut other = false;
        let mut drain = false;
        if !ok {
            match &self.plan.steps[self.at].on_failure {
                OnFailure::Ignore => {},
                OnFailure::Drain => {
                    drain = true;
                },
                OnFailure::Report(l) => {
                    stopped = Some(End::Failed(*l));
                },
                OnFailure::Refuse(t) => {
                    stopped = Some(End::Refused((*t).to_owned()));
                },
                OnFailure::Otherwise(_, l) => {
                    if self.other {
                        stopped = Some(End::Failed(*l));
                    } else {
                        other = true;
                    }
                },
            }
        }
        if stopped.is_some() {
            self.stopped = stopped;
        } else if other {
            self.other = true;
        } else {
            self.other = false;
            assert(self.at < self.plan.steps.len());
            self.at = self.at + 1;
        }
        drain
    }
}

/// While every call succeeds, the calls of the plan are made in order, each
/// once, and the plan then ends as it says: done, or refused.
pub proof fn law_success_makes_every_call(plan: PlanModel, n: nat)
    requires
        n <= plan.steps.len(),
    ensures
        RunModel::start(plan).answered(Seq::new(n, |i: int| true)) == (RunModel {
            plan,
            at: n,
            other: false,
            stopped: None,
        }),
        n < plan.steps.len() ==> RunModel::start(plan).answered(Seq::new(n, |i: int| true)).call()
            == plan.steps[n as int].call,
{
    lemma_success_from(RunModel::start(plan), n);
    let s = RunModel::start(plan).answered(Seq::new(n, |i: int| true));
    if n < plan.steps.len() {
        assert(s.call() == plan.steps[n as int].call);
    }
}

proof fn lemma_success_from(s: RunModel, n: nat)
    requires
        !s.other,
        s.stopped is None,
        s.at + n <= s.plan.steps.len(),
    ensures
        s.answered(Seq::new(n, |i: int| true)) == (RunModel { at: s.at + n, ..s }),
    decreases n,
{
    let results = Seq::new(n, |i: int| true);
    if n > 0 {
        lemma_success_from(s.after(true), (n - 1) as nat);
        assert(results.drop_first() =~= Seq::new((n - 1) as nat, |i: int| true));
    }
}

/// A failed call that is not to be ignored ends the plan at once, with what
/// that call's failure means; no later call is made. A call with an
/// alternative gives that one chance.
pub proof fn law_failure_stops(s: RunModel, later: Seq<bool>)
    requires
        s.is_proper(),
        s.end() is None,
    ensures
        s.step().on_failure matches FailureModel::Report(l) ==> s.after(false).answered(later).end()
            == Some(EndModel::Failed(l)),
        s.step().on_failure matches FailureModel::Refuse(t) ==> s.after(false).answered(later).end()
            == Some(EndModel::Refused(t)),
        s.step().on_failure matches FailureModel::Otherwise(other, l) ==> {
            if s.other {
                s.after(false).answered(later).end() == Some(EndModel::Failed(l))
            } else {
                s.after(false).end() is None && s.after(false).call() == other
            }
        },
{
}

/// How many calls can still be made.
pub open spec fn budget(s: RunModel) -> int {
    2 * (s.plan.steps.len() - s.at) - if s.other {
        1int
    } else {
        0
    }
}

/// Every plan ends after at most two calls per step, whatever the calls
/// return.
pub proof fn law_plans_end(s: RunModel, results: Seq<bool>)
    requires
        s.is_proper(),
        results.len() >= budget(s),
    ensures
        s.answered(results).end() is Some,
    decreases results.len(),
{
    if s.end() is None {
        let next = s.after(results[0]);
        assert(next.is_proper());
        if next.end() is None {
            law_plans_end(next, results.drop_first());
        } else {
            assert(next.answered(results.drop_first()) == next);
        }
    }
}

/// What the last call of a function among `steps` is given, if there is one.
pub open spec fn last_argument(steps: Seq<StepModel>, function: Function) -> Option<ArgumentModel>
    decreases steps.len(),
{
    if steps.len() == 0 {
        None
    } else if steps.last().call.function == function {
        Some(steps.last().call.argument)
    } else {
        last_argument(steps.drop_last(), function)
    }
}

/// Where every call of a function is given the same, that is what the last one
/// is given.
pub proof fn lemma_last_argument(
    steps: Seq<StepModel>,
    function: Function,
    argument: ArgumentModel,
    at: int,
)
    requires
        0 <= at < steps.len(),
        steps[at].call.function == function,
        every(
            steps,
            |x: StepModel| x.call.function == function ==> x.call.argument == argument,
        ),
    ensures
        last_argument(steps, function) == Some(argument),
    decreases steps.len(),
{
    let p = |x: StepModel| x.call.function == function ==> x.call.argument == argument;
    assert(p(steps.last()));
    if steps.last().call.function != function {
        let rest = steps.drop_last();
        assert forall|i: int| 0 <= i < rest.len() implies p(#[trigger] rest[i]) by {
            assert(rest[i] == steps[i]);
        }
        lemma_last_argument(rest, function, argument, at);
    }
}

/// Where no step calls a function, none is the last to call it.
pub proof fn lemma_no_argument(steps: Seq<StepModel>, function: Function)
    requires
        every(steps, |x: StepModel| x.call.function != function),
    ensures
        last_argument(steps, function) is None,
    decreases steps.len(),
{
    let p = |x: StepModel| x.call.function != function;
    if steps.len() > 0 {
        assert(p(steps.last()));
        let rest = steps.drop_last();
        assert forall|i: int| 0 <= i < rest.len() implies p(#[trigger] rest[i]) by {
            assert(rest[i] == steps[i]);
        }
        lemma_no_argument(rest, function);
    }
}

/// Whether every call of a function is given `argument`, and none is made where
/// there is no argument.
pub open spec fn gives(function: Function, argument: Option<ArgumentModel>) -> spec_fn(
    StepModel,
) -> bool {
    |x: StepModel| x.call.function == function ==> Some(x.call.argument) == argument
}

/// Where every call of a function is given the same, and there is one exactly
/// where something is to be given, that is what the last one is given.
pub proof fn lemma_given(
    steps: Seq<StepModel>,
    function: Function,
    argument: Option<ArgumentModel>,
    at: int,
)
    requires
        every(steps, gives(function, argument)),
        argument is Some ==> 0 <= at < steps.len() && steps[at].call.function == function,
    ensures
        last_argument(steps, function) == argument,
{
    let p = gives(function, argument);
    match argument {
        Some(a) => {
            let q = |x: StepModel| x.call.function == function ==> x.call.argument == a;
            assert forall|i: int| 0 <= i < steps.len() implies q(#[trigger] steps[i]) by {
                assert(p(steps[i]));
            }
            lemma_last_argument(steps, function, a, at);
        },
        None => {
            let q = |x: StepModel| x.call.function != function;
            assert forall|i: int| 0 <= i < steps.len() implies q(#[trigger] steps[i]) by {
                assert(p(steps[i]));
            }
            lemma_no_argument(steps, function);
        },
    }
}

/// The last call of a function in a longer list is the last one behind, where
/// there is one, else the last one in front.
pub proof fn lemma_last_append(a: Seq<StepModel>, b: Seq<StepModel>, function: Function)
    ensures
        last_argument(a + b, function) == (match last_argument(b, function) {
            Some(x) => Some(x),
            None => last_argument(a, function),
        }),
    decreases b.len(),
{
    if b.len() > 0 {
        assert((a + b).drop_last() =~= a + b.drop_last());
        assert((a + b).last() == b.last());
        lemma_last_append(a, b.drop_last(), function);
    } else {
        assert(a + b =~= a);
    }
}

/// What the calls of a function are given, in order.
pub open spec fn arguments_of(steps: Seq<StepModel>, function: Function) -> Seq<ArgumentModel> {
    steps.filter(|x: StepModel| x.call.function == function).map_values(
        |x: StepModel| x.call.argument,
    )
}

/// The calls of two plans, one after the other, are given what those of each
/// are given.
pub proof fn lemma_arguments_followed(a: PlanModel, b: PlanModel, function: Function)
    requires
        a.refusal is None,
    ensures
        arguments_of(a.followed_by(b).steps, function) == arguments_of(a.steps, function)
            + arguments_of(b.steps, function),
{
    let p = |x: StepModel| x.call.function == function;
    Seq::filter_distributes_over_add(a.steps, b.steps, p);
    assert(arguments_of(a.followed_by(b).steps, function) =~= arguments_of(a.steps, function)
        + arguments_of(b.steps, function));
}

/// Where no step calls a function, nothing is given to it.
pub proof fn lemma_no_arguments(steps: Seq<StepModel>, function: Function)
    requires
        every(steps, |x: StepModel| x.call.function != function),
    ensures
        arguments_of(steps, function) == Seq::<ArgumentModel>::empty(),
{
    let p = |x: StepModel| x.call.function == function;
    let q = |x: StepModel| x.call.function != function;
    assert forall|i: int| 0 <= i < steps.len() implies !p(#[trigger] steps[i]) by {
        assert(q(steps[i]));
    }
    steps.lemma_all_neg_filter_empty(p);
    assert(arguments_of(steps, function) =~= seq![]);
}

/// Where every step calls a function, it is given what they are given.
pub proof fn lemma_all_arguments(steps: Seq<StepModel>, function: Function)
    requires
        every(steps, |x: StepModel| x.call.function == function),
    ensures
        arguments_of(steps, function) == steps.map_values(|x: StepModel| x.call.argument),
{
    let p = |x: StepModel| x.call.function == function;
    lemma_filter_all(steps, p);
    assert(arguments_of(steps, function) =~= steps.map_values(|x: StepModel| x.call.argument));
}

proof fn lemma_filter_all(steps: Seq<StepModel>, p: spec_fn(StepModel) -> bool)
    requires
        every(steps, p),
    ensures
        steps.filter(p) == steps,
    decreases steps.len(),
{
    reveal(Seq::filter);
    if steps.len() > 0 {
        let rest = steps.drop_last();
        assert(p(steps.last()));
        assert forall|i: int| 0 <= i < rest.len() implies p(#[trigger] rest[i]) by {
            assert(rest[i] == steps[i]);
        }
        lemma_filter_all(rest, p);
        assert(rest.push(steps.last()) =~= steps);
    } else {
        assert(steps.filter(p) =~= steps);
    }
}

/// A failure that does not matter is passed over: the next call is the next
/// one of the plan, and only a call that says so has an error taken off the
/// engine's queue.
pub proof fn law_failure_is_passed_over(s: RunModel)
    requires
        s.is_proper(),
        s.end() is None,
        s.step().on_failure is Ignore || s.step().on_failure is Drain,
    ensures
        s.after(false).at == s.at + 1,
        !s.after(false).other,
        s.after(false).stopped is None,
        s.after(false).plan == s.plan,
        s.after(false) == s.after(true),
{
}

/// A plan whose calls all succeed ends with its refusal where it has one, and
/// is done where it has none; before its last call it has not ended.
pub proof fn law_how_plans_end(plan: PlanModel, n: nat)
    requires
        n <= plan.steps.len(),
    ensures
        ({
            let end = RunModel::start(plan).answered(Seq::new(n, |i: int| true)).end();
            if n < plan.steps.len() {
                end is None
            } else {
                end == (match plan.refusal {
                    Some(t) => Some(EndModel::Refused(t)),
                    None => Some(EndModel::Done),
                })
            }
        }),
{
    law_success_makes_every_call(plan, n);
}

/// Whether `p` holds of every step.
pub open spec fn every(steps: Seq<StepModel>, p: spec_fn(StepModel) -> bool) -> bool {
    forall|i: int| 0 <= i < steps.len() ==> p(#[trigger] steps[i])
}

/// What holds of every step of two plans holds of every step of both together.
pub proof fn lemma_every_followed(a: PlanModel, b: PlanModel, p: spec_fn(StepModel) -> bool)
    requires
        every(a.steps, p),
        every(b.steps, p),
    ensures
        every(a.followed_by(b).steps, p),
{
    let all = a.followed_by(b).steps;
    assert forall|i: int| 0 <= i < all.len() implies p(#[trigger] all[i]) by {
        if i < a.steps.len() {
            assert(all[i] == a.steps[i]);
        } else {
            assert(all[i] == b.steps[i - a.steps.len()]);
        }
    }
}

} // verus!
