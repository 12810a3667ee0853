//! Sequential delivery of one message per recipient, as a state machine: the
//! caller performs each step it is handed (run the encryptor, send a message,
//! close the session) and reports back what happened.
use vstd::prelude::*;
use crate::policy::{
    choose_message, make_reply, plain_view, policy_outcome, EncryptError, EncryptorRun,
    MessageView, Outbound, Policy,
};

verus! {

/// Where a dispatch run stands.
#[derive(Clone, Copy, Debug, PartialEq, Eq, Structural)]
pub enum Phase {
    /// Nothing has been asked yet.
    Ready,
    /// The encryptor has been asked for the current recipient.
    AwaitingEncryption,
    /// A message to the current recipient has been handed out to send.
    AwaitingSend,
    /// The run is over, by completion or by a fatal error.
    Finished,
}

/// A fatal condition, naming the recipient by its position.
#[derive(Clone, Copy, Debug, PartialEq, Eq, Structural)]
pub enum DispatchError {
    /// Encryption failed under a forced policy.
    EncryptionFailed { index: usize, cause: EncryptError },
    /// The session rejected the message.
    SendFailed { index: usize },
}

/// What the caller is to do next.
#[derive(Debug)]
pub enum Step {
    /// Run the encryptor on the body for the recipient at this position.
    Encrypt { index: usize },
    /// Send this message.
    Send(Outbound),
    /// Every recipient is served: close the session.
    Close,
    /// Stop with this error.
    Abort(DispatchError),
}

/// A step in mathematical terms.
pub enum StepView {
    Encrypt(nat),
    Send(MessageView),
    Close,
    Abort(DispatchError),
}

impl View for Step {
    type V = StepView;

    open spec fn view(&self) -> StepView {
        match self {
            Step::Encrypt { index } => StepView::Encrypt(*index as nat),
            Step::Send(m) => StepView::Send(m@),
            Step::Close => StepView::Close,
            Step::Abort(e) => StepView::Abort(*e),
        }
    }
}

/// The state of a dispatch run.
pub struct Dispatcher {
    recipients: Vec<String>,
    body: String,
    policy: Policy,
    next: usize,
    phase: Phase,
}

/// A dispatch run in mathematical terms: `next` is the position of the
/// current recipient, and the count of messages sent so far.
pub struct DispatchView {
    pub recipients: Seq<Seq<char>>,
    pub body: Seq<char>,
    pub policy: Policy,
    pub next: nat,
    pub phase: Phase,
}

impl View for Dispatcher {
    type V = DispatchView;

    closed spec fn view(&self) -> DispatchView {
        DispatchView {
            recipients: self.recipients@.map_values(|s: String| s@),
            body: self.body@,
            policy: self.policy,
            next: self.next as nat,
            phase: self.phase,
        }
    }
}

/// Turn to the recipient at `v.next`: close when none is left, else send
/// the plain body or ask for encryption, as the policy says.
pub open spec fn open_recipient(v: DispatchView) -> (DispatchView, StepView) {
    if v.next >= v.recipients.len() {
        (DispatchView { phase: Phase::Finished, ..v }, StepView::Close)
    } else if v.policy == Policy::Plain {
        (
            DispatchView { phase: Phase::AwaitingSend, ..v },
            StepView::Send(plain_view(v.recipients[v.next as int], v.body)),
        )
    } else {
        (DispatchView { phase: Phase::AwaitingEncryption, ..v }, StepView::Encrypt(v.next))
    }
}

/// The encryptor ran for the current recipient: send what the policy makes
/// of it, or stop.
pub open spec fn after_encryption(v: DispatchView, run: EncryptorRun) -> (
    DispatchView,
    StepView,
) {
    match policy_outcome(v.recipients[v.next as int], v.body, v.policy, run) {
        Ok(m) => (DispatchView { phase: Phase::AwaitingSend, ..v }, StepView::Send(m)),
        Err(e) => (
            DispatchView { phase: Phase::Finished, ..v },
            StepView::Abort(DispatchError::EncryptionFailed { index: v.next as usize, cause: e }),
        ),
    }
}

/// The session answered the last send: go on to the following recipient,
/// or stop.
pub open spec fn after_send(v: DispatchView, ok: bool) -> (DispatchView, StepView) {
    if ok {
        open_recipient(DispatchView { next: v.next + 1, ..v })
    } else {
        (
            DispatchView { phase: Phase::Finished, ..v },
            StepView::Abort(DispatchError::SendFailed { index: v.next as usize }),
        )
    }
}

/// Under `Plain` no step of a run asks for the encryptor or waits for it:
/// every recipient gets the plain body.
pub proof fn lemma_plain_never_encrypts(v: DispatchView, ok: bool)
    requires
        v.policy == Policy::Plain,
    ensures
        !(open_recipient(v).1 is Encrypt),
        open_recipient(v).0.phase != Phase::AwaitingEncryption,
        !(after_send(v, ok).1 is Encrypt),
        after_send(v, ok).0.phase != Phase::AwaitingEncryption,
        v.next < v.recipients.len() ==> open_recipient(v).1 == StepView::Send(
            plain_view(v.recipients[v.next as int], v.body),
        ),
{
}

/// Recipients are served strictly in list order: every step concerns the
/// current position, the position moves on by one only when the session
/// accepted the message, and a fatal error ends the run.
pub proof fn lemma_dispatch_order(v: DispatchView, ok: bool, run: EncryptorRun)
    requires
        v.next < v.recipients.len(),
    ensures
        open_recipient(v).0.next == v.next,
        open_recipient(v).1 matches StepView::Send(m) ==> m.to == v.recipients[v.next as int],
        open_recipient(v).1 matches StepView::Encrypt(i) ==> i == v.next,
        after_encryption(v, run).0.next == v.next,
        after_encryption(v, run).1 matches StepView::Send(m) ==> m.to == v.recipients[v.next as int],
        after_encryption(v, run).1 is Abort ==> after_encryption(v, run).0.phase == Phase::Finished,
        after_send(v, true).0.next == v.next + 1,
        v.next + 1 < v.recipients.len() ==> (after_send(v, true).1 matches StepView::Send(m)
            ==> m.to == v.recipients[v.next + 1 as int]),
        v.next + 1 < v.recipients.len() ==> (after_send(v, true).1 matches StepView::Encrypt(i)
            ==> i == v.next + 1),
        v.next + 1 == v.recipients.len() ==> after_send(v, true).1 == StepView::Close,
        after_send(v, false).0.phase == Phase::Finished,
        after_send(v, false).1 == StepView::Abort(
            DispatchError::SendFailed { index: v.next as usize },
        ),
{
}

/// Under `AttemptPgp` a failed encryption still sends the plain body to the
/// current recipient, and once it is accepted the run goes on to the next.
pub proof fn lemma_attempt_continues(v: DispatchView, run: EncryptorRun)
    requires
        v.policy == Policy::AttemptPgp,
        v.next < v.recipients.len(),
        crate::policy::run_payload(run) is Err,
    ensures
        after_encryption(v, run).1 == StepView::Send(
            plain_view(v.recipients[v.next as int], v.body),
        ),
        after_encryption(v, run).0.phase == Phase::AwaitingSend,
        after_send(after_encryption(v, run).0, true).0.next == v.next + 1,
{
}

/// What the caller reports back after performing a step.
pub enum Report {
    Encrypted(EncryptorRun),
    Sent(bool),
}

/// A report fits the phase: an encryptor result only while one is awaited,
/// a send result only while a send is awaited.
pub open spec fn report_fits(v: DispatchView, r: Report) -> bool {
    match r {
        Report::Encrypted(_) => v.phase == Phase::AwaitingEncryption,
        Report::Sent(_) => v.phase == Phase::AwaitingSend,
    }
}

/// The transition that a report causes.
pub open spec fn apply_report(v: DispatchView, r: Report) -> (DispatchView, StepView) {
    match r {
        Report::Encrypted(run) => after_encryption(v, run),
        Report::Sent(ok) => after_send(v, ok),
    }
}

/// Each report of `reps` fits the state reached before it.
pub open spec fn reports_fit(v: DispatchView, reps: Seq<Report>) -> bool
    decreases reps.len(),
{
    reps.len() == 0 || (report_fits(v, reps[0]) && reports_fit(
        apply_report(v, reps[0]).0,
        reps.drop_first(),
    ))
}

/// The recipients of the messages handed out to send while `reps` are
/// applied from `v`, in order.
pub open spec fn sends_during(v: DispatchView, reps: Seq<Report>) -> Seq<Seq<char>>
    decreases reps.len(),
{
    if reps.len() == 0 {
        Seq::empty()
    } else {
        let (w, s) = apply_report(v, reps[0]);
        let first = match s {
            StepView::Send(m) => seq![m.to],
            _ => Seq::empty(),
        };
        first + sends_during(w, reps.drop_first())
    }
}

/// The position of the next recipient still to be handed out.
pub open spec fn next_unsent(v: DispatchView) -> nat {
    if v.phase == Phase::AwaitingSend {
        v.next + 1
    } else {
        v.next
    }
}

/// A dispatch state that a run can reach.
pub open spec fn reachable(v: DispatchView) -> bool {
    &&& v.next <= v.recipients.len()
    &&& (v.phase == Phase::AwaitingEncryption || v.phase == Phase::AwaitingSend) ==> v.next
        < v.recipients.len()
}

/// Over any run, messages go out to consecutive recipients in list order,
/// starting with the first one not yet handed out; once a run stops, by
/// completion or by a fatal error, it takes no further report, so no later
/// recipient is ever sent to.
pub proof fn lemma_run_sends_in_order(v: DispatchView, reps: Seq<Report>)
    requires
        reachable(v),
        reports_fit(v, reps),
    ensures
        next_unsent(v) + sends_during(v, reps).len() <= v.recipients.len(),
        forall|j: int|
            0 <= j < sends_during(v, reps).len() ==> sends_during(v, reps)[j]
                == v.recipients[next_unsent(v) + j],
        v.phase == Phase::Finished ==> reps.len() == 0,
    decreases reps.len(),
{
    if reps.len() > 0 {
        let (w, s) = apply_report(v, reps[0]);
        let rest = reps.drop_first();
        lemma_run_sends_in_order(w, rest);
        if let Report::Encrypted(run) = reps[0] {
            lemma_outcome_recipient(v.recipients[v.next as int], v.body, v.policy, run);
        }
        if w.phase == Phase::Finished {
            assert(sends_during(w, rest).len() == 0);
        } else {
            assert(next_unsent(w) == next_unsent(v) + (if s is Send { 1int } else { 0int }));
        }
        let all = sends_during(v, reps);
        assert forall|j: int| 0 <= j < all.len() implies all[j] == v.recipients[next_unsent(v) + j]
            by {
            if s is Send && j > 0 {
                assert(all[j] == sends_during(w, rest)[j - 1]);
            }
        }
    }
}

/// A message that the policy makes for `to` is addressed to `to`.
pub proof fn lemma_outcome_recipient(
    to: Seq<char>,
    body: Seq<char>,
    policy: Policy,
    run: EncryptorRun,
)
    ensures
        policy_outcome(to, body, policy, run) matches Ok(m) ==> m.to == to,
{
}

impl Dispatcher {
    /// Positions stay within the recipient list.
    pub open spec fn wf(&self) -> bool {
        reachable(self@)
    }

    /// A run that will send `body` to each of `recipients` in turn.
    pub fn new(recipients: Vec<String>, body: String, policy: Policy) -> (r: Dispatcher)
        ensures
            r.wf(),
            r@ == (DispatchView {
                recipients: recipients@.map_values(|s: String| s@),
                body: body@,
                policy,
                next: 0,
                phase: Phase::Ready,
            }),
    {
        Dispatcher { recipients, body, policy, next: 0, phase: Phase::Ready }
    }

    fn open_current(&mut self) -> (r: Step)
        requires
            old(self).wf(),
            old(self).phase != Phase::AwaitingEncryption,
        ensures
            final(self).wf(),
            (final(self)@, r@) == open_recipient(old(self)@),
    {
        if self.next >= self.recipients.len() {
            self.phase = Phase::Finished;
            return Step::Close;
        }
        if self.policy.encrypts() {
            self.phase = Phase::AwaitingEncryption;
            Step::Encrypt { index: self.next }
        } else {
            self.phase = Phase::AwaitingSend;
            let m = make_reply(self.recipients[self.next].as_str(), self.body.as_str());
            Step::Send(m)
        }
    }

    /// The first step of the run.
    pub fn start(&mut self) -> (r: Step)
        requires
            old(self).wf(),
            old(self)@.phase == Phase::Ready,
        ensures
            final(self).wf(),
            (final(self)@, r@) == open_recipient(old(self)@),
    {
        self.open_current()
    }

    /// Report what the encryptor returned for the current recipient.
    pub fn encrypted(&mut self, run: EncryptorRun) -> (r: Step)
        requires
            old(self).wf(),
            old(self)@.phase == Phase::AwaitingEncryption,
        ensures
            final(self).wf(),
            (final(self)@, r@) == after_encryption(old(self)@, run),
    {
        let chosen = choose_message(
            self.recipients[self.next].as_str(),
            self.body.as_str(),
            self.policy,
            &run,
        );
        match chosen {
            Ok(m) => {
                self.phase = Phase::AwaitingSend;
                Step::Send(m)
            },
            Err(e) => {
                self.phase = Phase::Finished;
                Step::Abort(DispatchError::EncryptionFailed { index: self.next, cause: e })
            },
        }
    }

    /// Report whether the session accepted the message last handed out.
    pub fn sent(&mut self, ok: bool) -> (r: Step)
        requires
            old(self).wf(),
            old(self)@.phase == Phase::AwaitingSend,
        ensures
            final(self).wf(),
            (final(self)@, r@) == after_send(old(self)@, ok),
    {
        if ok {
            let n: usize = self.recipients.len();
            assert(self.next < n);
            self.next = self.next + 1;
            self.phase = Phase::Ready;
            self.open_current()
        } else {
            self.phase = Phase::Finished;
            Step::Abort(DispatchError::SendFailed { index: self.next })
        }
    }

    /// Where the run stands.
    pub fn phase(&self) -> (r: Phase)
        ensures
            r == self@.phase,
    {
        self.phase
    }

    /// The recipient at position `i`.
    pub fn recipient(&self, i: usize) -> (r: &String)
        requires
            i < self@.recipients.len(),
        ensures
            r@ == self@.recipients[i as int],
    {
        &self.recipients[i]
    }

    /// The message body.
    pub fn body(&self) -> (r: &String)
        ensures
            r@ == self@.body,
    {
        &self.body
    }
}

} // verus!
