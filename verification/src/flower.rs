use vstd::prelude::*;

use crate::history::{Part, PartView};
use crate::message::{RemoteHandle, RemoteHandleView, Usage};

verus! {

/// Mathematical model of one progress event.
pub ghost enum ProgressView {
    Part(PartView),
    Status { message: Seq<char> },
    FileUploading { path: Seq<char> },
    FileUploaded { path: Seq<char>, file: RemoteHandleView },
}

/// An intermediate event of an in-flight completion, always delivered
/// together with the index of the turn it targets.
pub enum ChatProgress {
    /// A streamed response part.
    Part(Part),
    /// A transient status line (for example while a file is processed).
    Status { message: String },
    /// An attachment began uploading.
    FileUploading { path: String },
    /// An attachment finished uploading and received a remote handle.
    FileUploaded { path: String, file: RemoteHandle },
}

impl View for ChatProgress {
    type V = ProgressView;

    open spec fn view(&self) -> ProgressView {
        match self {
            ChatProgress::Part(p) => ProgressView::Part(p@),
            ChatProgress::Status { message } => ProgressView::Status { message: message@ },
            ChatProgress::FileUploading { path } => ProgressView::FileUploading { path: path@ },
            ChatProgress::FileUploaded { path, file } => ProgressView::FileUploaded {
                path: path@,
                file: file@,
            },
        }
    }
}

impl DeepView for ChatProgress {
    type V = ProgressView;

    open spec fn deep_view(&self) -> ProgressView {
        self.view()
    }
}

/// Mathematical model of a terminal outcome.
pub ghost enum OutcomeView {
    Success { index: usize, text: Seq<char>, usage: Option<Usage> },
    Failure { index: usize, message: Seq<char> },
    Panicked { message: Seq<char> },
}

/// How an in-flight completion ended: gracefully with accumulated text,
/// with an error the backend reported, or because the background task
/// itself failed unexpectedly.
pub enum TaskOutcome {
    Success { index: usize, text: String, usage: Option<Usage> },
    Failure { index: usize, message: String },
    Panicked { message: String },
}

impl View for TaskOutcome {
    type V = OutcomeView;

    open spec fn view(&self) -> OutcomeView {
        match self {
            TaskOutcome::Success { index, text, usage } => OutcomeView::Success {
                index: *index,
                text: text@,
                usage: *usage,
            },
            TaskOutcome::Failure { index, message } => OutcomeView::Failure {
                index: *index,
                message: message@,
            },
            TaskOutcome::Panicked { message } => OutcomeView::Panicked { message: message@ },
        }
    }
}

impl DeepView for TaskOutcome {
    type V = OutcomeView;

    open spec fn deep_view(&self) -> OutcomeView {
        self.view()
    }
}

/// Mathematical model of the progress/result channel.
pub ghost struct FlowerView {
    pub id: usize,
    pub active: bool,
    pub pending: Seq<(usize, ProgressView)>,
    pub terminal: Option<OutcomeView>,
}

/// The progress/result channel of one chat: a queue of intermediate
/// events plus a single slot for the terminal outcome.
///
/// The producer side calls `activate`, then any number of `send`s, then
/// exactly one of `success`, `error` or `task_failed`. The consumer
/// drains with `extract` (all buffered progress, in send order) followed
/// by `finalize` (at most one terminal outcome); the channel turns
/// inactive once the terminal outcome has been taken.
pub struct CompletionFlower {
    pub id: usize,
    pub active: bool,
    pub pending: Vec<(usize, ChatProgress)>,
    pub terminal: Option<TaskOutcome>,
}

impl View for CompletionFlower {
    type V = FlowerView;

    open spec fn view(&self) -> FlowerView {
        FlowerView {
            id: self.id,
            active: self.active,
            pending: self.pending.deep_view(),
            terminal: self.terminal.deep_view(),
        }
    }
}

/// The channel after one more progress event was sent.
pub open spec fn spec_send(f: FlowerView, index: usize, progress: ProgressView) -> FlowerView {
    FlowerView { pending: f.pending.push((index, progress)), ..f }
}

/// The channel after a whole run of progress events was sent, in order.
pub open spec fn spec_after_sends(f: FlowerView, events: Seq<(usize, ProgressView)>) -> FlowerView
    decreases events.len(),
{
    if events.len() == 0 {
        f
    } else {
        spec_after_sends(spec_send(f, events[0].0, events[0].1), events.drop_first())
    }
}

/// The channel after the terminal outcome was reported.
pub open spec fn spec_terminate(f: FlowerView, outcome: OutcomeView) -> FlowerView {
    FlowerView { terminal: Some(outcome), ..f }
}

impl CompletionFlower {
    /// A fresh, inactive channel for the chat with the given id.
    pub fn new(id: usize) -> (r: CompletionFlower)
        ensures
            r@ == (FlowerView {
                id,
                active: false,
                pending: Seq::<(usize, ProgressView)>::empty(),
                terminal: None,
            }),
    {
        let r = CompletionFlower { id, active: false, pending: Vec::new(), terminal: None };
        proof {
            assert(r@.pending =~= Seq::<(usize, ProgressView)>::empty());
        }
        r
    }

    /// The id of the chat this channel belongs to.
    pub fn id(&self) -> (r: usize)
        ensures
            r == self@.id,
    {
        self.id
    }

    /// Whether an operation is in flight (or its outcome not yet drained).
    pub fn is_active(&self) -> (r: bool)
        ensures
            r == self@.active,
    {
        self.active
    }

    /// Marks the channel as carrying an in-flight operation; called before
    /// any message is sent.
    pub fn activate(&mut self)
        ensures
            final(self)@ == (FlowerView { active: true, ..old(self)@ }),
    {
        self.active = true;
    }

    /// Enqueues one intermediate progress event for the given turn.
    pub fn send(&mut self, index: usize, progress: ChatProgress)
        requires
            old(self)@.active,
        ensures
            final(self)@ == spec_send(old(self)@, index, progress@),
    {
        let ghost prev = self@.pending;
        self.pending.push((index, progress));
        proof {
            assert(self@.pending =~= prev.push((index, progress@)));
        }
    }

    /// Reports graceful termination with the accumulated text and usage.
    pub fn success(&mut self, index: usize, text: String, usage: Option<Usage>)
        requires
            old(self)@.active,
            old(self)@.terminal is None,
        ensures
            final(self)@ == spec_terminate(
                old(self)@,
                OutcomeView::Success { index, text: text@, usage },
            ),
    {
        self.terminal = Some(TaskOutcome::Success { index, text, usage });
    }

    /// Reports a failure whose raw error text is preserved verbatim.
    pub fn error(&mut self, index: usize, message: String)
        requires
            old(self)@.active,
            old(self)@.terminal is None,
        ensures
            final(self)@ == spec_terminate(
                old(self)@,
                OutcomeView::Failure { index, message: message@ },
            ),
    {
        self.terminal = Some(TaskOutcome::Failure { index, message });
    }

    /// Reports that the producer task ended abnormally, so the turn is not
    /// silently lost.
    pub fn task_failed(&mut self, message: String)
        requires
            old(self)@.active,
            old(self)@.terminal is None,
        ensures
            final(self)@ == spec_terminate(old(self)@, OutcomeView::Panicked { message: message@ }),
    {
        self.terminal = Some(TaskOutcome::Panicked { message });
    }

    /// Consumer side, first phase: takes all buffered progress events, in
    /// send order.
    pub fn extract(&mut self) -> (r: Vec<(usize, ChatProgress)>)
        ensures
            r.deep_view() == old(self)@.pending,
            final(self)@ == (FlowerView {
                pending: Seq::<(usize, ProgressView)>::empty(),
                ..old(self)@
            }),
    {
        let mut out: Vec<(usize, ChatProgress)> = Vec::new();
        core::mem::swap(&mut self.pending, &mut out);
        proof {
            assert(self@.pending =~= Seq::<(usize, ProgressView)>::empty());
        }
        out
    }

    /// Consumer side, second phase: takes the terminal outcome if one was
    /// reported; the channel then returns to inactive.
    pub fn finalize(&mut self) -> (r: Option<TaskOutcome>)
        ensures
            r.deep_view() == old(self)@.terminal,
            old(self)@.terminal is Some ==> final(self)@ == (FlowerView {
                active: false,
                terminal: None,
                ..old(self)@
            }),
            old(self)@.terminal is None ==> final(self)@ == old(self)@,
    {
        let mut t: Option<TaskOutcome> = None;
        core::mem::swap(&mut self.terminal, &mut t);
        match t {
            Some(outcome) => {
                self.active = false;
                Some(outcome)
            },
            None => None,
        }
    }
}

/// A run of sends appends exactly those events, in order, and touches
/// nothing else of the channel.
pub proof fn lemma_after_sends(f: FlowerView, events: Seq<(usize, ProgressView)>)
    ensures
        spec_after_sends(f, events).pending == f.pending + events,
        spec_after_sends(f, events).id == f.id,
        spec_after_sends(f, events).active == f.active,
        spec_after_sends(f, events).terminal == f.terminal,
    decreases events.len(),
{
    if events.len() == 0 {
        assert(spec_after_sends(f, events).pending =~= f.pending + events);
    } else {
        let f1 = spec_send(f, events[0].0, events[0].1);
        lemma_after_sends(f1, events.drop_first());
        assert(f1.pending + events.drop_first() =~= f.pending + events);
    }
}

/// Channel ordering: for any run of progress sends followed by one
/// terminal report, starting from a freshly activated channel, the
/// consumer's drain observes exactly the sent events, in send order, and
/// the terminal outcome only after all of them.
pub proof fn lemma_channel_ordering(
    f0: FlowerView,
    events: Seq<(usize, ProgressView)>,
    outcome: OutcomeView,
)
    requires
        f0.active,
        f0.pending == Seq::<(usize, ProgressView)>::empty(),
        f0.terminal is None,
    ensures
        ({
            let done = spec_terminate(spec_after_sends(f0, events), outcome);
            // the first drain phase yields the events, in send order
            &&& done.pending == events
            // the second phase, and only it, yields the terminal outcome
            &&& done.terminal == Some(outcome)
        }),
{
    lemma_after_sends(f0, events);
    assert(f0.pending + events =~= events);
}

} // verus!
