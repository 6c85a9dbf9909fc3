use vstd::prelude::*;

use crate::flower::{ChatProgress, OutcomeView, ProgressView, TaskOutcome};
use crate::history::{Part, PartView};
use crate::message::{Message, MessageView, Usage};
use crate::widgets::{AuthMethod, Settings};

verus! {

/// The text a single part contributes to the accumulated response.
pub open spec fn spec_part_text(p: PartView) -> Seq<char> {
    match p {
        PartView::Text { text, thought } => text,
        PartView::FileRef { file_uri, mime_type } => Seq::<char>::empty(),
    }
}

/// The text a run of parts contributes, in order.
pub open spec fn spec_parts_text(parts: Seq<PartView>) -> Seq<char>
    decreases parts.len(),
{
    if parts.len() == 0 {
        Seq::<char>::empty()
    } else {
        spec_part_text(parts[0]) + spec_parts_text(parts.drop_first())
    }
}

/// Mathematical model of the streaming accumulation state.
pub ghost struct CompletionStateView {
    pub index: usize,
    pub response_text: Seq<char>,
    pub usage: Option<Usage>,
}

/// Per-invocation state of the request executor while a response streams
/// in: the targeted turn index, the accumulated full text for the
/// terminal payload, and the latest usage summary seen.
pub struct CompletionState {
    pub index: usize,
    pub response_text: String,
    pub usage: Option<Usage>,
}

impl View for CompletionState {
    type V = CompletionStateView;

    open spec fn view(&self) -> CompletionStateView {
        CompletionStateView {
            index: self.index,
            response_text: self.response_text@,
            usage: self.usage,
        }
    }
}

/// The state of a freshly dispatched request for the given turn.
pub open spec fn spec_new_state(index: usize) -> CompletionStateView {
    CompletionStateView { index, response_text: Seq::<char>::empty(), usage: None }
}

/// The state after one streamed chunk was absorbed.
pub open spec fn spec_absorb(
    s: CompletionStateView,
    parts: Seq<PartView>,
    usage: Option<Usage>,
) -> CompletionStateView {
    CompletionStateView {
        index: s.index,
        response_text: s.response_text + spec_parts_text(parts),
        usage: if usage is Some {
            usage
        } else {
            s.usage
        },
    }
}

/// The state after a whole run of streamed chunks was absorbed, in order.
pub open spec fn spec_absorb_all(
    s: CompletionStateView,
    chunks: Seq<(Seq<PartView>, Option<Usage>)>,
) -> CompletionStateView
    decreases chunks.len(),
{
    if chunks.len() == 0 {
        s
    } else {
        spec_absorb_all(spec_absorb(s, chunks[0].0, chunks[0].1), chunks.drop_first())
    }
}

/// The terminal outcome of a graceful stop: the accumulated text, as a
/// success, whether the stream was exhausted or cancellation observed.
pub open spec fn spec_finish(s: CompletionStateView) -> OutcomeView {
    OutcomeView::Success { index: s.index, text: s.response_text, usage: s.usage }
}

impl CompletionState {
    /// Fresh accumulation state for a request targeting the given turn.
    pub fn new(index: usize) -> (r: CompletionState)
        ensures
            r@ == spec_new_state(index),
    {
        CompletionState { index, response_text: String::new(), usage: None }
    }

    /// Absorbs one streamed chunk: captures the latest usage summary if
    /// the chunk carries one, appends the text of every textual part to
    /// the running full text, and hands back one progress event per part,
    /// in part order, each targeting this state's turn.
    pub fn absorb_chunk(&mut self, parts: Vec<Part>, usage: Option<Usage>) -> (events: Vec<
        (usize, ChatProgress),
    >)
        ensures
            final(self)@ == spec_absorb(old(self)@, parts.deep_view(), usage),
            events.deep_view() == Seq::new(
                parts.deep_view().len(),
                |i: int| (old(self)@.index, ProgressView::Part(parts.deep_view()[i])),
            ),
    {
        let ghost all = parts.deep_view();
        let ghost start_text = self.response_text@;
        let mut remaining = parts;
        let mut events: Vec<(usize, ChatProgress)> = Vec::new();

        if let Some(u) = usage {
            self.usage = Some(u);
        }

        while remaining.len() > 0
            invariant
                self.index == old(self).index,
                self.usage == (if usage is Some {
                    usage
                } else {
                    old(self)@.usage
                }),
                events.len() + remaining.len() == all.len(),
                remaining.deep_view() =~= all.skip(events.len() as int),
                events.deep_view() =~= Seq::new(
                    events.len() as nat,
                    |i: int| (old(self)@.index, ProgressView::Part(all[i])),
                ),
                self.response_text@ + spec_parts_text(remaining.deep_view()) =~= start_text
                    + spec_parts_text(all),
            decreases remaining.len(),
        {
            let ghost rem_before = remaining.deep_view();
            let p = remaining.remove(0);
            proof {
                assert(remaining.deep_view() =~= rem_before.drop_first());
            }
            if let Part::Text { text, thought } = &p {
                self.response_text.append(text.as_str());
            }
            let ghost evs_before = events.deep_view();
            events.push((self.index, ChatProgress::Part(p)));
            proof {
                assert(events.deep_view() =~= evs_before.push(
                    (old(self)@.index, ProgressView::Part(rem_before[0])),
                ));
                assert(events.deep_view() =~= Seq::new(
                    events.len() as nat,
                    |i: int| (old(self)@.index, ProgressView::Part(all[i])),
                ));
            }
        }
        proof {
            assert(spec_parts_text(remaining.deep_view()) =~= Seq::<char>::empty());
            assert(self.response_text@ =~= start_text + spec_parts_text(all));
            assert(events.deep_view() =~= Seq::new(
                all.len(),
                |i: int| (old(self)@.index, ProgressView::Part(all[i])),
            ));
        }
        events
    }

    /// Graceful termination — the stream was exhausted, the single
    /// blocking call returned, or cancellation was observed: the outcome
    /// is a success carrying exactly the text accumulated so far.
    pub fn finish(self) -> (r: TaskOutcome)
        ensures
            r@ == spec_finish(self@),
    {
        TaskOutcome::Success { index: self.index, text: self.response_text, usage: self.usage }
    }

    /// A transport or protocol error: the raw error text is preserved
    /// verbatim for downstream diagnosis.
    pub fn fail(self, message: String) -> (r: TaskOutcome)
        ensures
            r@ == (OutcomeView::Failure { index: self@.index, message: message@ }),
    {
        TaskOutcome::Failure { index: self.index, message }
    }
}

/// Absorbing a run of chunks accumulates exactly their texts, in order,
/// onto the targeted turn's state.
pub proof fn lemma_absorb_all_text(
    s: CompletionStateView,
    chunks: Seq<(Seq<PartView>, Option<Usage>)>,
)
    ensures
        spec_absorb_all(s, chunks).index == s.index,
        spec_absorb_all(s, chunks).response_text == s.response_text + spec_chunks_text(chunks),
    decreases chunks.len(),
{
    if chunks.len() == 0 {
        assert(s.response_text + spec_chunks_text(chunks) =~= s.response_text);
    } else {
        let s1 = spec_absorb(s, chunks[0].0, chunks[0].1);
        lemma_absorb_all_text(s1, chunks.drop_first());
        assert(s1.response_text + spec_chunks_text(chunks.drop_first()) =~= s.response_text
            + spec_chunks_text(chunks));
    }
}

/// The text a run of chunks contributes, in order.
pub open spec fn spec_chunks_text(chunks: Seq<(Seq<PartView>, Option<Usage>)>) -> Seq<char>
    decreases chunks.len(),
{
    if chunks.len() == 0 {
        Seq::<char>::empty()
    } else {
        spec_parts_text(chunks[0].0) + spec_chunks_text(chunks.drop_first())
    }
}

/// Cancellation idempotence: however many chunks arrive, if cancellation
/// is observed after any prefix of them, the terminal outcome is a
/// `Success` — never a failure — whose text is exactly the text
/// accumulated strictly before the flag was observed.
pub proof fn lemma_cancellation_yields_partial_success(
    index: usize,
    chunks: Seq<(Seq<PartView>, Option<Usage>)>,
    observed_at: int,
)
    requires
        0 <= observed_at <= chunks.len(),
    ensures
        spec_finish(spec_absorb_all(spec_new_state(index), chunks.take(observed_at)))
            == (OutcomeView::Success {
            index,
            text: spec_chunks_text(chunks.take(observed_at)),
            usage: spec_absorb_all(spec_new_state(index), chunks.take(observed_at)).usage,
        }),
{
    lemma_absorb_all_text(spec_new_state(index), chunks.take(observed_at));
    assert(Seq::<char>::empty() + spec_chunks_text(chunks.take(observed_at)) =~= spec_chunks_text(
        chunks.take(observed_at),
    ));
}

/// Configuration check performed before dispatch: a missing credential
/// fails fast with the exact message shown to the user, and the request
/// never reaches the network.
pub fn preflight(settings: &Settings) -> (r: Option<String>)
    ensures
        settings.auth_method == AuthMethod::ApiKey ==> {
            &&& (r is Some <==> settings.api_key@.len() == 0)
            &&& (r matches Some(m) ==> m@ == "API key not set."@)
        },
        settings.auth_method == AuthMethod::CodeAssist ==> {
            &&& (r is Some <==> settings.oauth_token@.len() == 0 || settings.project_id@.len()
                == 0)
            &&& (r matches Some(m) ==> m@
                == "OAuth token or Project ID not set. Please login in settings."@)
        },
{
    match settings.auth_method {
        AuthMethod::ApiKey => {
            if settings.api_key.as_str().is_empty() {
                Some("API key not set.".to_owned())
            } else {
                None
            }
        },
        AuthMethod::CodeAssist => {
            if settings.oauth_token.as_str().is_empty() || settings.project_id.as_str().is_empty() {
                Some("OAuth token or Project ID not set. Please login in settings.".to_owned())
            } else {
                None
            }
        },
    }
}

/// A completed thought turn folded back into the request context, under
/// an explicit textual wrapper.
pub open spec fn spec_fold_thought(m: MessageView) -> MessageView {
    if m.is_thought {
        MessageView {
            is_thought: false,
            content: "MY INNER REFLECTIONS: "@ + m.content
                + "--- end of inner reflections ---\\r\\n"@,
            ..m
        }
    } else {
        m
    }
}

/// Rewrites the request copy of the log so that thought turns enter the
/// context as ordinary turns wrapped in explicit reflection markers.
/// Applied only when the user opted to persist thoughts in context.
pub fn fold_thoughts_into_history(messages: &mut Vec<Message>)
    ensures
        final(messages).deep_view() == old(messages).deep_view().map_values(
            |m: MessageView| spec_fold_thought(m),
        ),
{
    let ghost orig = messages.deep_view();
    let mut out: Vec<Message> = Vec::new();
    while messages.len() > 0
        invariant
            out.len() + messages.len() == orig.len(),
            messages.deep_view() =~= orig.skip(out.len() as int),
            out.deep_view() =~= orig.map_values(|m: MessageView| spec_fold_thought(m)).take(
                out.len() as int,
            ),
        decreases messages.len(),
    {
        let ghost rem_before = messages.deep_view();
        let mut m = messages.remove(0);
        proof {
            assert(messages.deep_view() =~= rem_before.drop_first());
        }
        if m.is_thought {
            m.is_thought = false;
            let mut wrapped = String::new();
            wrapped.append("MY INNER REFLECTIONS: ");
            wrapped.append(m.content.as_str());
            wrapped.append("--- end of inner reflections ---\\r\\n");
            m.content = wrapped;
        }
        let ghost out_before = out.deep_view();
        out.push(m);
        proof {
            assert(out.deep_view() =~= out_before.push(spec_fold_thought(rem_before[0])));
            assert(out.deep_view() =~= orig.map_values(|mv: MessageView| spec_fold_thought(mv))
                .take(out.len() as int));
        }
    }
    core::mem::swap(messages, &mut out);
    proof {
        assert(messages.deep_view() =~= orig.map_values(|m: MessageView| spec_fold_thought(m)));
    }
}

} // verus!
