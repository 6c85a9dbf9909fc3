use vstd::prelude::*;

use crate::diagnose::{diagnose_error_text, spec_diagnosed};
use crate::flower::{ChatProgress, OutcomeView, ProgressView, TaskOutcome};
use crate::message::{
    Attachment, AttachmentState, AttachmentStateView, AttachmentView, Message, MessageRole,
    MessageView, Usage, spec_new_message,
};
use crate::text::str_eq;

verus! {

/// Milliseconds elapsed since a turn was requested, never negative.
pub open spec fn spec_elapsed(requested_at: u64, now_ms: u64) -> u64 {
    if now_ms >= requested_at {
        (now_ms - requested_at) as u64
    } else {
        0
    }
}

/// The turn with its transient status line replaced.
pub open spec fn spec_with_status(m: MessageView, s: Option<Seq<char>>) -> MessageView {
    MessageView { status_message: s, ..m }
}

/// The attachment list with the state of the first attachment at `path`
/// replaced; unchanged when no attachment has that path.
pub open spec fn spec_set_att(
    files: Seq<AttachmentView>,
    path: Seq<char>,
    st: AttachmentStateView,
) -> Seq<AttachmentView>
    decreases files.len(),
{
    if files.len() == 0 {
        files
    } else if files[0].path == path {
        files.update(0, AttachmentView { state: st, ..files[0] })
    } else {
        seq![files[0]] + spec_set_att(files.drop_first(), path, st)
    }
}

/// When `k` is the first attachment at `path`, setting its state updates
/// exactly that element.
pub proof fn lemma_set_att_at(
    files: Seq<AttachmentView>,
    path: Seq<char>,
    st: AttachmentStateView,
    k: int,
)
    requires
        0 <= k < files.len(),
        files[k].path == path,
        forall|j: int| 0 <= j < k ==> files[j].path != path,
    ensures
        spec_set_att(files, path, st) == files.update(k, AttachmentView { state: st, ..files[k] }),
    decreases files.len(),
{
    if k == 0 {
    } else {
        lemma_set_att_at(files.drop_first(), path, st, k - 1);
        assert(files.drop_first().update(k - 1, AttachmentView { state: st, ..files[k] })
            =~= files.update(k, AttachmentView { state: st, ..files[k] }).drop_first());
        assert(seq![files[0]] + files.update(k, AttachmentView { state: st, ..files[k] })
            .drop_first() =~= files.update(k, AttachmentView { state: st, ..files[k] }));
    }
}

/// When no attachment has the path, nothing changes.
pub proof fn lemma_set_att_missing(
    files: Seq<AttachmentView>,
    path: Seq<char>,
    st: AttachmentStateView,
)
    requires
        forall|j: int| 0 <= j < files.len() ==> files[j].path != path,
    ensures
        spec_set_att(files, path, st) == files,
    decreases files.len(),
{
    if files.len() > 0 {
        lemma_set_att_missing(files.drop_first(), path, st);
        assert(seq![files[0]] + files.drop_first() =~= files);
    }
}

/// The log after one streamed text fragment: a thought fragment marks
/// and grows the trailing turn as a thought; an answer fragment either
/// finalizes a trailing thought turn and opens a new answer turn, or
/// simply grows the trailing answer.
pub open spec fn spec_apply_text(
    log: Seq<MessageView>,
    text: Seq<char>,
    is_thought: bool,
    now_ms: u64,
    now_unix: i64,
) -> Seq<MessageView>
    recommends
        log.len() > 0,
{
    let last = log.len() - 1;
    let m = log[last];
    if is_thought {
        log.update(last, MessageView { is_thought: true, content: m.content + text, ..m })
    } else if m.is_thought {
        log.update(
            last,
            MessageView {
                is_generating: false,
                generation_time: Some(spec_elapsed(m.requested_at, now_ms)),
                ..m
            },
        ).push(
            spec_new_message(
                m.model,
                text,
                MessageRole::Assistant,
                true,
                Seq::<AttachmentView>::empty(),
                now_ms,
                now_unix,
            ),
        )
    } else {
        log.update(last, MessageView { content: m.content + text, ..m })
    }
}

/// The log after one drained progress event.
pub open spec fn spec_apply_progress(
    log: Seq<MessageView>,
    idx: usize,
    ev: ProgressView,
    now_ms: u64,
    now_unix: i64,
) -> Seq<MessageView>
    recommends
        log.len() > 0,
{
    match ev {
        ProgressView::Status { message } => if idx < log.len() {
            log.update(idx as int, spec_with_status(log[idx as int], Some(message)))
        } else {
            log
        },
        ProgressView::FileUploading { path } => if idx < log.len() {
            let m = log[idx as int];
            log.update(
                idx as int,
                MessageView {
                    files: spec_set_att(
                        m.files,
                        path,
                        AttachmentStateView {
                            is_pending: false,
                            is_uploading: true,
                            is_failed: false,
                            uploaded: None,
                        },
                    ),
                    ..m
                },
            )
        } else {
            log
        },
        ProgressView::FileUploaded { path, file } => if idx < log.len() {
            let m = log[idx as int];
            log.update(
                idx as int,
                MessageView {
                    files: spec_set_att(
                        m.files,
                        path,
                        AttachmentStateView {
                            is_pending: false,
                            is_uploading: false,
                            is_failed: false,
                            uploaded: Some(file),
                        },
                    ),
                    ..m
                },
            )
        } else {
            log
        },
        ProgressView::Part(p) => {
            let log1 = if idx < log.len() {
                log.update(idx as int, spec_with_status(log[idx as int], None))
            } else {
                log
            };
            match p {
                crate::history::PartView::Text { text, thought } => spec_apply_text(
                    log1,
                    text,
                    (match thought {
                        Some(b) => b,
                        None => false,
                    }),
                    now_ms,
                    now_unix,
                ),
                crate::history::PartView::FileRef { file_uri, mime_type } => log1,
            }
        },
    }
}

/// A mutable borrow of one turn of the log.
fn msg_mut(v: &mut Vec<Message>, i: usize) -> (m: &mut Message)
    requires
        i < old(v).len(),
    ensures
        *m == old(v)@[i as int],
        final(v)@ == old(v)@.update(i as int, *final(m)),
{
    &mut v[i]
}

/// A mutable borrow of one attachment of a turn.
fn att_mut(v: &mut Vec<Attachment>, i: usize) -> (a: &mut Attachment)
    requires
        i < old(v).len(),
    ensures
        *a == old(v)@[i as int],
        final(v)@ == old(v)@.update(i as int, *final(a)),
{
    &mut v[i]
}

/// Applies one streamed text fragment to the trailing turn.
fn apply_text(messages: &mut Vec<Message>, text: String, is_thought: bool, now_ms: u64, now_unix: i64)
    requires
        old(messages).len() > 0,
    ensures
        final(messages).deep_view() == spec_apply_text(
            old(messages).deep_view(),
            text@,
            is_thought,
            now_ms,
            now_unix,
        ),
        final(messages).len() >= old(messages).len(),
{
    let ghost log1 = messages.deep_view();
    let last = messages.len() - 1;
    if is_thought {
        let m = msg_mut(messages, last);
        m.is_thought = true;
        m.content.append(text.as_str());
        proof {
            assert(messages.deep_view() =~= spec_apply_text(log1, text@, true, now_ms, now_unix));
        }
    } else {
        let mut was_thought = false;
        let mut model = crate::widgets::GeminiModel::Gemini30Flash;
        {
            let m = msg_mut(messages, last);
            model = m.model;
            if m.is_thought {
                was_thought = true;
                m.is_generating = false;
                let elapsed = if now_ms >= m.requested_at {
                    now_ms - m.requested_at
                } else {
                    0
                };
                m.generation_time = Some(elapsed);
            } else {
                m.content.append(text.as_str());
            }
        }
        if was_thought {
            let answer = Message::assistant(text, model, now_ms, now_unix);
            let ghost mid = messages.deep_view();
            messages.push(answer);
            proof {
                assert(messages.deep_view() =~= mid.push(answer@));
                assert(messages.deep_view() =~= spec_apply_text(
                    log1,
                    text@,
                    false,
                    now_ms,
                    now_unix,
                ));
            }
        } else {
            proof {
                assert(messages.deep_view() =~= spec_apply_text(
                    log1,
                    text@,
                    false,
                    now_ms,
                    now_unix,
                ));
            }
        }
    }
}

/// Applies one drained progress event to the log: status lines are set
/// or cleared, attachment states advance, and streamed text grows the
/// trailing turn — splitting a thought from the answer that follows it.
pub fn apply_progress(
    messages: &mut Vec<Message>,
    idx: usize,
    progress: ChatProgress,
    now_ms: u64,
    now_unix: i64,
)
    requires
        old(messages).len() > 0,
    ensures
        final(messages).deep_view() == spec_apply_progress(
            old(messages).deep_view(),
            idx,
            progress@,
            now_ms,
            now_unix,
        ),
        final(messages).len() >= old(messages).len(),
{
    let ghost log0 = messages.deep_view();
    match progress {
        ChatProgress::Status { message } => {
            if idx < messages.len() {
                let m = msg_mut(messages, idx);
                m.status_message = Some(message);
            }
            proof {
                assert(messages.deep_view() =~= spec_apply_progress(
                    log0,
                    idx,
                    ProgressView::Status { message: message@ },
                    now_ms,
                    now_unix,
                ));
            }
        },
        ChatProgress::FileUploading { path } => {
            if idx < messages.len() {
                set_attachment_state(messages, idx, &path, AttachmentState::Uploading);
            }
            proof {
                assert(messages.deep_view() =~= spec_apply_progress(
                    log0,
                    idx,
                    ProgressView::FileUploading { path: path@ },
                    now_ms,
                    now_unix,
                ));
            }
        },
        ChatProgress::FileUploaded { path, file } => {
            let ghost fv = file@;
            if idx < messages.len() {
                set_attachment_state(messages, idx, &path, AttachmentState::Uploaded(file));
            }
            proof {
                assert(messages.deep_view() =~= spec_apply_progress(
                    log0,
                    idx,
                    ProgressView::FileUploaded { path: path@, file: fv },
                    now_ms,
                    now_unix,
                ));
            }
        },
        ChatProgress::Part(p) => {
            if idx < messages.len() {
                let m = msg_mut(messages, idx);
                m.status_message = None;
            }
            let ghost log1 = messages.deep_view();
            proof {
                if idx < log0.len() {
                    assert(log1 =~= log0.update(
                        idx as int,
                        spec_with_status(log0[idx as int], None),
                    ));
                }
            }
            match p {
                crate::history::Part::Text { text, thought } => {
                    let is_thought = match thought {
                        Some(b) => b,
                        None => false,
                    };
                    apply_text(messages, text, is_thought, now_ms, now_unix);
                },
                crate::history::Part::FileRef { file_uri, mime_type } => {
                    proof {
                        assert(messages.deep_view() =~= log1);
                    }
                },
            }
        },
    }
}

/// Sets the state of the first attachment at `path` within the turn at
/// `idx`.
fn set_attachment_state(
    messages: &mut Vec<Message>,
    idx: usize,
    path: &String,
    st: AttachmentState,
)
    requires
        idx < old(messages).len(),
    ensures
        final(messages).deep_view() == old(messages).deep_view().update(
            idx as int,
            (MessageView {
                files: spec_set_att(old(messages).deep_view()[idx as int].files, path@, st@),
                ..old(messages).deep_view()[idx as int]
            }),
        ),
{
    let ghost log0 = messages.deep_view();
    let ghost stv = st@;
    let m = msg_mut(messages, idx);
    let n = m.files.len();
    let mut k: usize = 0;
    let mut found = false;
    while k < n && !found
        invariant
            n == m.files.len(),
            0 <= k <= n,
            !found ==> forall|j: int| 0 <= j < k ==> m.files.deep_view()[j].path != path@,
            found ==> k < n && m.files.deep_view()[k as int].path == path@ && (forall|j: int|
                0 <= j < k ==> m.files.deep_view()[j].path != path@),
        decreases n - k + (if found {
            0int
        } else {
            1int
        }),
    {
        if str_eq(m.files[k].path.as_str(), path.as_str()) {
            found = true;
        } else {
            k += 1;
        }
    }
    let ghost files0 = m.files.deep_view();
    if found {
        let a = att_mut(&mut m.files, k);
        a.state = st;
        proof {
            lemma_set_att_at(files0, path@, stv, k as int);
            assert(m.files.deep_view() =~= spec_set_att(files0, path@, stv));
        }
    } else {
        proof {
            lemma_set_att_missing(files0, path@, stv);
        }
    }
    proof {
        assert(messages.deep_view() =~= log0.update(
            idx as int,
            (MessageView { files: spec_set_att(log0[idx as int].files, path@, stv), ..log0[idx as int] }),
        ));
    }
}

/// The log folded over a run of drained events, in arrival order.
pub open spec fn spec_apply_events(
    log: Seq<MessageView>,
    evs: Seq<(usize, ProgressView)>,
    now_ms: u64,
    now_unix: i64,
) -> Seq<MessageView>
    decreases evs.len(),
{
    if evs.len() == 0 {
        log
    } else {
        spec_apply_events(
            spec_apply_progress(log, evs[0].0, evs[0].1, now_ms, now_unix),
            evs.drop_first(),
            now_ms,
            now_unix,
        )
    }
}

/// The log after a graceful terminal outcome: the usage summary lands on
/// the targeted turn and its status text is cleared.
pub open spec fn spec_apply_success(
    log: Seq<MessageView>,
    idx: usize,
    usage: Option<Usage>,
) -> Seq<MessageView> {
    if idx < log.len() {
        log.update(
            idx as int,
            (MessageView { usage, status_message: None, ..log[idx as int] }),
        )
    } else {
        log
    }
}

/// The log after a failed terminal outcome: the diagnosis text replaces
/// the targeted turn's content, which becomes a finalized error turn.
pub open spec fn spec_apply_failure(
    log: Seq<MessageView>,
    idx: usize,
    diagnosis: Seq<char>,
    now_ms: u64,
) -> Seq<MessageView> {
    if idx < log.len() {
        log.update(
            idx as int,
            (MessageView {
                content: diagnosis,
                is_error: true,
                is_generating: false,
                generation_time: Some(spec_elapsed(log[idx as int].requested_at, now_ms)),
                status_message: None,
                ..log[idx as int]
            }),
        )
    } else {
        log
    }
}

/// Applies the terminal outcome: success writes the usage summary onto
/// the targeted turn; a failure — or the distinguished report of a task
/// that ended abnormally — is diagnosed, written into the targeted turn
/// as an error, and the same diagnosis is returned for the alert surface.
pub fn apply_terminal(messages: &mut Vec<Message>, outcome: TaskOutcome, now_ms: u64) -> (alert:
    Option<String>)
    requires
        old(messages).len() > 0,
    ensures
        final(messages).len() == old(messages).len(),
        (match outcome@ {
            OutcomeView::Success { index, text, usage } => {
                &&& final(messages).deep_view() == spec_apply_success(
                    old(messages).deep_view(),
                    index,
                    usage,
                )
                &&& alert is None
            },
            OutcomeView::Failure { index, message } => {
                &&& alert matches Some(d) && spec_diagnosed(message, d@)
                    && final(messages).deep_view() == spec_apply_failure(
                    old(messages).deep_view(),
                    index,
                    d@,
                    now_ms,
                )
            },
            OutcomeView::Panicked { message } => {
                &&& alert matches Some(d) && spec_diagnosed("Tokio task panicked: "@ + message, d@)
                    && final(messages).deep_view() == spec_apply_failure(
                    old(messages).deep_view(),
                    (old(messages).len() - 1) as usize,
                    d@,
                    now_ms,
                )
            },
        }),
{
    let ghost log0 = messages.deep_view();
    match outcome {
        TaskOutcome::Success { index, text, usage } => {
            if index < messages.len() {
                let m = msg_mut(messages, index);
                m.usage = usage;
                m.status_message = None;
            }
            proof {
                assert(messages.deep_view() =~= spec_apply_success(log0, index, usage));
            }
            None
        },
        TaskOutcome::Failure { index, message } => {
            let diagnosis = diagnose_error_text(message.as_str());
            apply_failure_at(messages, index, &diagnosis, now_ms);
            Some(diagnosis)
        },
        TaskOutcome::Panicked { message } => {
            let mut full = String::new();
            full.append("Tokio task panicked: ");
            full.append(message.as_str());
            let index = messages.len() - 1;
            let diagnosis = diagnose_error_text(full.as_str());
            apply_failure_at(messages, index, &diagnosis, now_ms);
            Some(diagnosis)
        },
    }
}

/// Writes a diagnosed failure into the turn at `idx`.
fn apply_failure_at(messages: &mut Vec<Message>, idx: usize, diagnosis: &String, now_ms: u64)
    ensures
        final(messages).deep_view() == spec_apply_failure(
            old(messages).deep_view(),
            idx,
            diagnosis@,
            now_ms,
        ),
        final(messages).len() == old(messages).len(),
{
    let ghost log0 = messages.deep_view();
    if idx < messages.len() {
        let m = msg_mut(messages, idx);
        m.content = diagnosis.clone();
        m.is_error = true;
        m.is_generating = false;
        let elapsed = if now_ms >= m.requested_at {
            now_ms - m.requested_at
        } else {
            0
        };
        m.generation_time = Some(elapsed);
        m.status_message = None;
    }
    proof {
        assert(messages.deep_view() =~= spec_apply_failure(log0, idx, diagnosis@, now_ms));
    }
}

/// The log with a still-generating trailing turn finalized.
pub open spec fn spec_finish_trailing(log: Seq<MessageView>, now_ms: u64) -> Seq<MessageView> {
    if log.len() > 0 && log.last().is_generating {
        log.update(
            log.len() - 1,
            (MessageView {
                is_generating: false,
                generation_time: Some(spec_elapsed(log.last().requested_at, now_ms)),
                status_message: None,
                ..log.last()
            }),
        )
    } else {
        log
    }
}

/// The guard applied after every drain: whatever turn the terminal
/// outcome targeted, a trailing turn still marked generating has its
/// timer stopped, so no turn is left spinning.
pub fn finish_trailing(messages: &mut Vec<Message>, now_ms: u64)
    ensures
        final(messages).deep_view() == spec_finish_trailing(old(messages).deep_view(), now_ms),
        final(messages).len() > 0 ==> !final(messages).deep_view().last().is_generating,
{
    let ghost log0 = messages.deep_view();
    let n = messages.len();
    if n > 0 {
        let last = n - 1;
        let m = msg_mut(messages, last);
        if m.is_generating {
            m.is_generating = false;
            let elapsed = if now_ms >= m.requested_at {
                now_ms - m.requested_at
            } else {
                0
            };
            m.generation_time = Some(elapsed);
            m.status_message = None;
            proof {
                assert(messages.deep_view() =~= spec_finish_trailing(log0, now_ms));
            }
        } else {
            proof {
                assert(messages.deep_view() =~= log0);
            }
        }
    }
}

/// Thought split: against a single generating placeholder turn, a
/// thought fragment followed by an answer fragment yields two turns —
/// a finalized thought turn holding exactly the thought text, and a
/// fresh, still-generating answer turn holding exactly the answer text.
pub proof fn lemma_thought_split(
    log: Seq<MessageView>,
    t1: Seq<char>,
    t2: Seq<char>,
    now_ms: u64,
    now_unix: i64,
)
    requires
        log.len() > 0,
        log.last().content.len() == 0,
        !log.last().is_thought,
        log.last().is_generating,
    ensures
        ({
            let l2 = spec_apply_text(
                spec_apply_text(log, t1, true, now_ms, now_unix),
                t2,
                false,
                now_ms,
                now_unix,
            );
            &&& l2.len() == log.len() + 1
            &&& l2[log.len() - 1].is_thought
            &&& l2[log.len() - 1].content == t1
            &&& !l2[log.len() - 1].is_generating
            &&& l2[log.len() - 1].generation_time is Some
            &&& !l2.last().is_thought
            &&& l2.last().content == t2
            &&& l2.last().is_generating
            &&& l2.last().role == MessageRole::Assistant
        }),
{
    let l1 = spec_apply_text(log, t1, true, now_ms, now_unix);
    assert(l1.last().content =~= t1);
    let l2 = spec_apply_text(l1, t2, false, now_ms, now_unix);
    assert(l2[log.len() - 1].content =~= t1);
}

/// Post-condition safety: even when a terminal success targets an index
/// that is no longer the trailing turn — as after an intervening
/// thought/answer split — the trailing turn's generating flag is cleared
/// once the drain's guard has run.
pub proof fn lemma_post_condition_safety(
    log: Seq<MessageView>,
    idx: usize,
    usage: Option<Usage>,
    now_ms: u64,
)
    requires
        log.len() > 0,
    ensures
        !spec_finish_trailing(spec_apply_success(log, idx, usage), now_ms).last().is_generating,
{
    let l1 = spec_apply_success(log, idx, usage);
    assert(l1.len() == log.len());
}

} // verus!
