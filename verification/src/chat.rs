use vstd::prelude::*;
use vstd::string::StrSliceExecFns;

use crate::assembler::{
    apply_progress, apply_terminal, finish_trailing, spec_apply_events, spec_apply_failure,
    spec_apply_success, spec_finish_trailing,
};
use crate::diagnose::{spec_diagnosed, spec_first_at, spec_has_char};
use crate::flower::{CompletionFlower, FlowerView, OutcomeView, ProgressView};
use crate::message::{Attachment, AttachmentView, Message, MessageRole, MessageView,
    spec_new_message};
use crate::text::{char_uppercase, find_char, spec_trim_end, to_uppercase_str, trim_end_str};
use crate::widgets::{ModelPicker, spec_model_id};

verus! {

/// The display name used for the assistant in the transcript.
pub fn make_short_name(name: &str) -> (r: String)
    ensures
        r@ == "Gemini"@,
{
    "Gemini".to_owned()
}

/// The longest prefix of a prompt that becomes a chat summary.
pub const MAX_SUMMARY_LENGTH: usize = 24;

/// Index of the first line break, or the length when there is none.
pub open spec fn spec_nl_cut(p: Seq<char>) -> int {
    if spec_has_char(p, '\n') {
        choose|i: int| spec_first_at(p, '\n', i)
    } else {
        p.len() as int
    }
}

/// The summary drawn from a prompt: its first line, capped at
/// `MAX_SUMMARY_LENGTH` characters with a trailing ellipsis when cut,
/// and its first character uppercased.
pub open spec fn spec_make_summary(p: Seq<char>) -> Seq<char> {
    if p.len() == 0 {
        Seq::<char>::empty()
    } else {
        let nl = spec_nl_cut(p);
        let lim: int = if MAX_SUMMARY_LENGTH <= p.len() {
            MAX_SUMMARY_LENGTH as int
        } else {
            p.len() as int
        };
        let end: int = if nl <= lim {
            nl
        } else {
            lim
        };
        let body = if end == 0 {
            Seq::<char>::empty()
        } else {
            char_uppercase(p[0]) + p.subrange(1, end)
        };
        if p.len() > MAX_SUMMARY_LENGTH && nl >= MAX_SUMMARY_LENGTH {
            body + "\u{2026}"@
        } else {
            body
        }
    }
}

/// Derives the chat summary from the first prompt sent.
pub fn make_summary(prompt: &str) -> (r: String)
    ensures
        r@ == spec_make_summary(prompt@),
{
    let n = prompt.unicode_len();
    let mut out = String::new();
    if n == 0 {
        proof {
            assert(out@ =~= spec_make_summary(prompt@));
        }
        return out;
    }
    let nl: usize = match find_char(prompt, '\n') {
        Some(i) => {
            proof {
                assert(spec_first_at(prompt@, '\n', i as int));
                let cp = choose|q: int| spec_first_at(prompt@, '\n', q);
                assert(spec_first_at(prompt@, '\n', cp));
                if cp < i as int {
                    assert(prompt@[cp] == '\n');
                    assert(false);
                }
                if cp > i as int {
                    assert(prompt@[i as int] == '\n');
                    assert(false);
                }
            }
            i
        },
        None => {
            proof {
                assert(!spec_has_char(prompt@, '\n'));
            }
            n
        },
    };
    let lim: usize = if MAX_SUMMARY_LENGTH <= n {
        MAX_SUMMARY_LENGTH
    } else {
        n
    };
    let end: usize = if nl <= lim {
        nl
    } else {
        lim
    };
    if end > 0 {
        let up = to_uppercase_str(prompt.get_char(0));
        out.append(up.as_str());
        out.append(prompt.substring_char(1, end));
    }
    if n > MAX_SUMMARY_LENGTH && nl >= MAX_SUMMARY_LENGTH {
        out.append("\u{2026}");
    }
    proof {
        assert(out@ =~= spec_make_summary(prompt@));
    }
    out
}

/// The log with error turns removed, as before a fresh send.
pub open spec fn spec_retain_non_error(log: Seq<MessageView>) -> Seq<MessageView>
    decreases log.len(),
{
    if log.len() == 0 {
        log
    } else {
        (if !log[0].is_error {
            seq![log[0]]
        } else {
            Seq::<MessageView>::empty()
        }) + spec_retain_non_error(log.drop_first())
    }
}

/// Removes error turns from the log.
fn retain_non_error(messages: &mut Vec<Message>)
    ensures
        final(messages).deep_view() == spec_retain_non_error(old(messages).deep_view()),
{
    let ghost orig = messages.deep_view();
    let mut out: Vec<Message> = Vec::new();
    proof {
        assert(orig.skip(0) =~= orig);
        assert(out.deep_view() + spec_retain_non_error(orig) =~= spec_retain_non_error(orig));
    }
    while messages.len() > 0
        invariant
            out.deep_view() + spec_retain_non_error(messages.deep_view()) == spec_retain_non_error(
                orig,
            ),
        decreases messages.len(),
    {
        let ghost rem = messages.deep_view();
        let m = messages.remove(0);
        proof {
            assert(messages.deep_view() =~= rem.drop_first());
        }
        let ghost ob = out.deep_view();
        if !m.is_error {
            out.push(m);
            proof {
                assert(out.deep_view() =~= ob.push(rem[0]));
                assert(ob.push(rem[0]) =~= ob + seq![rem[0]]);
            }
        }
        proof {
            assert(out.deep_view() + spec_retain_non_error(messages.deep_view())
                =~= spec_retain_non_error(orig));
        }
    }
    core::mem::swap(messages, &mut out);
    proof {
        assert(spec_retain_non_error(out.deep_view()) =~= out.deep_view());
        assert(messages.deep_view() =~= spec_retain_non_error(orig));
    }
}

/// What a chat asks of the surrounding shell.
pub enum ChatAction {
    Idle,
    PickFiles { id: usize },
}

/// One conversation: its mutable turn log, the compose box, pending
/// attachments, and the channel its in-flight completion reports
/// through.
pub struct Chat {
    pub chatbox: String,
    pub messages: Vec<Message>,
    pub summary: String,
    pub model_picker: ModelPicker,
    pub files: Vec<Attachment>,
    pub prepend_buf: String,
    pub token_count: Option<u32>,
    pub flower: CompletionFlower,
    pub retry_message_idx: Option<usize>,
}

impl Chat {
    /// A fresh chat whose channel carries the given id.
    pub fn new(id: usize, model_picker: ModelPicker) -> (r: Chat)
        ensures
            r.chatbox@.len() == 0,
            r.messages.len() == 0,
            r.summary@.len() == 0,
            r.model_picker == model_picker,
            r.files.len() == 0,
            r.prepend_buf@.len() == 0,
            r.token_count is None,
            r.flower@.id == id,
            !r.flower@.active,
            r.flower@.pending.len() == 0,
            r.flower@.terminal is None,
            r.retry_message_idx is None,
    {
        Chat {
            chatbox: String::new(),
            messages: Vec::new(),
            summary: String::new(),
            model_picker,
            files: Vec::new(),
            prepend_buf: String::new(),
            token_count: None,
            flower: CompletionFlower::new(id),
            retry_message_idx: None,
        }
    }

    /// The chat's id, carried by its channel.
    pub fn id(&self) -> (r: usize)
        ensures
            r == self.flower@.id,
    {
        self.flower.id()
    }

    /// Whether a completion is in flight for this chat.
    pub fn flower_active(&self) -> (r: bool)
        ensures
            r == self.flower@.active,
    {
        self.flower.is_active()
    }

    /// Sends the compose box: error turns are dropped, the trimmed
    /// prompt becomes a user turn carrying the pending attachments, an
    /// empty chat takes its summary from the prompt, and a generating
    /// assistant placeholder is appended. Returns the placeholder's
    /// index — the turn the completion must target — or nothing when
    /// there was nothing to send.
    pub fn send_message(&mut self, now_ms: u64, now_unix: i64) -> (r: Option<usize>)
        ensures
            r is None <==> (old(self).chatbox@.len() == 0 && old(self).files.len() == 0),
            r is None ==> *final(self) == *old(self),
            r matches Some(idx) ==> ({
                let kept = spec_retain_non_error(old(self).messages.deep_view());
                let prompt = spec_trim_end(old(self).chatbox@);
                let model = old(self).model_picker.selected;
                &&& final(self).messages.deep_view() == kept.push(
                    spec_new_message(
                        model,
                        prompt,
                        MessageRole::User,
                        false,
                        old(self).files.deep_view(),
                        now_ms,
                        now_unix,
                    ),
                ).push(
                    spec_new_message(
                        model,
                        Seq::<char>::empty(),
                        MessageRole::Assistant,
                        true,
                        Seq::<AttachmentView>::empty(),
                        now_ms,
                        now_unix,
                    ),
                )
                &&& idx == final(self).messages.len() - 1
                &&& final(self).chatbox@.len() == 0
                &&& final(self).files.len() == 0
                &&& final(self).summary@ == (if old(self).summary@.len() == 0 {
                    spec_make_summary(prompt)
                } else {
                    old(self).summary@
                })
                &&& final(self).prepend_buf == old(self).prepend_buf
                &&& final(self).model_picker == old(self).model_picker
                &&& final(self).flower == old(self).flower
                &&& final(self).token_count == old(self).token_count
                &&& final(self).retry_message_idx == old(self).retry_message_idx
            }),
    {
        if self.chatbox.as_str().is_empty() && self.files.len() == 0 {
            return None;
        }

        retain_non_error(&mut self.messages);

        let prompt: String = trim_end_str(self.chatbox.as_str()).to_owned();
        let model = self.model_picker.selected;

        if self.summary.as_str().is_empty() {
            self.summary = make_summary(prompt.as_str());
        }

        let mut files: Vec<Attachment> = Vec::new();
        core::mem::swap(&mut self.files, &mut files);
        self.chatbox = String::new();

        self.messages.push(Message::user(prompt, model, files, now_ms, now_unix));
        self.messages.push(Message::assistant(String::new(), model, now_ms, now_unix));

        let ghost kept = spec_retain_non_error(old(self).messages.deep_view());
        proof {
            assert(self.messages.deep_view() =~= kept.push(
                spec_new_message(
                    model,
                    spec_trim_end(old(self).chatbox@),
                    MessageRole::User,
                    false,
                    old(self).files.deep_view(),
                    now_ms,
                    now_unix,
                ),
            ).push(
                spec_new_message(
                    model,
                    Seq::<char>::empty(),
                    MessageRole::Assistant,
                    true,
                    Seq::<AttachmentView>::empty(),
                    now_ms,
                    now_unix,
                ),
            ));
        }
        Some(self.messages.len() - 1)
    }

    /// Sends the given text as if it had been typed into the compose box.
    pub fn send_text(&mut self, text: &str, now_ms: u64, now_unix: i64) -> (r: Option<usize>)
        ensures
            r is None <==> (text@.len() == 0 && old(self).files.len() == 0),
    {
        self.chatbox = text.to_owned();
        self.send_message(now_ms, now_unix)
    }

    /// Takes a pending retry: the prompt turn's text and attachments
    /// return to the compose box and both the prompt turn and the error
    /// turn leave the log, ready for a fresh send.
    pub fn restore_retry(&mut self, idx: usize)
        requires
            1 <= idx < old(self).messages.len(),
        ensures
            final(self).chatbox@ == old(self).messages.deep_view()[idx - 1].content,
            final(self).files.deep_view() == old(self).messages.deep_view()[idx - 1].files,
            final(self).messages.deep_view() == old(self).messages.deep_view().remove(
                idx as int,
            ).remove(idx - 1),
            final(self).retry_message_idx is None,
    {
        self.retry_message_idx = None;
        let ghost log0 = self.messages.deep_view();
        let _removed = self.messages.remove(idx);
        let prompt_msg = self.messages.remove(idx - 1);
        self.chatbox = prompt_msg.content;
        self.files = prompt_msg.files;
        proof {
            assert(self.messages.deep_view() =~= log0.remove(idx as int).remove(idx - 1));
        }
    }

    /// Regenerates a response: the prepend buffer becomes the turn's new
    /// starting content and is cleared; the completion then targets that
    /// turn again.
    pub fn regenerate_response(&mut self, idx: usize)
        requires
            idx < old(self).messages.len(),
        ensures
            final(self).messages.deep_view() == old(self).messages.deep_view().update(
                idx as int,
                (MessageView {
                    content: old(self).prepend_buf@,
                    ..old(self).messages.deep_view()[idx as int]
                }),
            ),
            final(self).prepend_buf@.len() == 0,
    {
        let ghost log0 = self.messages.deep_view();
        let mut buf = String::new();
        core::mem::swap(&mut self.prepend_buf, &mut buf);
        let m = &mut self.messages[idx];
        m.content = buf;
        proof {
            assert(self.messages.deep_view() =~= log0.update(
                idx as int,
                (MessageView { content: old(self).prepend_buf@, ..log0[idx as int] }),
            ));
        }
    }

    /// Drains the channel: every buffered progress event is applied in
    /// arrival order, then the terminal outcome — if one arrived — lands
    /// on its turn, and the trailing-turn guard runs. Returns the
    /// diagnosis to surface as an alert when the outcome was a failure.
    /// Polled only while a completion is in flight, when the placeholder
    /// turn is present.
    pub fn poll_flower(&mut self, now_ms: u64, now_unix: i64) -> (alert: Option<String>)
        requires
            old(self).messages.len() > 0,
        ensures
            final(self).flower@.pending.len() == 0,
            final(self).flower@.terminal is None,
            final(self).flower@.id == old(self).flower@.id,
            final(self).flower@.active == (if old(self).flower@.terminal is Some {
                false
            } else {
                old(self).flower@.active
            }),
            ({
                let l1 = spec_apply_events(
                    old(self).messages.deep_view(),
                    old(self).flower@.pending,
                    now_ms,
                    now_unix,
                );
                match old(self).flower@.terminal {
                    None => final(self).messages.deep_view() == spec_finish_trailing(l1, now_ms)
                        && alert is None,
                    Some(OutcomeView::Success { index, text, usage }) => final(self).messages.deep_view() == spec_finish_trailing(
                        spec_apply_success(l1, index, usage),
                        now_ms,
                    ) && alert is None,
                    Some(OutcomeView::Failure { index, message }) => (alert matches Some(d)
                        && spec_diagnosed(message, d@) && final(self).messages.deep_view()
                        == spec_finish_trailing(spec_apply_failure(l1, index, d@, now_ms), now_ms)),
                    Some(OutcomeView::Panicked { message }) => (alert matches Some(d)
                        && spec_diagnosed("Tokio task panicked: "@ + message, d@) && final(self).messages.deep_view() == spec_finish_trailing(
                        spec_apply_failure(l1, (l1.len() - 1) as usize, d@, now_ms),
                        now_ms,
                    )),
                }
            }),
            final(self).chatbox == old(self).chatbox,
            final(self).summary == old(self).summary,
            final(self).files == old(self).files,
            final(self).prepend_buf == old(self).prepend_buf,
            final(self).model_picker == old(self).model_picker,
            final(self).token_count == old(self).token_count,
            final(self).retry_message_idx == old(self).retry_message_idx,
    {
        let ghost log0 = self.messages.deep_view();
        let ghost pending0 = self.flower@.pending;
        let mut events = self.flower.extract();
        while events.len() > 0
            invariant
                self.messages.len() > 0,
                spec_apply_events(self.messages.deep_view(), events.deep_view(), now_ms, now_unix)
                    == spec_apply_events(log0, pending0, now_ms, now_unix),
                self.flower@ == (FlowerView {
                    pending: Seq::<(usize, ProgressView)>::empty(),
                    ..old(self).flower@
                }),
                self.chatbox == old(self).chatbox,
                self.summary == old(self).summary,
                self.files == old(self).files,
                self.prepend_buf == old(self).prepend_buf,
                self.model_picker == old(self).model_picker,
                self.token_count == old(self).token_count,
                self.retry_message_idx == old(self).retry_message_idx,
            decreases events.len(),
        {
            let ghost evs = events.deep_view();
            let (idx, progress) = events.remove(0);
            proof {
                assert(events.deep_view() =~= evs.drop_first());
            }
            apply_progress(&mut self.messages, idx, progress, now_ms, now_unix);
        }
        proof {
            assert(spec_apply_events(
                self.messages.deep_view(),
                events.deep_view(),
                now_ms,
                now_unix,
            ) == self.messages.deep_view());
        }
        let terminal = self.flower.finalize();
        let alert: Option<String> = match terminal {
            Some(outcome) => apply_terminal(&mut self.messages, outcome, now_ms),
            None => None,
        };
        finish_trailing(&mut self.messages, now_ms);
        alert
    }
}

impl Default for Chat {
    fn default() -> (r: Chat)
        ensures
            r.chatbox@.len() == 0,
            r.messages.len() == 0,
            r.summary@.len() == 0,
            r.files.len() == 0,
            r.flower@.id == 1,
            !r.flower@.active,
            r.retry_message_idx is None,
    {
        Chat::new(1, ModelPicker::default())
    }
}

/// The last non-empty turn's contents, user turns marked as such.
pub open spec fn spec_last_contents(log: Seq<MessageView>) -> Option<Seq<char>>
    decreases log.len(),
{
    if log.len() == 0 {
        None
    } else {
        let m = log.last();
        if m.content.len() > 0 {
            Some(
                if m.role == MessageRole::User {
                    "You: "@ + m.content
                } else {
                    m.content
                },
            )
        } else {
            spec_last_contents(log.take(log.len() - 1))
        }
    }
}

impl Chat {
    /// The most recent turn that has any text, for the sidebar preview.
    pub fn last_message_contents(&self) -> (r: Option<String>)
        ensures
            r.deep_view() == spec_last_contents(self.messages.deep_view()),
    {
        let ghost log = self.messages.deep_view();
        let mut i = self.messages.len();
        proof {
            assert(log.take(log.len() as int) =~= log);
        }
        while i > 0
            invariant
                0 <= i <= log.len(),
                log == self.messages.deep_view(),
                spec_last_contents(log) == spec_last_contents(log.take(i as int)),
            decreases i,
        {
            let ghost pre = log.take(i as int);
            proof {
                assert(pre.last() == log[i - 1]);
                assert(pre.take(i - 1) =~= log.take(i - 1));
            }
            i -= 1;
            let m = &self.messages[i];
            if !m.content.as_str().is_empty() {
                if m.is_user() {
                    let mut out = String::new();
                    out.append("You: ");
                    out.append(m.content.as_str());
                    return Some(out);
                } else {
                    let out = m.content.clone();
                    return Some(out);
                }
            }
        }
        proof {
            assert(log.take(0) =~= Seq::<MessageView>::empty());
        }
        None
    }
}

/// The formats the transcript can be exported in.
#[derive(Debug, Clone, Copy, PartialEq, Eq, Structural)]
pub enum ChatExportFormat {
    Plaintext,
    Json,
    Ron,
}

impl Default for ChatExportFormat {
    fn default() -> (r: Self)
        ensures
            r == ChatExportFormat::Plaintext,
    {
        ChatExportFormat::Plaintext
    }
}

impl ChatExportFormat {
    /// The file extensions offered for each format.
    pub fn extensions(self) -> (r: Vec<&'static str>)
        ensures
            r@.len() == 1,
            self == ChatExportFormat::Plaintext ==> r@[0]@ == "txt"@,
            self == ChatExportFormat::Json ==> r@[0]@ == "json"@,
            self == ChatExportFormat::Ron ==> r@[0]@ == "ron"@,
    {
        let mut v: Vec<&'static str> = Vec::new();
        match self {
            ChatExportFormat::Plaintext => v.push("txt"),
            ChatExportFormat::Json => v.push("json"),
            ChatExportFormat::Ron => v.push("ron"),
        }
        v
    }

    /// The format's display name.
    pub fn name(self) -> (r: String)
        ensures
            self == ChatExportFormat::Plaintext ==> r@ == "Plaintext"@,
            self == ChatExportFormat::Json ==> r@ == "Json"@,
            self == ChatExportFormat::Ron ==> r@ == "Ron"@,
    {
        match self {
            ChatExportFormat::Plaintext => "Plaintext".to_owned(),
            ChatExportFormat::Json => "Json".to_owned(),
            ChatExportFormat::Ron => "Ron".to_owned(),
        }
    }
}

/// The RFC 3339 rendering of a unix timestamp.
pub uninterp spec fn rfc3339_of(ts: i64) -> Seq<char>;

/// The largest timestamp (end of year 9999) the export formats.
pub const RFC3339_TS_MAX: i64 = 253402300799;

/// Relies on chrono::DateTime::from_timestamp and to_rfc3339: the RFC
/// 3339 rendering of a unix timestamp, a function of the timestamp
/// alone; timestamps up to the end of year 9999 are well within the
/// range chrono documents as representable.
#[verifier::external_body]
fn format_rfc3339(ts: i64) -> (r: Option<String>)
    ensures
        r matches Some(s) ==> s@ == rfc3339_of(ts),
        (0 <= ts <= RFC3339_TS_MAX) ==> r is Some,
{
    chrono::DateTime::from_timestamp(ts, 0).map(|d| d.to_rfc3339())
}

/// The timestamp text written in an export line; a timestamp outside
/// the representable range contributes nothing.
pub open spec fn spec_time_text(ts: i64) -> Seq<char> {
    if 0 <= ts <= RFC3339_TS_MAX {
        rfc3339_of(ts)
    } else {
        Seq::<char>::empty()
    }
}

/// The role tag written in an export line.
pub open spec fn spec_role_name(r: MessageRole) -> Seq<char> {
    match r {
        MessageRole::User => "User"@,
        MessageRole::Assistant => "Assistant"@,
    }
}

/// One transcript line: time, role, model, and the turn's text.
pub open spec fn spec_export_line(m: MessageView) -> Seq<char> {
    spec_time_text(m.time) + " - "@ + spec_role_name(m.role) + " ("@ + spec_model_id(m.model)
        + "): "@ + m.content + "\n"@
}

/// The whole plaintext transcript, one line per turn.
pub open spec fn spec_export_plaintext(log: Seq<MessageView>) -> Seq<char>
    decreases log.len(),
{
    if log.len() == 0 {
        Seq::<char>::empty()
    } else {
        spec_export_line(log[0]) + spec_export_plaintext(log.drop_first())
    }
}

/// Renders one transcript line.
fn export_line(m: &Message) -> (r: String)
    ensures
        r@ == spec_export_line(m@),
{
    let mut out = String::new();
    if 0 <= m.time && m.time <= RFC3339_TS_MAX {
        match format_rfc3339(m.time) {
            Some(s) => out.append(s.as_str()),
            None => {
                proof {
                    assert(false);
                }
            },
        }
    }
    out.append(" - ");
    match m.role {
        MessageRole::User => out.append("User"),
        MessageRole::Assistant => out.append("Assistant"),
    }
    out.append(" (");
    let id = m.model.model_id();
    out.append(id.as_str());
    out.append("): ");
    out.append(m.content.as_str());
    out.append("\n");
    proof {
        assert(out@ =~= spec_export_line(m@));
    }
    out
}

/// Serializes the turn log to plaintext, one `time - role (model):
/// content` line per turn. The structured export formats are rendered
/// by the shell around the core.
pub fn export_messages_plaintext(messages: &Vec<Message>) -> (r: String)
    ensures
        r@ == spec_export_plaintext(messages.deep_view()),
{
    let ghost log = messages.deep_view();
    let mut out = String::new();
    let mut i: usize = 0;
    proof {
        assert(log.skip(0) =~= log);
        assert(out@ + spec_export_plaintext(log) =~= spec_export_plaintext(log));
    }
    while i < messages.len()
        invariant
            0 <= i <= log.len(),
            log == messages.deep_view(),
            out@ + spec_export_plaintext(log.skip(i as int)) == spec_export_plaintext(log),
        decreases messages.len() - i,
    {
        let ghost rem = log.skip(i as int);
        proof {
            assert(rem[0] == log[i as int]);
            assert(rem.drop_first() =~= log.skip(i as int + 1));
        }
        let line = export_line(&messages[i]);
        out.append(line.as_str());
        proof {
            assert(out@ + spec_export_plaintext(log.skip(i as int + 1)) =~= spec_export_plaintext(
                log,
            ));
        }
        i += 1;
    }
    proof {
        assert(log.skip(log.len() as int) =~= Seq::<MessageView>::empty());
        assert(out@ =~= spec_export_plaintext(log));
    }
    out
}

} // verus!
