use vstd::prelude::*;

use crate::widgets::GeminiModel;

verus! {

/// Who produced a turn of the conversation.
#[derive(Debug, Clone, Copy, PartialEq, Eq, Structural)]
pub enum MessageRole {
    User,
    Assistant,
}

/// Token accounting reported by the backend for one completion.
#[derive(Debug, Clone, Copy, PartialEq, Eq, Structural)]
pub struct Usage {
    pub prompt_token_count: Option<u32>,
    pub candidates_token_count: Option<u32>,
    pub total_token_count: Option<u32>,
}

/// Mathematical model of a remote file handle.
pub ghost struct RemoteHandleView {
    pub uri: Option<Seq<char>>,
    pub mime_type: Option<Seq<char>>,
    pub expiration_time: Option<i64>,
}

/// A handle the backend returned for an uploaded file. Its validity is
/// time-bounded: past `expiration_time` (unix seconds) it must not be reused.
pub struct RemoteHandle {
    pub uri: Option<String>,
    pub mime_type: Option<String>,
    pub expiration_time: Option<i64>,
}

impl View for RemoteHandle {
    type V = RemoteHandleView;

    open spec fn view(&self) -> RemoteHandleView {
        RemoteHandleView {
            uri: self.uri.deep_view(),
            mime_type: self.mime_type.deep_view(),
            expiration_time: self.expiration_time,
        }
    }
}

impl DeepView for RemoteHandle {
    type V = RemoteHandleView;

    open spec fn deep_view(&self) -> RemoteHandleView {
        self.view()
    }
}

/// Mathematical model of an attachment's upload state.
pub ghost struct AttachmentStateView {
    pub is_pending: bool,
    pub is_uploading: bool,
    pub is_failed: bool,
    pub uploaded: Option<RemoteHandleView>,
}

/// Where an attachment stands in its upload lifecycle.
pub enum AttachmentState {
    Pending,
    Uploading,
    Uploaded(RemoteHandle),
    Failed,
}

impl View for AttachmentState {
    type V = AttachmentStateView;

    open spec fn view(&self) -> AttachmentStateView {
        match self {
            AttachmentState::Pending => AttachmentStateView {
                is_pending: true,
                is_uploading: false,
                is_failed: false,
                uploaded: None,
            },
            AttachmentState::Uploading => AttachmentStateView {
                is_pending: false,
                is_uploading: true,
                is_failed: false,
                uploaded: None,
            },
            AttachmentState::Uploaded(h) => AttachmentStateView {
                is_pending: false,
                is_uploading: false,
                is_failed: false,
                uploaded: Some(h@),
            },
            AttachmentState::Failed => AttachmentStateView {
                is_pending: false,
                is_uploading: false,
                is_failed: true,
                uploaded: None,
            },
        }
    }
}

impl DeepView for AttachmentState {
    type V = AttachmentStateView;

    open spec fn deep_view(&self) -> AttachmentStateView {
        self.view()
    }
}

/// Mathematical model of an attachment.
pub ghost struct AttachmentView {
    pub path: Seq<char>,
    pub state: AttachmentStateView,
}

/// A file attached to a turn, identified by its path; the byte contents
/// stay with the file layer outside the core.
pub struct Attachment {
    pub path: String,
    pub state: AttachmentState,
}

impl View for Attachment {
    type V = AttachmentView;

    open spec fn view(&self) -> AttachmentView {
        AttachmentView { path: self.path@, state: self.state@ }
    }
}

impl DeepView for Attachment {
    type V = AttachmentView;

    open spec fn deep_view(&self) -> AttachmentView {
        self.view()
    }
}

impl Attachment {
    /// A fresh attachment for a path picked or dropped by the user.
    pub fn from_path(path: String) -> (r: Attachment)
        ensures
            r@.path == path@,
            r@.state.is_pending,
    {
        Attachment { path, state: AttachmentState::Pending }
    }
}

/// Mathematical model of one conversation turn.
pub ghost struct MessageView {
    pub model: GeminiModel,
    pub content: Seq<char>,
    pub role: MessageRole,
    pub is_generating: bool,
    pub requested_at: u64,
    pub time: i64,
    pub generation_time: Option<u64>,
    pub is_error: bool,
    pub files: Seq<AttachmentView>,
    pub is_prepending: bool,
    pub is_thought: bool,
    pub usage: Option<Usage>,
    pub status_message: Option<Seq<char>>,
}

/// One turn of the conversation log. `requested_at` and `time` are
/// timestamps the caller supplies (milliseconds of a monotonic reference,
/// and unix seconds).
pub struct Message {
    pub model: GeminiModel,
    pub content: String,
    pub role: MessageRole,
    pub is_generating: bool,
    pub requested_at: u64,
    pub time: i64,
    pub generation_time: Option<u64>,
    pub is_error: bool,
    pub files: Vec<Attachment>,
    pub is_prepending: bool,
    pub is_thought: bool,
    pub usage: Option<Usage>,
    pub status_message: Option<String>,
}

impl View for Message {
    type V = MessageView;

    open spec fn view(&self) -> MessageView {
        MessageView {
            model: self.model,
            content: self.content@,
            role: self.role,
            is_generating: self.is_generating,
            requested_at: self.requested_at,
            time: self.time,
            generation_time: self.generation_time,
            is_error: self.is_error,
            files: self.files.deep_view(),
            is_prepending: self.is_prepending,
            is_thought: self.is_thought,
            usage: self.usage,
            status_message: self.status_message.deep_view(),
        }
    }
}

impl DeepView for Message {
    type V = MessageView;

    open spec fn deep_view(&self) -> MessageView {
        self.view()
    }
}

/// The model of a freshly created turn with the given role and content.
pub open spec fn spec_new_message(
    model: GeminiModel,
    content: Seq<char>,
    role: MessageRole,
    is_generating: bool,
    files: Seq<AttachmentView>,
    requested_at: u64,
    time: i64,
) -> MessageView {
    MessageView {
        model,
        content,
        role,
        is_generating,
        requested_at,
        time,
        generation_time: None,
        is_error: false,
        files,
        is_prepending: false,
        is_thought: false,
        usage: None,
        status_message: None,
    }
}

impl Message {
    /// A user turn carrying the prompt text and its attachments.
    pub fn user(
        content: String,
        model: GeminiModel,
        files: Vec<Attachment>,
        requested_at: u64,
        time: i64,
    ) -> (r: Message)
        ensures
            r@ == spec_new_message(
                model,
                content@,
                MessageRole::User,
                false,
                files.deep_view(),
                requested_at,
                time,
            ),
    {
        Message {
            model,
            content,
            role: MessageRole::User,
            is_generating: false,
            requested_at,
            time,
            generation_time: None,
            is_error: false,
            files,
            is_prepending: false,
            is_thought: false,
            usage: None,
            status_message: None,
        }
    }

    /// An assistant turn that starts out generating: the placeholder the
    /// streamed response is written into.
    pub fn assistant(content: String, model: GeminiModel, requested_at: u64, time: i64) -> (r:
        Message)
        ensures
            r@ == spec_new_message(
                model,
                content@,
                MessageRole::Assistant,
                true,
                Seq::<AttachmentView>::empty(),
                requested_at,
                time,
            ),
    {
        let files: Vec<Attachment> = Vec::new();
        proof {
            assert(files.deep_view() =~= Seq::<AttachmentView>::empty());
        }
        Message {
            model,
            content,
            role: MessageRole::Assistant,
            is_generating: true,
            requested_at,
            time,
            generation_time: None,
            is_error: false,
            files,
            is_prepending: false,
            is_thought: false,
            usage: None,
            status_message: None,
        }
    }

    /// Whether this turn came from the user.
    pub fn is_user(&self) -> (r: bool)
        ensures
            r == (self.role == MessageRole::User),
    {
        matches!(self.role, MessageRole::User)
    }
}

/// An owned copy of an optional string.
fn clone_opt_string(o: &Option<String>) -> (r: Option<String>)
    ensures
        r.deep_view() == o.deep_view(),
{
    match o {
        Some(s) => Some(s.clone()),
        None => None,
    }
}

impl Attachment {
    /// An owned copy of the attachment.
    pub fn duplicate(&self) -> (r: Attachment)
        ensures
            r@ == self@,
    {
        let state = match &self.state {
            AttachmentState::Pending => AttachmentState::Pending,
            AttachmentState::Uploading => AttachmentState::Uploading,
            AttachmentState::Failed => AttachmentState::Failed,
            AttachmentState::Uploaded(h) => AttachmentState::Uploaded(
                RemoteHandle {
                    uri: clone_opt_string(&h.uri),
                    mime_type: clone_opt_string(&h.mime_type),
                    expiration_time: h.expiration_time,
                },
            ),
        };
        Attachment { path: self.path.clone(), state }
    }
}

/// An owned copy of an attachment list.
pub fn duplicate_files(files: &Vec<Attachment>) -> (r: Vec<Attachment>)
    ensures
        r.deep_view() == files.deep_view(),
{
    let mut out: Vec<Attachment> = Vec::new();
    let mut i: usize = 0;
    while i < files.len()
        invariant
            0 <= i <= files.len(),
            out.deep_view() =~= files.deep_view().take(i as int),
        decreases files.len() - i,
    {
        let ghost ob = out.deep_view();
        out.push(files[i].duplicate());
        proof {
            assert(out.deep_view() =~= ob.push(files.deep_view()[i as int]));
        }
        i += 1;
    }
    proof {
        assert(out.deep_view() =~= files.deep_view());
    }
    out
}

impl Message {
    /// An owned copy of the turn, as handed to a background task.
    pub fn duplicate(&self) -> (r: Message)
        ensures
            r@ == self@,
    {
        Message {
            model: self.model,
            content: self.content.clone(),
            role: self.role,
            is_generating: self.is_generating,
            requested_at: self.requested_at,
            time: self.time,
            generation_time: self.generation_time,
            is_error: self.is_error,
            files: duplicate_files(&self.files),
            is_prepending: self.is_prepending,
            is_thought: self.is_thought,
            usage: self.usage,
            status_message: clone_opt_string(&self.status_message),
        }
    }
}

/// An owned copy of the turn log, as handed to a background task.
pub fn duplicate_log(messages: &Vec<Message>) -> (r: Vec<Message>)
    ensures
        r.deep_view() == messages.deep_view(),
{
    let mut out: Vec<Message> = Vec::new();
    let mut i: usize = 0;
    while i < messages.len()
        invariant
            0 <= i <= messages.len(),
            out.deep_view() =~= messages.deep_view().take(i as int),
        decreases messages.len() - i,
    {
        let ghost ob = out.deep_view();
        out.push(messages[i].duplicate());
        proof {
            assert(out.deep_view() =~= ob.push(messages.deep_view()[i as int]));
        }
        i += 1;
    }
    proof {
        assert(out.deep_view() =~= messages.deep_view());
    }
    out
}

impl Default for Message {
    fn default() -> (r: Message)
        ensures
            r@ == spec_new_message(
                GeminiModel::Gemini30Flash,
                Seq::<char>::empty(),
                MessageRole::User,
                false,
                Seq::<AttachmentView>::empty(),
                0,
                0,
            ),
    {
        let files: Vec<Attachment> = Vec::new();
        proof {
            assert(files.deep_view() =~= Seq::<AttachmentView>::empty());
        }
        Message::user(String::new(), GeminiModel::Gemini30Flash, files, 0, 0)
    }
}

} // verus!
