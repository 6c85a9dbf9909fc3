use vstd::prelude::*;

use crate::flower::{ChatProgress, ProgressView};
use crate::message::{Attachment, AttachmentView, MessageRole, RemoteHandleView};
use vstd::string::StrSliceExecFns;

verus! {

/// Role tag of a wire-level content block.
#[derive(Debug, Clone, Copy, PartialEq, Eq, Structural)]
pub enum WireRole {
    User,
    Model,
}

/// Mathematical model of one wire-level part.
pub ghost enum PartView {
    Text { text: Seq<char>, thought: Option<bool> },
    FileRef { file_uri: Seq<char>, mime_type: Seq<char> },
}

/// One part of a content block: a text fragment, or a reference to a
/// previously uploaded file.
pub enum Part {
    Text { text: String, thought: Option<bool> },
    FileRef { file_uri: String, mime_type: String },
}

impl View for Part {
    type V = PartView;

    open spec fn view(&self) -> PartView {
        match self {
            Part::Text { text, thought } => PartView::Text { text: text@, thought: *thought },
            Part::FileRef { file_uri, mime_type } => PartView::FileRef {
                file_uri: file_uri@,
                mime_type: mime_type@,
            },
        }
    }
}

impl DeepView for Part {
    type V = PartView;

    open spec fn deep_view(&self) -> PartView {
        self.view()
    }
}

/// Mathematical model of one wire-level content block.
pub ghost struct ContentBlockView {
    pub parts: Seq<PartView>,
    pub role: WireRole,
}

/// The wire-level grouping unit sent to the backend: a role and the parts
/// merged under it.
pub struct ContentBlock {
    pub parts: Vec<Part>,
    pub role: WireRole,
}

impl View for ContentBlock {
    type V = ContentBlockView;

    open spec fn view(&self) -> ContentBlockView {
        ContentBlockView { parts: self.parts.deep_view(), role: self.role }
    }
}

impl DeepView for ContentBlock {
    type V = ContentBlockView;

    open spec fn deep_view(&self) -> ContentBlockView {
        self.view()
    }
}

/// How the file layer resolved an attachment that could not reuse a
/// remote handle: an inline part, a fresh upload, or a failure.
pub ghost enum ConversionView {
    Inline(PartView),
    Uploaded(RemoteHandleView),
    Failed(Seq<char>),
}

/// Outcome of converting one attachment outside the core.
pub enum Conversion {
    Inline(Part),
    Uploaded(crate::message::RemoteHandle),
    Failed(String),
}

impl View for Conversion {
    type V = ConversionView;

    open spec fn view(&self) -> ConversionView {
        match self {
            Conversion::Inline(p) => ConversionView::Inline(p@),
            Conversion::Uploaded(h) => ConversionView::Uploaded(h@),
            Conversion::Failed(e) => ConversionView::Failed(e@),
        }
    }
}

impl DeepView for Conversion {
    type V = ConversionView;

    open spec fn deep_view(&self) -> ConversionView {
        self.view()
    }
}

/// Mathematical model of one conversion request.
pub ghost struct ConversionRequestView {
    pub msg_index: usize,
    pub path: Seq<char>,
    pub allow_upload: bool,
}

/// One attachment the file layer must convert before the history can be
/// built: which message it belongs to, its path, and whether a remote
/// upload is permitted for it.
pub struct ConversionRequest {
    pub msg_index: usize,
    pub path: String,
    pub allow_upload: bool,
}

impl View for ConversionRequest {
    type V = ConversionRequestView;

    open spec fn view(&self) -> ConversionRequestView {
        ConversionRequestView {
            msg_index: self.msg_index,
            path: self.path@,
            allow_upload: self.allow_upload,
        }
    }
}

impl DeepView for ConversionRequest {
    type V = ConversionRequestView;

    open spec fn deep_view(&self) -> ConversionRequestView {
        self.view()
    }
}

/// The wire role under which a turn's parts are sent.
pub open spec fn spec_wire_role(r: MessageRole) -> WireRole {
    match r {
        MessageRole::User => WireRole::User,
        MessageRole::Assistant => WireRole::Model,
    }
}

/// Turns that enter the history: not a thought, and not entirely empty.
pub open spec fn spec_kept(m: crate::message::MessageView) -> bool {
    !m.is_thought && !(m.content.len() == 0 && m.files.len() == 0)
}

/// An absent string read as empty.
pub open spec fn spec_str_or_empty(s: Option<Seq<char>>) -> Seq<char> {
    match s {
        Some(x) => x,
        None => Seq::<char>::empty(),
    }
}

/// Whether an attachment's remote handle may be reused at time `now`
/// (unix seconds) without touching the network: it is uploaded, it
/// carries a URI, and its expiration — if it has one — has not passed.
pub open spec fn spec_reusable(a: AttachmentView, now: i64) -> bool {
    match a.state.uploaded {
        Some(h) => h.uri is Some && (match h.expiration_time {
            Some(exp) => !(exp < now),
            None => true,
        }),
        None => false,
    }
}

/// The lightweight reference part produced for a reusable handle.
pub open spec fn spec_reuse_part(a: AttachmentView) -> PartView {
    let h = a.state.uploaded->0;
    PartView::FileRef { file_uri: h.uri->0, mime_type: spec_str_or_empty(h.mime_type) }
}

/// The part, if any, an uploaded handle contributes: both coordinates
/// must be present for a reference to be formed.
pub open spec fn spec_uploaded_parts(h: RemoteHandleView) -> Seq<PartView> {
    if h.uri is Some && h.mime_type is Some {
        seq![PartView::FileRef { file_uri: h.uri->0, mime_type: h.mime_type->0 }]
    } else {
        Seq::<PartView>::empty()
    }
}

/// The component of a path after its last separator; the whole path when
/// it has none.
pub open spec fn spec_file_name(p: Seq<char>) -> Seq<char>
    decreases p.len(),
{
    if p.len() == 0 {
        p
    } else if p.last() == '/' {
        Seq::<char>::empty()
    } else {
        spec_file_name(p.take(p.len() - 1)).push(p.last())
    }
}

/// When no separator occurs in the path, the file name is the path.
proof fn lemma_file_name_no_slash(p: Seq<char>)
    requires
        forall|k: int| 0 <= k < p.len() ==> p[k] != '/',
    ensures
        spec_file_name(p) == p,
    decreases p.len(),
{
    if p.len() > 0 {
        lemma_file_name_no_slash(p.take(p.len() - 1));
        assert(spec_file_name(p.take(p.len() - 1)).push(p.last()) =~= p);
    } else {
        assert(spec_file_name(p) =~= p);
    }
}

/// When the last separator stands at `j`, the file name is what follows it.
proof fn lemma_file_name_after_slash(p: Seq<char>, j: int)
    requires
        0 <= j < p.len(),
        p[j] == '/',
        forall|k: int| j < k < p.len() ==> p[k] != '/',
    ensures
        spec_file_name(p) == p.skip(j + 1),
    decreases p.len(),
{
    if j == p.len() - 1 {
        assert(p.last() == '/');
        assert(spec_file_name(p) =~= p.skip(j + 1));
    } else {
        lemma_file_name_after_slash(p.take(p.len() - 1), j);
        assert(spec_file_name(p) =~= p.take(p.len() - 1).skip(j + 1).push(p.last()));
        assert(p.take(p.len() - 1).skip(j + 1).push(p.last()) =~= p.skip(j + 1));
    }
}

/// The file-name component of a path, used in status lines.
pub fn file_name_of(path: &str) -> (r: &str)
    ensures
        r@ == spec_file_name(path@),
{
    let n = path.unicode_len();
    let mut start: usize = 0;
    let mut i: usize = 0;
    while i < n
        invariant
            n == path@.len(),
            0 <= start <= i <= n,
            start == 0 ==> forall|k: int| 0 <= k < i ==> path@[k] != '/',
            start > 0 ==> path@[start - 1] == '/' && (forall|k: int|
                start <= k < i ==> path@[k] != '/'),
        decreases n - i,
    {
        if path.get_char(i) == '/' {
            start = i + 1;
        }
        i += 1;
    }
    proof {
        if start == 0 {
            lemma_file_name_no_slash(path@);
        } else {
            lemma_file_name_after_slash(path@, start - 1);
        }
    }
    path.substring_char(start, n)
}

/// The status line shown while an attachment is processed.
pub open spec fn spec_status_text(path: Seq<char>) -> Seq<char> {
    "Processing file: "@ + spec_file_name(path) + "..."@
}

/// The progress events emitted for one attachment that goes through
/// conversion, in emission order.
pub open spec fn spec_convert_events(
    path: Seq<char>,
    conv: ConversionView,
    allow_upload: bool,
    has_sink: bool,
    status_index: usize,
    msg_index: usize,
) -> Seq<(usize, ProgressView)> {
    let pre = if has_sink {
        let s = seq![(status_index, ProgressView::Status { message: spec_status_text(path) })];
        if allow_upload {
            s.push((msg_index, ProgressView::FileUploading { path }))
        } else {
            s
        }
    } else {
        Seq::<(usize, ProgressView)>::empty()
    };
    match conv {
        ConversionView::Uploaded(h) => if has_sink {
            pre.push((msg_index, ProgressView::FileUploaded { path, file: h }))
        } else {
            pre
        },
        _ => pre,
    }
}

/// The parts one conversion outcome contributes.
pub open spec fn spec_convert_parts(conv: ConversionView) -> Seq<PartView> {
    match conv {
        ConversionView::Inline(p) => seq![p],
        ConversionView::Uploaded(h) => spec_uploaded_parts(h),
        ConversionView::Failed(e) => Seq::<PartView>::empty(),
    }
}

/// What resolving a run of attachments produces: their parts in order,
/// the progress events in emission order, and the conversions not yet
/// consumed.
pub ghost struct FilesOut {
    pub parts: Seq<PartView>,
    pub events: Seq<(usize, ProgressView)>,
    pub rest: Seq<ConversionView>,
}

/// Resolves a run of attachments: a reusable handle yields its reference
/// part at once; every other attachment consumes the next conversion
/// outcome, in order. A missing outcome counts as a failed conversion.
pub open spec fn spec_resolve_files(
    files: Seq<AttachmentView>,
    convs: Seq<ConversionView>,
    now: i64,
    allow_upload: bool,
    has_sink: bool,
    status_index: usize,
    msg_index: usize,
) -> FilesOut
    decreases files.len(),
{
    if files.len() == 0 {
        FilesOut {
            parts: Seq::<PartView>::empty(),
            events: Seq::<(usize, ProgressView)>::empty(),
            rest: convs,
        }
    } else {
        let a = files[0];
        if spec_reusable(a, now) {
            let rec = spec_resolve_files(
                files.drop_first(),
                convs,
                now,
                allow_upload,
                has_sink,
                status_index,
                msg_index,
            );
            FilesOut {
                parts: seq![spec_reuse_part(a)] + rec.parts,
                events: rec.events,
                rest: rec.rest,
            }
        } else if convs.len() == 0 {
            let rec = spec_resolve_files(
                files.drop_first(),
                convs,
                now,
                allow_upload,
                has_sink,
                status_index,
                msg_index,
            );
            FilesOut {
                parts: rec.parts,
                events: spec_convert_events(
                    a.path,
                    ConversionView::Failed(Seq::<char>::empty()),
                    allow_upload,
                    has_sink,
                    status_index,
                    msg_index,
                ) + rec.events,
                rest: rec.rest,
            }
        } else {
            let rec = spec_resolve_files(
                files.drop_first(),
                convs.drop_first(),
                now,
                allow_upload,
                has_sink,
                status_index,
                msg_index,
            );
            FilesOut {
                parts: spec_convert_parts(convs[0]) + rec.parts,
                events: spec_convert_events(
                    a.path,
                    convs[0],
                    allow_upload,
                    has_sink,
                    status_index,
                    msg_index,
                ) + rec.events,
                rest: rec.rest,
            }
        }
    }
}

/// Without a progress sink, resolving attachments emits nothing.
pub proof fn lemma_resolve_files_no_sink(
    files: Seq<AttachmentView>,
    convs: Seq<ConversionView>,
    now: i64,
    allow_upload: bool,
    status_index: usize,
    msg_index: usize,
)
    ensures
        spec_resolve_files(files, convs, now, allow_upload, false, status_index, msg_index).events
            == Seq::<(usize, ProgressView)>::empty(),
    decreases files.len(),
{
    if files.len() > 0 {
        let a = files[0];
        if spec_reusable(a, now) {
            lemma_resolve_files_no_sink(
                files.drop_first(),
                convs,
                now,
                allow_upload,
                status_index,
                msg_index,
            );
        } else if convs.len() == 0 {
            lemma_resolve_files_no_sink(
                files.drop_first(),
                convs,
                now,
                allow_upload,
                status_index,
                msg_index,
            );
            assert(spec_convert_events(
                a.path,
                ConversionView::Failed(Seq::<char>::empty()),
                allow_upload,
                false,
                status_index,
                msg_index,
            ) + Seq::<(usize, ProgressView)>::empty() =~= Seq::<(usize, ProgressView)>::empty());
        } else {
            lemma_resolve_files_no_sink(
                files.drop_first(),
                convs.drop_first(),
                now,
                allow_upload,
                status_index,
                msg_index,
            );
            assert(spec_convert_events(
                a.path,
                convs[0],
                allow_upload,
                false,
                status_index,
                msg_index,
            ) + Seq::<(usize, ProgressView)>::empty() =~= Seq::<(usize, ProgressView)>::empty());
        }
    }
}

/// The conversion requests a run of attachments gives rise to at time
/// `now`: one per attachment whose handle cannot be reused.
pub open spec fn spec_files_requests(
    files: Seq<AttachmentView>,
    now: i64,
    allow_upload: bool,
    msg_index: usize,
) -> Seq<ConversionRequestView>
    decreases files.len(),
{
    if files.len() == 0 {
        Seq::<ConversionRequestView>::empty()
    } else if spec_reusable(files[0], now) {
        spec_files_requests(files.drop_first(), now, allow_upload, msg_index)
    } else {
        seq![ConversionRequestView { msg_index, path: files[0].path, allow_upload }]
            + spec_files_requests(files.drop_first(), now, allow_upload, msg_index)
    }
}

/// Attachment reuse: an uploaded handle with a future expiration never
/// gives rise to a conversion request — it is reused as it stands — while
/// one whose expiration has passed always does.
pub proof fn lemma_attachment_reuse(
    a: AttachmentView,
    exp: i64,
    now: i64,
    allow_upload: bool,
    msg_index: usize,
)
    requires
        a.state.uploaded matches Some(h) && h.uri is Some && h.expiration_time == Some(exp),
    ensures
        exp >= now ==> spec_files_requests(seq![a], now, allow_upload, msg_index)
            == Seq::<ConversionRequestView>::empty(),
        exp < now ==> spec_files_requests(seq![a], now, allow_upload, msg_index) == seq![
            ConversionRequestView { msg_index, path: a.path, allow_upload },
        ],
{
    let s = seq![a];
    assert(s[0] == a);
    assert(s.drop_first() =~= Seq::<AttachmentView>::empty());
    if exp >= now {
        assert(spec_reusable(a, now));
    } else {
        assert(!spec_reusable(a, now));
        assert(seq![ConversionRequestView { msg_index, path: a.path, allow_upload }]
            + spec_files_requests(s.drop_first(), now, allow_upload, msg_index) =~= seq![
            ConversionRequestView { msg_index, path: a.path, allow_upload },
        ]);
    }
}

/// Resolves one message's attachments, appending their parts and events
/// and consuming conversions from the front of `convs`.
fn resolve_files(
    files: &Vec<Attachment>,
    convs: &mut Vec<Conversion>,
    parts: &mut Vec<Part>,
    events: &mut Vec<(usize, ChatProgress)>,
    now: i64,
    allow_upload: bool,
    has_sink: bool,
    status_index: usize,
    msg_index: usize,
)
    ensures
        ({
            let fo = spec_resolve_files(
                files.deep_view(),
                old(convs).deep_view(),
                now,
                allow_upload,
                has_sink,
                status_index,
                msg_index,
            );
            &&& final(parts).deep_view() == old(parts).deep_view() + fo.parts
            &&& final(events).deep_view() == old(events).deep_view() + fo.events
            &&& final(convs).deep_view() == fo.rest
        }),
{
    let ghost fs = files.deep_view();
    let ghost parts0 = parts.deep_view();
    let ghost events0 = events.deep_view();
    let ghost fo_total = spec_resolve_files(
        fs,
        convs.deep_view(),
        now,
        allow_upload,
        has_sink,
        status_index,
        msg_index,
    );
    let mut i: usize = 0;
    proof {
        assert(fs.skip(0) =~= fs);
    }
    while i < files.len()
        invariant
            fs == files.deep_view(),
            0 <= i <= fs.len(),
            ({
                let fo = spec_resolve_files(
                    fs.skip(i as int),
                    convs.deep_view(),
                    now,
                    allow_upload,
                    has_sink,
                    status_index,
                    msg_index,
                );
                &&& parts0 + fo_total.parts == parts.deep_view() + fo.parts
                &&& events0 + fo_total.events == events.deep_view() + fo.events
                &&& fo_total.rest == fo.rest
            }),
        decreases files.len() - i,
    {
        let ghost rem = fs.skip(i as int);
        let ghost convs_before = convs.deep_view();
        proof {
            assert(rem[0] == fs[i as int]);
            assert(rem.drop_first() =~= fs.skip(i as int + 1));
        }
        let a = &files[i];
        let mut handled = false;
        match &a.state {
            crate::message::AttachmentState::Uploaded(h) => {
                let expired = match h.expiration_time {
                    Some(exp) => exp < now,
                    None => false,
                };
                if !expired {
                    if let Some(u) = &h.uri {
                        let mime = match &h.mime_type {
                            Some(m) => m.clone(),
                            None => String::new(),
                        };
                        let ghost pb = parts.deep_view();
                        parts.push(Part::FileRef { file_uri: u.clone(), mime_type: mime });
                        proof {
                            assert(spec_reusable(rem[0], now));
                            assert(parts.deep_view() =~= pb.push(spec_reuse_part(rem[0])));
                        }
                        handled = true;
                    }
                }
            },
            _ => {},
        }
        if !handled {
            proof {
                assert(!spec_reusable(rem[0], now));
            }
            if has_sink {
                let mut status = String::new();
                status.append("Processing file: ");
                status.append(file_name_of(a.path.as_str()));
                status.append("...");
                let ghost eb = events.deep_view();
                events.push((status_index, ChatProgress::Status { message: status }));
                proof {
                    assert(events.deep_view() =~= eb.push(
                        (
                            status_index,
                            ProgressView::Status { message: spec_status_text(rem[0].path) },
                        ),
                    ));
                }
                if allow_upload {
                    let ghost eb2 = events.deep_view();
                    events.push((msg_index, ChatProgress::FileUploading { path: a.path.clone() }));
                    proof {
                        assert(events.deep_view() =~= eb2.push(
                            (msg_index, ProgressView::FileUploading { path: rem[0].path }),
                        ));
                    }
                }
            }
            if convs.len() > 0 {
                let c = convs.remove(0);
                proof {
                    assert(convs.deep_view() =~= convs_before.drop_first());
                }
                match c {
                    Conversion::Inline(p) => {
                        let ghost pb = parts.deep_view();
                        parts.push(p);
                        proof {
                            assert(parts.deep_view() =~= pb + spec_convert_parts(convs_before[0]));
                        }
                    },
                    Conversion::Uploaded(h) => {
                        let uri_mime: Option<(String, String)> = match (&h.uri, &h.mime_type) {
                            (Some(u), Some(m)) => Some((u.clone(), m.clone())),
                            _ => None,
                        };
                        if has_sink {
                            let ghost eb3 = events.deep_view();
                            events.push(
                                (
                                    msg_index,
                                    ChatProgress::FileUploaded { path: a.path.clone(), file: h },
                                ),
                            );
                            proof {
                                assert(events.deep_view() =~= eb3.push(
                                    (
                                        msg_index,
                                        ProgressView::FileUploaded {
                                            path: rem[0].path,
                                            file: convs_before[0]->Uploaded_0,
                                        },
                                    ),
                                ));
                            }
                        }
                        let ghost pb = parts.deep_view();
                        if let Some((u, m)) = uri_mime {
                            parts.push(Part::FileRef { file_uri: u, mime_type: m });
                        }
                        proof {
                            assert(parts.deep_view() =~= pb + spec_convert_parts(convs_before[0]));
                        }
                    },
                    Conversion::Failed(e) => {
                        // the attachment is skipped; the file layer already
                        // reported the failure
                    },
                }
            }
        }
        proof {
            let fo_rem = spec_resolve_files(
                rem,
                convs_before,
                now,
                allow_upload,
                has_sink,
                status_index,
                msg_index,
            );
            let fo_next = spec_resolve_files(
                fs.skip(i as int + 1),
                convs.deep_view(),
                now,
                allow_upload,
                has_sink,
                status_index,
                msg_index,
            );
            assert(parts0 + fo_total.parts =~= parts.deep_view() + fo_next.parts);
            assert(events0 + fo_total.events =~= events.deep_view() + fo_next.events);
        }
        i += 1;
    }
    proof {
        assert(fs.skip(fs.len() as int) =~= Seq::<AttachmentView>::empty());
        assert(parts0 + fo_total.parts =~= parts.deep_view());
        assert(events0 + fo_total.events =~= events.deep_view());
        assert(parts.deep_view() =~= parts0 + fo_total.parts);
        assert(events.deep_view() =~= events0 + fo_total.events);
    }
}

/// Mathematical model of the extra, in-progress turn.
pub ghost struct ExtraContentView {
    pub text: Seq<char>,
    pub files: Seq<AttachmentView>,
}

/// An optional extra turn — typically the compose box, used for live
/// token counting. Its attachments are never uploaded remotely and its
/// processing reports no progress.
pub struct ExtraContent {
    pub text: String,
    pub files: Vec<Attachment>,
}

impl View for ExtraContent {
    type V = ExtraContentView;

    open spec fn view(&self) -> ExtraContentView {
        ExtraContentView { text: self.text@, files: self.files.deep_view() }
    }
}

impl DeepView for ExtraContent {
    type V = ExtraContentView;

    open spec fn deep_view(&self) -> ExtraContentView {
        self.view()
    }
}

/// The full state of the history builder: completed blocks, the pending
/// part accumulator and its role, the events emitted so far, and the
/// conversions not yet consumed.
pub ghost struct BuildSt {
    pub history: Seq<ContentBlockView>,
    pub buffer: Seq<PartView>,
    pub active_role: Option<WireRole>,
    pub events: Seq<(usize, ProgressView)>,
    pub convs: Seq<ConversionView>,
}

/// The builder's starting state, holding the supplied conversions.
pub open spec fn spec_build_init(convs: Seq<ConversionView>) -> BuildSt {
    BuildSt {
        history: Seq::<ContentBlockView>::empty(),
        buffer: Seq::<PartView>::empty(),
        active_role: None,
        events: Seq::<(usize, ProgressView)>::empty(),
        convs,
    }
}

/// A role change flushes the non-empty accumulator as a completed block
/// under the old role; the first role just takes over the accumulator.
pub open spec fn spec_role_switch(st: BuildSt, role: WireRole) -> BuildSt {
    match st.active_role {
        Some(cur) => if cur != role {
            if st.buffer.len() > 0 {
                BuildSt {
                    history: st.history.push(ContentBlockView { parts: st.buffer, role: cur }),
                    buffer: Seq::<PartView>::empty(),
                    active_role: Some(role),
                    ..st
                }
            } else {
                BuildSt { active_role: Some(role), ..st }
            }
        } else {
            st
        },
        None => BuildSt { active_role: Some(role), ..st },
    }
}

/// One turn's contribution to the build: skipped entirely when it is a
/// thought or empty; otherwise its resolved attachment parts followed by
/// its text part, under its role.
pub open spec fn spec_build_step(
    st: BuildSt,
    m: crate::message::MessageView,
    idx: int,
    now: i64,
    allow_upload: bool,
    has_sink: bool,
    status_index: usize,
) -> BuildSt {
    if !spec_kept(m) {
        st
    } else {
        let role = spec_wire_role(m.role);
        let st1 = spec_role_switch(st, role);
        let fo = spec_resolve_files(
            m.files,
            st1.convs,
            now,
            allow_upload,
            has_sink,
            status_index,
            idx as usize,
        );
        let buf2 = st1.buffer + fo.parts;
        let buf3 = if m.content.len() > 0 {
            buf2.push(PartView::Text { text: m.content, thought: None })
        } else {
            buf2
        };
        BuildSt {
            history: st1.history,
            buffer: buf3,
            active_role: st1.active_role,
            events: st1.events + fo.events,
            convs: fo.rest,
        }
    }
}

/// The builder folded over a run of turns, `idx0` being the index of the
/// first within the whole log.
pub open spec fn spec_build_msgs(
    st: BuildSt,
    msgs: Seq<crate::message::MessageView>,
    idx0: int,
    now: i64,
    allow_upload: bool,
    has_sink: bool,
    status_index: usize,
) -> BuildSt
    decreases msgs.len(),
{
    if msgs.len() == 0 {
        st
    } else {
        spec_build_msgs(
            spec_build_step(st, msgs[0], idx0, now, allow_upload, has_sink, status_index),
            msgs.drop_first(),
            idx0 + 1,
            now,
            allow_upload,
            has_sink,
            status_index,
        )
    }
}

/// After the last turn, a non-empty accumulator is flushed as the final
/// block.
pub open spec fn spec_final_flush(st: BuildSt) -> BuildSt {
    if st.buffer.len() > 0 && st.active_role is Some {
        BuildSt {
            history: st.history.push(
                ContentBlockView { parts: st.buffer, role: st.active_role->0 },
            ),
            buffer: Seq::<PartView>::empty(),
            ..st
        }
    } else {
        st
    }
}

/// The extra turn, when present, forms one trailing user block from its
/// inline-only attachment parts and its text; nothing is emitted and
/// nothing is uploaded for it.
pub open spec fn spec_extra_block(st: BuildSt, extra: Option<ExtraContentView>, now: i64) -> BuildSt {
    match extra {
        None => st,
        Some(e) => {
            let fo = spec_resolve_files(e.files, st.convs, now, false, false, 0, 0);
            let ps = if e.text.len() > 0 {
                fo.parts.push(PartView::Text { text: e.text, thought: None })
            } else {
                fo.parts
            };
            if ps.len() > 0 {
                BuildSt {
                    history: st.history.push(ContentBlockView { parts: ps, role: WireRole::User }),
                    convs: fo.rest,
                    ..st
                }
            } else {
                BuildSt { convs: fo.rest, ..st }
            }
        },
    }
}

/// The whole build: the turns in order, the final flush, the extra turn,
/// and — when a progress sink is present — a terminal clear-status event
/// that retires any transient status text.
pub open spec fn spec_build_history(
    msgs: Seq<crate::message::MessageView>,
    extra: Option<ExtraContentView>,
    convs: Seq<ConversionView>,
    now: i64,
    allow_upload: bool,
    has_sink: bool,
    status_index: usize,
) -> BuildSt {
    let st = spec_build_msgs(
        spec_build_init(convs),
        msgs,
        0,
        now,
        allow_upload,
        has_sink,
        status_index,
    );
    let st2 = spec_extra_block(spec_final_flush(st), extra, now);
    if has_sink {
        BuildSt {
            events: st2.events.push(
                (status_index, ProgressView::Status { message: Seq::<char>::empty() }),
            ),
            ..st2
        }
    } else {
        st2
    }
}

/// The conversion requests of a run of turns, `idx0` being the index of
/// the first; skipped turns request nothing.
pub open spec fn spec_msgs_requests(
    msgs: Seq<crate::message::MessageView>,
    idx0: int,
    now: i64,
    allow_upload: bool,
) -> Seq<ConversionRequestView>
    decreases msgs.len(),
{
    if msgs.len() == 0 {
        Seq::<ConversionRequestView>::empty()
    } else {
        (if spec_kept(msgs[0]) {
            spec_files_requests(msgs[0].files, now, allow_upload, idx0 as usize)
        } else {
            Seq::<ConversionRequestView>::empty()
        }) + spec_msgs_requests(msgs.drop_first(), idx0 + 1, now, allow_upload)
    }
}

/// Every conversion the build will consume, in consumption order: the
/// kept turns' non-reusable attachments, then the extra turn's, the
/// latter never with upload permission.
pub open spec fn spec_all_requests(
    msgs: Seq<crate::message::MessageView>,
    extra: Option<ExtraContentView>,
    now: i64,
    allow_upload: bool,
) -> Seq<ConversionRequestView> {
    spec_msgs_requests(msgs, 0, now, allow_upload) + (match extra {
        Some(e) => spec_files_requests(e.files, now, false, 0),
        None => Seq::<ConversionRequestView>::empty(),
    })
}

/// Appends the conversion requests of one attachment list.
fn files_requests(
    files: &Vec<Attachment>,
    out: &mut Vec<ConversionRequest>,
    now: i64,
    allow_upload: bool,
    msg_index: usize,
)
    ensures
        final(out).deep_view() == old(out).deep_view() + spec_files_requests(
            files.deep_view(),
            now,
            allow_upload,
            msg_index,
        ),
{
    let ghost fs = files.deep_view();
    let ghost out0 = out.deep_view();
    let ghost target = spec_files_requests(fs, now, allow_upload, msg_index);
    let mut i: usize = 0;
    proof {
        assert(fs.skip(0) =~= fs);
    }
    while i < files.len()
        invariant
            fs == files.deep_view(),
            0 <= i <= fs.len(),
            out0 + target == out.deep_view() + spec_files_requests(
                fs.skip(i as int),
                now,
                allow_upload,
                msg_index,
            ),
        decreases files.len() - i,
    {
        let ghost rem = fs.skip(i as int);
        proof {
            assert(rem[0] == fs[i as int]);
            assert(rem.drop_first() =~= fs.skip(i as int + 1));
        }
        let a = &files[i];
        let mut reusable = false;
        match &a.state {
            crate::message::AttachmentState::Uploaded(h) => {
                let expired = match h.expiration_time {
                    Some(exp) => exp < now,
                    None => false,
                };
                if !expired && h.uri.is_some() {
                    reusable = true;
                }
            },
            _ => {},
        }
        if !reusable {
            let ghost ob = out.deep_view();
            out.push(ConversionRequest { msg_index, path: a.path.clone(), allow_upload });
            proof {
                assert(out.deep_view() =~= ob.push(
                    ConversionRequestView { msg_index, path: rem[0].path, allow_upload },
                ));
                assert(ob.push(ConversionRequestView { msg_index, path: rem[0].path, allow_upload })
                    + spec_files_requests(rem.drop_first(), now, allow_upload, msg_index) =~= ob
                    + spec_files_requests(rem, now, allow_upload, msg_index));
            }
        }
        i += 1;
    }
    proof {
        assert(fs.skip(fs.len() as int) =~= Seq::<AttachmentView>::empty());
        assert(out.deep_view() =~= out0 + target);
    }
}

/// Lists, at time `now`, every attachment the file layer must convert
/// before `build_history` can run: one request per non-reusable
/// attachment of a kept turn, then of the extra turn. `allow_upload`
/// should already account for the progress sink: without a sink nothing
/// is uploaded.
pub fn conversion_requests(
    messages: &Vec<crate::message::Message>,
    extra: Option<&ExtraContent>,
    now: i64,
    allow_upload: bool,
) -> (r: Vec<ConversionRequest>)
    ensures
        r.deep_view() == spec_all_requests(
            messages.deep_view(),
            (match extra {
                Some(e) => Some(e@),
                None => None,
            }),
            now,
            allow_upload,
        ),
{
    let ghost msgs = messages.deep_view();
    let ghost target = spec_msgs_requests(msgs, 0, now, allow_upload);
    let mut out: Vec<ConversionRequest> = Vec::new();
    let mut idx: usize = 0;
    proof {
        assert(msgs.skip(0) =~= msgs);
        assert(Seq::<ConversionRequestView>::empty() + target =~= target);
    }
    while idx < messages.len()
        invariant
            msgs == messages.deep_view(),
            0 <= idx <= msgs.len(),
            out.deep_view() + spec_msgs_requests(msgs.skip(idx as int), idx as int, now, allow_upload)
                == target,
        decreases messages.len() - idx,
    {
        let ghost rem = msgs.skip(idx as int);
        proof {
            assert(rem[0] == msgs[idx as int]);
            assert(rem.drop_first() =~= msgs.skip(idx as int + 1));
        }
        let m = &messages[idx];
        let kept = !m.is_thought && !(m.content.as_str().is_empty() && m.files.len() == 0);
        let ghost out_before = out.deep_view();
        if kept {
            files_requests(&m.files, &mut out, now, allow_upload, idx);
        }
        proof {
            assert(out.deep_view() + spec_msgs_requests(
                msgs.skip(idx as int + 1),
                idx as int + 1,
                now,
                allow_upload,
            ) =~= target);
        }
        idx += 1;
    }
    proof {
        assert(msgs.skip(msgs.len() as int) =~= Seq::<crate::message::MessageView>::empty());
        assert(out.deep_view() =~= target);
    }
    match extra {
        Some(e) => {
            files_requests(&e.files, &mut out, now, false, 0);
            proof {
                assert(out.deep_view() =~= spec_all_requests(msgs, Some(e@), now, allow_upload));
            }
        },
        None => {
            proof {
                assert(out.deep_view() =~= spec_all_requests(msgs, None, now, allow_upload));
            }
        },
    }
    out
}

/// Relies on time::OffsetDateTime::now_utc and unix_timestamp: the
/// current wall-clock time as unix seconds. Nothing further can be
/// promised of a clock reading, so callers state what holds for every
/// value it may return.
#[verifier::external_body]
fn current_unix_time() -> i64 {
    time::OffsetDateTime::now_utc().unix_timestamp()
}

/// Lists the conversions the build needs, judged against the current
/// wall clock; the clock reading is returned so that the later
/// `build_history` call can be made against the same instant.
pub fn conversion_requests_now(
    messages: &Vec<crate::message::Message>,
    extra: Option<&ExtraContent>,
    allow_upload: bool,
) -> (r: (Vec<ConversionRequest>, i64))
    ensures
        r.0.deep_view() == spec_all_requests(
            messages.deep_view(),
            (match extra {
                Some(e) => Some(e@),
                None => None,
            }),
            r.1,
            allow_upload,
        ),
{
    let now = current_unix_time();
    (conversion_requests(messages, extra, now, allow_upload), now)
}

/// Turns an ordered conversation into provider-shaped content blocks:
/// thought and empty turns are skipped, consecutive turns of one role
/// merge into one block, each kept turn contributes its resolved
/// attachment parts and then its text part, and the extra turn — if any —
/// forms one trailing inline-only user block. The returned events are
/// the progress the build emitted, in order, ending in a clear-status
/// event when a sink is present; a failed conversion skips its
/// attachment and never aborts the build.
pub fn build_history(
    messages: &Vec<crate::message::Message>,
    extra: Option<&ExtraContent>,
    conversions: Vec<Conversion>,
    now: i64,
    public_file_upload: bool,
    has_sink: bool,
    status_index: usize,
) -> (r: (Vec<ContentBlock>, Vec<(usize, ChatProgress)>))
    ensures
        ({
            let st = spec_build_history(
                messages.deep_view(),
                (match extra {
                    Some(e) => Some(e@),
                    None => None,
                }),
                conversions.deep_view(),
                now,
                public_file_upload,
                has_sink,
                status_index,
            );
            &&& r.0.deep_view() == st.history
            &&& r.1.deep_view() == st.events
        }),
{
    let ghost msgs = messages.deep_view();
    let ghost convs0 = conversions.deep_view();
    let ghost st_target = spec_build_msgs(
        spec_build_init(conversions.deep_view()),
        msgs,
        0,
        now,
        public_file_upload,
        has_sink,
        status_index,
    );
    let mut history: Vec<ContentBlock> = Vec::new();
    let mut parts_buffer: Vec<Part> = Vec::new();
    let mut active_role: Option<WireRole> = None;
    let mut events: Vec<(usize, ChatProgress)> = Vec::new();
    let mut convs = conversions;
    let mut idx: usize = 0;
    proof {
        assert(msgs.skip(0) =~= msgs);
        assert(history.deep_view() =~= Seq::<ContentBlockView>::empty());
        assert(parts_buffer.deep_view() =~= Seq::<PartView>::empty());
        assert(events.deep_view() =~= Seq::<(usize, ProgressView)>::empty());
    }
    while idx < messages.len()
        invariant
            msgs == messages.deep_view(),
            0 <= idx <= msgs.len(),
            spec_build_msgs(
                BuildSt {
                    history: history.deep_view(),
                    buffer: parts_buffer.deep_view(),
                    active_role: active_role,
                    events: events.deep_view(),
                    convs: convs.deep_view(),
                },
                msgs.skip(idx as int),
                idx as int,
                now,
                public_file_upload,
                has_sink,
                status_index,
            ) == st_target,
        decreases messages.len() - idx,
    {
        let ghost rem = msgs.skip(idx as int);
        let ghost st_before = BuildSt {
            history: history.deep_view(),
            buffer: parts_buffer.deep_view(),
            active_role: active_role,
            events: events.deep_view(),
            convs: convs.deep_view(),
        };
        proof {
            assert(rem[0] == msgs[idx as int]);
            assert(rem.drop_first() =~= msgs.skip(idx as int + 1));
        }
        let m = &messages[idx];
        let kept = !m.is_thought && !(m.content.as_str().is_empty() && m.files.len() == 0);
        if kept {
            let role = match m.role {
                crate::message::MessageRole::User => WireRole::User,
                crate::message::MessageRole::Assistant => WireRole::Model,
            };
            match active_role {
                Some(cur) => {
                    if cur != role {
                        if parts_buffer.len() > 0 {
                            let mut taken: Vec<Part> = Vec::new();
                            core::mem::swap(&mut parts_buffer, &mut taken);
                            let ghost hb = history.deep_view();
                            history.push(ContentBlock { parts: taken, role: cur });
                            proof {
                                assert(history.deep_view() =~= hb.push(
                                    ContentBlockView { parts: st_before.buffer, role: cur },
                                ));
                                assert(parts_buffer.deep_view() =~= Seq::<PartView>::empty());
                            }
                        }
                        active_role = Some(role);
                    }
                },
                None => {
                    active_role = Some(role);
                },
            }
            let ghost st1 = spec_role_switch(st_before, spec_wire_role(rem[0].role));
            proof {
                assert(history.deep_view() =~= st1.history);
                assert(parts_buffer.deep_view() =~= st1.buffer);
            }
            resolve_files(
                &m.files,
                &mut convs,
                &mut parts_buffer,
                &mut events,
                now,
                public_file_upload,
                has_sink,
                status_index,
                idx,
            );
            if !m.content.as_str().is_empty() {
                let ghost pb = parts_buffer.deep_view();
                parts_buffer.push(Part::Text { text: m.content.clone(), thought: None });
                proof {
                    assert(parts_buffer.deep_view() =~= pb.push(
                        PartView::Text { text: rem[0].content, thought: None },
                    ));
                }
            }
            proof {
                let stepped = spec_build_step(
                    st_before,
                    rem[0],
                    idx as int,
                    now,
                    public_file_upload,
                    has_sink,
                    status_index,
                );
                assert(history.deep_view() =~= stepped.history);
                assert(parts_buffer.deep_view() =~= stepped.buffer);
                assert(events.deep_view() =~= stepped.events);
                assert(convs.deep_view() =~= stepped.convs);
                assert(active_role == stepped.active_role);
            }
        }
        idx += 1;
    }
    proof {
        assert(msgs.skip(msgs.len() as int) =~= Seq::<crate::message::MessageView>::empty());
    }
    // final flush
    let ghost st_after = BuildSt {
        history: history.deep_view(),
        buffer: parts_buffer.deep_view(),
        active_role: active_role,
        events: events.deep_view(),
        convs: convs.deep_view(),
    };
    proof {
        assert(st_after == st_target);
    }
    if parts_buffer.len() > 0 {
        if let Some(role) = active_role {
            let mut taken: Vec<Part> = Vec::new();
            core::mem::swap(&mut parts_buffer, &mut taken);
            let ghost hb = history.deep_view();
            history.push(ContentBlock { parts: taken, role });
            proof {
                assert(history.deep_view() =~= hb.push(
                    ContentBlockView { parts: st_target.buffer, role: st_target.active_role->0 },
                ));
            }
        }
    }
    proof {
        assert(history.deep_view() =~= spec_final_flush(st_target).history);
    }
    // extra turn
    match extra {
        Some(e) => {
            let ghost convs_at_extra = convs.deep_view();
            let mut extra_parts: Vec<Part> = Vec::new();
            proof {
                assert(extra_parts.deep_view() =~= Seq::<PartView>::empty());
            }
            let ghost events_at_extra = events.deep_view();
            resolve_files(&e.files, &mut convs, &mut extra_parts, &mut events, now, false, false, 0, 0);
            proof {
                let fo = spec_resolve_files(e@.files, convs_at_extra, now, false, false, 0, 0);
                assert(Seq::<PartView>::empty() + fo.parts =~= fo.parts);
                lemma_resolve_files_no_sink(e@.files, convs_at_extra, now, false, 0, 0);
                assert(events.deep_view() =~= events_at_extra);
            }
            if !e.text.as_str().is_empty() {
                let ghost pb = extra_parts.deep_view();
                extra_parts.push(Part::Text { text: e.text.clone(), thought: None });
                proof {
                    assert(extra_parts.deep_view() =~= pb.push(
                        PartView::Text { text: e@.text, thought: None },
                    ));
                }
            }
            if extra_parts.len() > 0 {
                let ghost hb = history.deep_view();
                history.push(ContentBlock { parts: extra_parts, role: WireRole::User });
                proof {
                    let fo = spec_resolve_files(e@.files, convs_at_extra, now, false, false, 0, 0);
                    let ps = if e@.text.len() > 0 {
                        fo.parts.push(PartView::Text { text: e@.text, thought: None })
                    } else {
                        fo.parts
                    };
                    assert(history.deep_view() =~= hb.push(
                        ContentBlockView { parts: ps, role: WireRole::User },
                    ));
                }
            }
            proof {
                let st2 = spec_extra_block(spec_final_flush(st_target), Some(e@), now);
                assert(history.deep_view() =~= st2.history);
                assert(convs.deep_view() =~= st2.convs);
            }
        },
        None => {},
    }
    // clear any transient status once payload construction finishes
    if has_sink {
        let ghost eb = events.deep_view();
        events.push((status_index, ChatProgress::Status { message: String::new() }));
        proof {
            assert(events.deep_view() =~= eb.push(
                (status_index, ProgressView::Status { message: Seq::<char>::empty() }),
            ));
        }
    }
    proof {
        let extra_v = (match extra {
            Some(e) => Some(e@),
            None => None,
        });
        let st2 = spec_extra_block(spec_final_flush(st_target), extra_v, now);
        let st_bh = spec_build_history(
            msgs,
            extra_v,
            convs0,
            now,
            public_file_upload,
            has_sink,
            status_index,
        );
        assert(history.deep_view() == st2.history);
        assert(st_bh.history == st2.history);
        if has_sink {
            assert(events.deep_view() =~= st2.events.push(
                (status_index, ProgressView::Status { message: Seq::<char>::empty() }),
            ));
        } else {
            assert(events.deep_view() == st2.events);
        }
    }
    (history, events)
}

/// One kept turn's contribution to the pending block: its resolved
/// attachment parts followed by its text part, and the conversions left
/// over.
pub open spec fn spec_turn_parts(
    m: crate::message::MessageView,
    convs: Seq<ConversionView>,
    now: i64,
    allow_upload: bool,
    has_sink: bool,
    status_index: usize,
    idx: int,
) -> (Seq<PartView>, Seq<ConversionView>) {
    let fo = spec_resolve_files(
        m.files,
        convs,
        now,
        allow_upload,
        has_sink,
        status_index,
        idx as usize,
    );
    let ps = if m.content.len() > 0 {
        fo.parts.push(PartView::Text { text: m.content, thought: None })
    } else {
        fo.parts
    };
    (ps, fo.rest)
}

/// Merging: any four turns with text under the roles
/// user–user–assistant–user build exactly three blocks — consecutive
/// turns of one role merge — with the first block carrying both leading
/// user turns' parts, in order.
pub proof fn lemma_role_merging(
    m0: crate::message::MessageView,
    m1: crate::message::MessageView,
    m2: crate::message::MessageView,
    m3: crate::message::MessageView,
    convs: Seq<ConversionView>,
    now: i64,
    allow_upload: bool,
    has_sink: bool,
    status_index: usize,
)
    requires
        m0.role == MessageRole::User,
        m1.role == MessageRole::User,
        m2.role == MessageRole::Assistant,
        m3.role == MessageRole::User,
        forall|m: crate::message::MessageView|
            #![auto]
            seq![m0, m1, m2, m3].contains(m) ==> !m.is_thought && m.content.len() > 0,
    ensures
        ({
            let st = spec_build_history(
                seq![m0, m1, m2, m3],
                None,
                convs,
                now,
                allow_upload,
                has_sink,
                status_index,
            );
            let t0 = spec_turn_parts(m0, convs, now, allow_upload, has_sink, status_index, 0);
            let t1 = spec_turn_parts(m1, t0.1, now, allow_upload, has_sink, status_index, 1);
            let t2 = spec_turn_parts(m2, t1.1, now, allow_upload, has_sink, status_index, 2);
            let t3 = spec_turn_parts(m3, t2.1, now, allow_upload, has_sink, status_index, 3);
            &&& st.history.len() == 3
            &&& st.history[0].parts == t0.0 + t1.0
            &&& st.history[0].role == WireRole::User
            &&& st.history[1].parts == t2.0
            &&& st.history[1].role == WireRole::Model
            &&& st.history[2].parts == t3.0
            &&& st.history[2].role == WireRole::User
        }),
{
    let msgs = seq![m0, m1, m2, m3];
    assert(msgs.contains(m0) && msgs.contains(m1) && msgs.contains(m2) && msgs.contains(m3));
    assert(msgs[0] == m0 && msgs[1] == m1 && msgs[2] == m2 && msgs[3] == m3);
    let t0 = spec_turn_parts(m0, convs, now, allow_upload, has_sink, status_index, 0);
    let t1 = spec_turn_parts(m1, t0.1, now, allow_upload, has_sink, status_index, 1);
    let t2 = spec_turn_parts(m2, t1.1, now, allow_upload, has_sink, status_index, 2);
    let t3 = spec_turn_parts(m3, t2.1, now, allow_upload, has_sink, status_index, 3);
    let st0 = spec_build_init(convs);
    let st1 = spec_build_step(st0, m0, 0, now, allow_upload, has_sink, status_index);
    let st2 = spec_build_step(st1, m1, 1, now, allow_upload, has_sink, status_index);
    let st3 = spec_build_step(st2, m2, 2, now, allow_upload, has_sink, status_index);
    let st4 = spec_build_step(st3, m3, 3, now, allow_upload, has_sink, status_index);
    let r1 = msgs.drop_first();
    let r2 = r1.drop_first();
    let r3 = r2.drop_first();
    let r4 = r3.drop_first();
    assert(r1 =~= seq![m1, m2, m3]);
    assert(r2 =~= seq![m2, m3]);
    assert(r3 =~= seq![m3]);
    assert(r4 =~= Seq::<crate::message::MessageView>::empty());
    assert(r1[0] == m1 && r2[0] == m2 && r3[0] == m3);
    assert(spec_build_msgs(st0, msgs, 0, now, allow_upload, has_sink, status_index)
        == spec_build_msgs(st1, r1, 1, now, allow_upload, has_sink, status_index));
    assert(spec_build_msgs(st1, r1, 1, now, allow_upload, has_sink, status_index)
        == spec_build_msgs(st2, r2, 2, now, allow_upload, has_sink, status_index));
    assert(spec_build_msgs(st2, r2, 2, now, allow_upload, has_sink, status_index)
        == spec_build_msgs(st3, r3, 3, now, allow_upload, has_sink, status_index));
    assert(spec_build_msgs(st3, r3, 3, now, allow_upload, has_sink, status_index)
        == spec_build_msgs(st4, r4, 4, now, allow_upload, has_sink, status_index));
    assert(spec_build_msgs(st0, msgs, 0, now, allow_upload, has_sink, status_index) == st4);
    // the two user turns accumulate into one pending block
    assert(st1.buffer =~= t0.0);
    assert(st1.convs == t0.1);
    assert(st2.buffer =~= t0.0 + t1.0);
    assert(st2.convs == t1.1);
    assert(t0.0.len() > 0 && t1.0.len() > 0 && t2.0.len() > 0 && t3.0.len() > 0);
    // the role change to the assistant flushes it
    assert(st3.history =~= seq![ContentBlockView { parts: st2.buffer, role: WireRole::User }]);
    assert(st3.buffer =~= t2.0);
    assert(st3.convs == t2.1);
    // and the role change back to the user flushes the answer block
    assert(st4.history =~= st3.history.push(
        ContentBlockView { parts: st3.buffer, role: WireRole::Model },
    ));
    assert(st4.buffer =~= t3.0);
    let stf = spec_final_flush(st4);
    assert(stf.history =~= st4.history.push(
        ContentBlockView { parts: st4.buffer, role: WireRole::User },
    ));
}

} // verus!

