use vstd::prelude::*;

use crate::chat::{Chat, ChatExportFormat};
use crate::message::{Attachment, AttachmentView};
use crate::widgets::{ModelPicker, Settings};

verus! {

/// The serde default for flags that start enabled.
pub fn default_true() -> (b: bool)
    ensures
        b,
{
    true
}

/// The open chats, which one is shown, and the global settings; the
/// widgets around them stay with the presentation layer.
pub struct Sessions {
    pub chats: Vec<Chat>,
    pub selected_chat: usize,
    pub chat_marked_for_deletion: usize,
    pub edited_chat: Option<usize>,
    pub chat_export_format: ChatExportFormat,
    pub settings: Settings,
    pub left_panel_visible: bool,
}

impl Default for Sessions {
    fn default() -> (r: Sessions)
        ensures
            r.chats.len() == 1,
            r.selected_chat == 0,
            r.chat_marked_for_deletion == 0,
            r.edited_chat is None,
            r.chat_export_format == ChatExportFormat::Plaintext,
            r.left_panel_visible,
    {
        let mut chats: Vec<Chat> = Vec::new();
        chats.push(Chat::default());
        Sessions {
            chats,
            selected_chat: 0,
            chat_marked_for_deletion: 0,
            edited_chat: None,
            chat_export_format: ChatExportFormat::default(),
            settings: Settings::default(),
            left_panel_visible: true,
        }
    }
}

/// The model of a fresh attachment list made from picked paths.
pub open spec fn spec_new_attachments(paths: Seq<Seq<char>>) -> Seq<AttachmentView>
    decreases paths.len(),
{
    if paths.len() == 0 {
        Seq::<AttachmentView>::empty()
    } else {
        seq![
            AttachmentView {
                path: paths[0],
                state: crate::message::AttachmentStateView {
                    is_pending: true,
                    is_uploading: false,
                    is_failed: false,
                    uploaded: None,
                },
            },
        ] + spec_new_attachments(paths.drop_first())
    }
}

impl Sessions {
    /// Appends a fresh chat whose id exceeds every existing one, so ids
    /// never collide.
    pub fn add_default_chat(&mut self)
        requires
            forall|i: int|
                0 <= i < old(self).chats.len() ==> #[trigger] old(self).chats@[i].flower@.id
                    < usize::MAX,
        ensures
            final(self).chats.len() == old(self).chats.len() + 1,
            final(self).chats@.take(old(self).chats.len() as int) == old(self).chats@,
            forall|i: int|
                0 <= i < old(self).chats.len() ==> #[trigger] old(self).chats@[i].flower@.id
                    < final(self).chats@.last().flower@.id,
            final(self).chats@.last().messages.len() == 0,
            final(self).chats@.last().model_picker.selected
                == old(self).settings.model_picker.selected,
            final(self).selected_chat == old(self).selected_chat,
            final(self).settings == old(self).settings,
    {
        let mut max_id: usize = 0;
        let mut i: usize = 0;
        while i < self.chats.len()
            invariant
                0 <= i <= self.chats.len(),
                forall|j: int| 0 <= j < i ==> #[trigger] self.chats@[j].flower@.id <= max_id,
                max_id == 0 || (exists|j: int|
                    0 <= j < i && #[trigger] self.chats@[j].flower@.id == max_id),
                forall|j: int|
                    0 <= j < self.chats.len() ==> #[trigger] self.chats@[j].flower@.id
                        < usize::MAX,
            decreases self.chats.len() - i,
        {
            let id = self.chats[i].id();
            if id > max_id {
                max_id = id;
            }
            i += 1;
        }
        let ghost before = self.chats@;
        let picker = self.settings.model_picker.duplicate();
        self.chats.push(Chat::new(max_id + 1, picker));
        proof {
            assert(self.chats@.take(before.len() as int) =~= before);
        }
    }

    /// Removes a chat; an emptied list grows a fresh default chat, and
    /// the selection is clamped back into range.
    pub fn remove_chat(&mut self, idx: usize)
        requires
            idx < old(self).chats.len(),
            forall|i: int|
                0 <= i < old(self).chats.len() ==> #[trigger] old(self).chats@[i].flower@.id
                    < usize::MAX,
        ensures
            old(self).chats.len() == 1 ==> final(self).chats.len() == 1 && final(self).selected_chat
                == 0,
            old(self).chats.len() > 1 ==> ({
                &&& final(self).chats@ == old(self).chats@.remove(idx as int)
                &&& final(self).selected_chat == (if old(self).selected_chat < final(self).chats.len() {
                    old(self).selected_chat
                } else {
                    (final(self).chats.len() - 1) as usize
                })
            }),
    {
        self.chats.remove(idx);
        if self.chats.len() == 0 {
            self.add_default_chat();
            self.selected_chat = 0;
        } else if self.selected_chat >= self.chats.len() {
            self.selected_chat = self.chats.len() - 1;
        }
    }

    /// Installs a restored chat list, clamping the restored selection
    /// back to the first chat when it is out of range.
    pub fn restore_chats(&mut self, chats: Vec<Chat>, selected_chat: usize)
        ensures
            final(self).chats == chats,
            final(self).selected_chat == (if selected_chat < chats.len() {
                selected_chat
            } else {
                0
            }),
            final(self).settings == old(self).settings,
    {
        let in_range = selected_chat < chats.len();
        self.chats = chats;
        self.selected_chat = if in_range {
            selected_chat
        } else {
            0
        };
    }

    /// Hands picked files to the chat with the given id: each becomes a
    /// pending attachment of that chat's compose area.
    pub fn add_files_to_chat(&mut self, id: usize, files: Vec<String>) -> (r: Option<usize>)
        ensures
            r is None ==> (forall|i: int|
                0 <= i < old(self).chats.len() ==> #[trigger] old(self).chats@[i].flower@.id != id)
                && *final(self) == *old(self),
            r matches Some(k) ==> ({
                &&& k < old(self).chats.len()
                &&& old(self).chats@[k as int].flower@.id == id
                &&& forall|j: int|
                    0 <= j < k ==> #[trigger] old(self).chats@[j].flower@.id != id
                &&& final(self).chats.len() == old(self).chats.len()
                &&& forall|j: int|
                    0 <= j < old(self).chats.len() && j != k ==> final(self).chats@[j] == old(self).chats@[j]
                &&& final(self).chats@[k as int].files.deep_view() == old(self).chats@[k as int].files.deep_view() + spec_new_attachments(files.deep_view())
                &&& final(self).chats@[k as int].messages == old(self).chats@[k as int].messages
                &&& final(self).chats@[k as int].flower == old(self).chats@[k as int].flower
            }),
    {
        let ghost paths = files.deep_view();
        let mut new_atts: Vec<Attachment> = Vec::new();
        let mut remaining = files;
        proof {
            assert(new_atts.deep_view() + spec_new_attachments(paths) =~= spec_new_attachments(
                paths,
            ));
        }
        while remaining.len() > 0
            invariant
                new_atts.deep_view() + spec_new_attachments(remaining.deep_view())
                    == spec_new_attachments(paths),
            decreases remaining.len(),
        {
            let ghost rem = remaining.deep_view();
            let path = remaining.remove(0);
            proof {
                assert(remaining.deep_view() =~= rem.drop_first());
            }
            let ghost nb = new_atts.deep_view();
            new_atts.push(Attachment::from_path(path));
            proof {
                assert(new_atts.deep_view() =~= nb.push(
                    AttachmentView {
                        path: rem[0],
                        state: crate::message::AttachmentStateView {
                            is_pending: true,
                            is_uploading: false,
                            is_failed: false,
                            uploaded: None,
                        },
                    },
                ));
                assert(new_atts.deep_view() + spec_new_attachments(remaining.deep_view())
                    =~= spec_new_attachments(paths));
            }
        }
        proof {
            assert(new_atts.deep_view() =~= spec_new_attachments(paths));
        }

        let n = self.chats.len();
        let mut k: usize = 0;
        let mut found = false;
        while k < n && !found
            invariant
                0 <= k <= n,
                n == self.chats.len(),
                !found ==> forall|j: int| 0 <= j < k ==> #[trigger] self.chats@[j].flower@.id != id,
                found ==> k < n && self.chats@[k as int].flower@.id == id && (forall|j: int|
                    0 <= j < k ==> #[trigger] self.chats@[j].flower@.id != id),
            decreases n - k + (if found {
                0int
            } else {
                1int
            }),
        {
            if self.chats[k].id() == id {
                found = true;
            } else {
                k += 1;
            }
        }
        if found {
            let c = &mut self.chats[k];
            let ghost files0 = c.files.deep_view();
            c.files.append(&mut new_atts);
            proof {
                assert(c.files.deep_view() =~= files0 + spec_new_attachments(paths));
            }
            Some(k)
        } else {
            None
        }
    }

    /// Records the token count the backend estimated for a chat.
    pub fn set_token_count(&mut self, chat_id: usize, count: u32) -> (r: Option<usize>)
        ensures
            r is None ==> (forall|i: int|
                0 <= i < old(self).chats.len() ==> #[trigger] old(self).chats@[i].flower@.id
                    != chat_id) && *final(self) == *old(self),
            r matches Some(k) ==> ({
                &&& k < old(self).chats.len()
                &&& old(self).chats@[k as int].flower@.id == chat_id
                &&& final(self).chats.len() == old(self).chats.len()
                &&& forall|j: int|
                    0 <= j < old(self).chats.len() && j != k ==> final(self).chats@[j] == old(self).chats@[j]
                &&& final(self).chats@[k as int].token_count == Some(count)
                &&& final(self).chats@[k as int].messages == old(self).chats@[k as int].messages
            }),
    {
        let n = self.chats.len();
        let mut k: usize = 0;
        let mut found = false;
        while k < n && !found
            invariant
                0 <= k <= n,
                n == self.chats.len(),
                !found ==> forall|j: int|
                    0 <= j < k ==> #[trigger] self.chats@[j].flower@.id != chat_id,
                found ==> k < n && self.chats@[k as int].flower@.id == chat_id,
            decreases n - k + (if found {
                0int
            } else {
                1int
            }),
        {
            if self.chats[k].id() == chat_id {
                found = true;
            } else {
                k += 1;
            }
        }
        if found {
            let c = &mut self.chats[k];
            c.token_count = Some(count);
            Some(k)
        } else {
            None
        }
    }

    /// The global model picker new chats inherit from.
    pub fn model_picker(&self) -> (r: &ModelPicker)
        ensures
            r == &self.settings.model_picker,
    {
        &self.settings.model_picker
    }

    /// Applies a successful login: the token and project list are
    /// stored, and the first project becomes current when none was set.
    pub fn apply_auth_result(&mut self, token: String, projects: Vec<String>)
        ensures
            final(self).settings.oauth_token@ == token@,
            final(self).settings.available_projects.deep_view() == projects.deep_view(),
            final(self).settings.project_id@ == (if old(self).settings.project_id@.len() == 0
                && projects.len() > 0 {
                projects.deep_view()[0]
            } else {
                old(self).settings.project_id@
            }),
            final(self).chats == old(self).chats,
    {
        self.settings.oauth_token = token;
        if self.settings.project_id.as_str().is_empty() && projects.len() > 0 {
            self.settings.project_id = projects[0].clone();
        }
        self.settings.available_projects = projects;
    }
}

} // verus!
