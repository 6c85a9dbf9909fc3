use vstd::prelude::*;

verus! {

/// Information the settings panel may ask the surrounding shell to obtain.
pub enum RequestInfoType {
    LoadSettings,
    LoginGoogle,
    LogoutGoogle,
    SelectProject(String),
}

/// The available generative models.
#[derive(Debug, Clone, Copy, PartialEq, Eq, Structural)]
pub enum GeminiModel {
    Gemini30Flash,
    Gemini30Pro,
    Gemini20Flash,
    Gemini20FlashLite,
    Gemini25Pro,
    Gemini25Flash,
    Gemini15Flash,
    Gemini15Flash8b,
    Gemini25FlashPreview0520,
    Gemini20FlashThinkingExp0121,
    Gemini20FlashThinkingExp1219,
    Gemma31bIt,
    Gemma34bIt,
    Gemma312bIt,
    Gemma327bIt,
    Gemma3nE4bIt,
    Gemma3nE2bIt,
    Gemini15Pro,
    Gemini25ProPreview0325,
    Gemini25ProPreview0506,
    Gemini25ProPreview0605,
}

impl Default for GeminiModel {
    fn default() -> (r: Self)
        ensures
            r == GeminiModel::Gemini30Flash,
    {
        GeminiModel::Gemini30Flash
    }
}

/// The wire identifier of each model.
pub open spec fn spec_model_id(m: GeminiModel) -> Seq<char> {
    match m {
        GeminiModel::Gemini30Flash => "gemini-3-flash-preview"@,
        GeminiModel::Gemini30Pro => "gemini-3-pro-preview"@,
        GeminiModel::Gemini20Flash => "gemini-2.0-flash"@,
        GeminiModel::Gemini20FlashLite => "gemini-2.0-flash-lite"@,
        GeminiModel::Gemini25Pro => "gemini-2.5-pro"@,
        GeminiModel::Gemini25Flash => "gemini-2.5-flash"@,
        GeminiModel::Gemini15Flash => "gemini-1.5-flash"@,
        GeminiModel::Gemini15Flash8b => "gemini-1.5-flash-8b"@,
        GeminiModel::Gemini25FlashPreview0520 => "gemini-2.5-flash-preview-05-20"@,
        GeminiModel::Gemini20FlashThinkingExp0121 => "gemini-2.0-flash-thinking-exp-01-21"@,
        GeminiModel::Gemini20FlashThinkingExp1219 => "gemini-2.0-flash-thinking-exp-1219"@,
        GeminiModel::Gemma31bIt => "gemma-3-1b-it"@,
        GeminiModel::Gemma34bIt => "gemma-3-4b-it"@,
        GeminiModel::Gemma312bIt => "gemma-3-12b-it"@,
        GeminiModel::Gemma327bIt => "gemma-3-27b-it"@,
        GeminiModel::Gemma3nE4bIt => "gemma-3n-e4b-it"@,
        GeminiModel::Gemma3nE2bIt => "gemma-3n-e2b-it"@,
        GeminiModel::Gemini15Pro => "gemini-1.5-pro"@,
        GeminiModel::Gemini25ProPreview0325 => "gemini-2.5-pro-preview-03-25"@,
        GeminiModel::Gemini25ProPreview0506 => "gemini-2.5-pro-preview-05-06"@,
        GeminiModel::Gemini25ProPreview0605 => "gemini-2.5-pro-preview-06-05"@,
    }
}

impl GeminiModel {
    /// The identifier under which this model is addressed on the wire.
    pub fn model_id(self) -> (r: String)
        ensures
            r@ == spec_model_id(self),
    {
        match self {
            GeminiModel::Gemini30Flash => "gemini-3-flash-preview".to_owned(),
            GeminiModel::Gemini30Pro => "gemini-3-pro-preview".to_owned(),
            GeminiModel::Gemini20Flash => "gemini-2.0-flash".to_owned(),
            GeminiModel::Gemini20FlashLite => "gemini-2.0-flash-lite".to_owned(),
            GeminiModel::Gemini25Pro => "gemini-2.5-pro".to_owned(),
            GeminiModel::Gemini25Flash => "gemini-2.5-flash".to_owned(),
            GeminiModel::Gemini15Flash => "gemini-1.5-flash".to_owned(),
            GeminiModel::Gemini15Flash8b => "gemini-1.5-flash-8b".to_owned(),
            GeminiModel::Gemini25FlashPreview0520 => "gemini-2.5-flash-preview-05-20".to_owned(),
            GeminiModel::Gemini20FlashThinkingExp0121 => {
                "gemini-2.0-flash-thinking-exp-01-21".to_owned()
            },
            GeminiModel::Gemini20FlashThinkingExp1219 => {
                "gemini-2.0-flash-thinking-exp-1219".to_owned()
            },
            GeminiModel::Gemma31bIt => "gemma-3-1b-it".to_owned(),
            GeminiModel::Gemma34bIt => "gemma-3-4b-it".to_owned(),
            GeminiModel::Gemma312bIt => "gemma-3-12b-it".to_owned(),
            GeminiModel::Gemma327bIt => "gemma-3-27b-it".to_owned(),
            GeminiModel::Gemma3nE4bIt => "gemma-3n-e4b-it".to_owned(),
            GeminiModel::Gemma3nE2bIt => "gemma-3n-e2b-it".to_owned(),
            GeminiModel::Gemini15Pro => "gemini-1.5-pro".to_owned(),
            GeminiModel::Gemini25ProPreview0325 => "gemini-2.5-pro-preview-03-25".to_owned(),
            GeminiModel::Gemini25ProPreview0506 => "gemini-2.5-pro-preview-05-06".to_owned(),
            GeminiModel::Gemini25ProPreview0605 => "gemini-2.5-pro-preview-06-05".to_owned(),
        }
    }
}

/// Model selection shared by chats and the global settings. The numeric
/// inference knobs stay with the presentation layer; the core only needs
/// to know which model is addressed and any custom system prompt.
pub struct ModelPicker {
    pub selected: GeminiModel,
    pub system_prompt: Option<String>,
}

impl Default for ModelPicker {
    fn default() -> (r: Self)
        ensures
            r.selected == GeminiModel::Gemini30Flash,
            r.system_prompt is None,
    {
        ModelPicker { selected: GeminiModel::Gemini30Flash, system_prompt: None }
    }
}

impl ModelPicker {
    /// An owned copy of the selection.
    pub fn duplicate(&self) -> (r: ModelPicker)
        ensures
            r.selected == self.selected,
            r.system_prompt.deep_view() == self.system_prompt.deep_view(),
    {
        let system_prompt = match &self.system_prompt {
            Some(s) => Some(s.clone()),
            None => None,
        };
        ModelPicker { selected: self.selected, system_prompt }
    }
}

/// How the backend request is authenticated: a plain key, or the alternate
/// protocol that needs a prior handshake.
#[derive(Debug, Clone, Copy, PartialEq, Eq, Structural)]
pub enum AuthMethod {
    ApiKey,
    CodeAssist,
}

impl Default for AuthMethod {
    fn default() -> (r: Self)
        ensures
            r == AuthMethod::ApiKey,
    {
        AuthMethod::ApiKey
    }
}

/// The settings the completion controller reads. Presentation-only knobs
/// (inference sliders, theming) live outside the core.
pub struct Settings {
    pub api_key: String,
    pub oauth_token: String,
    pub project_id: String,
    pub available_projects: Vec<String>,
    pub auth_method: AuthMethod,
    pub model_picker: ModelPicker,
    pub inherit_chat_picker: bool,
    pub use_streaming: bool,
    pub include_thoughts_in_history: bool,
    pub public_file_upload: bool,
    pub proxy_path: Option<String>,
}

impl Default for Settings {
    fn default() -> (r: Self)
        ensures
            r.api_key@ == Seq::<char>::empty(),
            r.oauth_token@ == Seq::<char>::empty(),
            r.project_id@ == Seq::<char>::empty(),
            r.available_projects.len() == 0,
            r.auth_method == AuthMethod::ApiKey,
            r.model_picker.selected == GeminiModel::Gemini30Flash,
            r.model_picker.system_prompt is None,
            r.inherit_chat_picker,
            r.use_streaming,
            !r.include_thoughts_in_history,
            !r.public_file_upload,
            r.proxy_path is None,
    {
        Settings {
            api_key: String::new(),
            oauth_token: String::new(),
            project_id: String::new(),
            available_projects: Vec::new(),
            auth_method: AuthMethod::ApiKey,
            model_picker: ModelPicker::default(),
            inherit_chat_picker: true,
            use_streaming: true,
            include_thoughts_in_history: false,
            public_file_upload: false,
            proxy_path: None,
        }
    }
}

/// Text-to-speech input is passed through whole; the speech engine copes
/// with markup on its own.
pub fn sanitize_text_for_tts(s: &str) -> (r: String)
    ensures
        r@ == s@,
{
    let mut result = String::new();
    result.append(s);
    result
}

} // verus!
