//! The desktop window's state and the decisions behind it: what each
//! finished background task changes, what closing the window does, the
//! settings form, and the preset list's tags and filter.
use vstd::prelude::*;

use crate::presets::{Preset, TextLine};
use crate::public_config::PublicConfigResult;
use crate::sender::SendProgress;
use crate::update_checker::UpdateResult;
use crate::order::{lex_lt, lex_less, lemma_lex_total, lemma_lex_trans};
use crate::text::{trim, decimal, decimal_of, str_eq, chars_of, push_char, contains, contains_exec, lowercase, to_lowercase, signed_decimal, signed_decimal_of, parse_i64, parse_signed};
use crate::yaml::{
    YamlNode, Yaml, spec_get_str, spec_get_bool, spec_get_i64, get_str, get_bool, get_i64, map_view, lemma_map_view,
    merge, keys_unique, lemma_find_key_is, law_section_write_read_back,
};

verus! {

/// The panel shown in the main area.
#[derive(Debug, PartialEq, Eq, Structural)]
pub enum Panel {
    Home,
    Send,
    QuickSend,
    AiGenerate,
    Presets,
    Settings,
}

impl Default for Panel {
    fn default() -> (r: Panel)
        ensures
            r == Panel::Home,
    {
        Panel::Home
    }
}

/// The tab of the settings panel.
#[derive(Debug, PartialEq, Eq, Structural)]
pub enum SettingsTab {
    Sender,
    Server,
    AI,
    Overlay,
}

impl Default for SettingsTab {
    fn default() -> (r: SettingsTab)
        ensures
            r == SettingsTab::Sender,
    {
        SettingsTab::Sender
    }
}

/// What a preset card asks for (with the preset's id).
#[derive(Debug)]
pub enum PresetCardAction {
    /// Nothing was clicked.
    Idle,
    Use(String),
    Edit(String),
    Delete(String),
    Export(String),
}

/// A line in the editable text list.
#[derive(Debug)]
pub struct TextItem {
    pub text_type: String,
    pub content: String,
}

/// Whether the text list was edited.
#[derive(Debug)]
pub enum TextListAction {
    Unchanged,
    Changed,
}

/// A choice from the tray icon's menu.
#[derive(Debug)]
pub enum TrayCommand {
    ShowWindow,
    Exit,
}

/// A line of the send panel.
#[derive(Debug)]
pub struct TextEntry {
    pub text_type: String,
    pub content: String,
}

impl Default for TextEntry {
    fn default() -> (r: TextEntry)
        ensures
            r.text_type@ == "me"@,
            r.content@ == Seq::<char>::empty(),
    {
        TextEntry { text_type: String::from_str("me"), content: String::new() }
    }
}

/// The quick-send overlay window.
#[derive(Debug)]
pub struct QuickOverlayState {
    pub presets: Vec<Preset>,
    pub selected_preset_idx: Option<usize>,
    pub loaded: bool,
    pub status_message: Option<String>,
}

impl Default for QuickOverlayState {
    fn default() -> (r: QuickOverlayState)
        ensures
            r.presets@.len() == 0,
            r.selected_preset_idx is None,
            !r.loaded,
            r.status_message is None,
    {
        QuickOverlayState { presets: Vec::new(), selected_preset_idx: None, loaded: false, status_message: None }
    }
}

impl QuickOverlayState {
    /// A batch sent from the overlay reported progress at line `index` of
    /// `total`: the overlay shows `发送中 <index + 1>/<total>`.
    pub fn on_batch_progress(&mut self, index: usize, total: usize)
        requires
            index < usize::MAX,
        ensures
            final(self).status_message matches Some(m) && m@ == "发送中 "@ + decimal((index + 1) as nat) + "/"@ + decimal(total as nat),
            final(self).presets == old(self).presets,
            final(self).selected_preset_idx == old(self).selected_preset_idx,
            final(self).loaded == old(self).loaded,
    {
        let c = decimal_of((index + 1) as u64);
        let t = decimal_of(total as u64);
        self.status_message = Some(String::from_str("发送中 ").concat(c.as_str()).concat("/").concat(t.as_str()));
    }

    /// A batch sent from the overlay is over: the overlay shows `✅ 发送完成`.
    pub fn on_batch_done(&mut self)
        ensures
            final(self).status_message matches Some(m) && m@ == "✅ 发送完成"@,
            final(self).presets == old(self).presets,
            final(self).selected_preset_idx == old(self).selected_preset_idx,
            final(self).loaded == old(self).loaded,
    {
        self.status_message = Some(String::from_str("✅ 发送完成"));
    }
}

/// The home panel.
#[derive(Debug)]
pub struct HomeState {
    pub update_result: Option<UpdateResult>,
    pub public_config: Option<PublicConfigResult>,
    pub checking_update: bool,
}

impl Default for HomeState {
    fn default() -> (r: HomeState)
        ensures
            r.update_result is None,
            r.public_config is None,
            !r.checking_update,
    {
        HomeState { update_result: None, public_config: None, checking_update: false }
    }
}

/// The AI generation panel.
#[derive(Debug)]
pub struct AiState {
    pub scenario: String,
    pub text_type: String,
    pub style: String,
    pub generating: bool,
    pub generated_texts: Vec<TextLine>,
    pub stream_content: String,
    pub history_expanded: bool,
}

impl Default for AiState {
    fn default() -> (r: AiState)
        ensures
            r.scenario@.len() == 0 && r.text_type@.len() == 0 && r.style@.len() == 0,
            !r.generating,
            r.generated_texts@.len() == 0,
            r.stream_content@.len() == 0,
            !r.history_expanded,
    {
        AiState {
            scenario: String::new(),
            text_type: String::new(),
            style: String::new(),
            generating: false,
            generated_texts: Vec::new(),
            stream_content: String::new(),
            history_expanded: false,
        }
    }
}

/// The presets panel.
#[derive(Debug)]
pub struct PresetsState {
    pub presets: Vec<Preset>,
    pub loaded: bool,
    pub search: String,
    pub selected_tag: Option<String>,
    pub all_tags: Vec<String>,
}

impl Default for PresetsState {
    fn default() -> (r: PresetsState)
        ensures
            r.presets@.len() == 0,
            !r.loaded,
            r.search@.len() == 0,
            r.selected_tag is None,
            r.all_tags@.len() == 0,
    {
        PresetsState { presets: Vec::new(), loaded: false, search: String::new(), selected_tag: None, all_tags: Vec::new() }
    }
}

/// The quick-send panel.
#[derive(Debug)]
pub struct QuickSendState {
    pub presets: Vec<Preset>,
    pub selected_preset_idx: Option<usize>,
    pub loaded: bool,
    /// The line being sent, if any.
    pub sending_line: Option<usize>,
}

impl Default for QuickSendState {
    fn default() -> (r: QuickSendState)
        ensures
            r.presets@.len() == 0,
            r.selected_preset_idx is None,
            !r.loaded,
            r.sending_line is None,
    {
        QuickSendState { presets: Vec::new(), selected_preset_idx: None, loaded: false, sending_line: None }
    }
}

/// The send panel.
#[derive(Debug)]
pub struct SendState {
    pub texts: Vec<TextEntry>,
    pub sending: bool,
    pub progress_index: usize,
    pub progress_total: usize,
    pub progress_status: String,
    pub new_text_content: String,
    pub new_text_type: String,
}

impl Default for SendState {
    fn default() -> (r: SendState)
        ensures
            r.texts@.len() == 0,
            !r.sending,
            r.progress_index == 0,
            r.progress_total == 0,
            r.progress_status@.len() == 0,
            r.new_text_content@.len() == 0,
            r.new_text_type@.len() == 0,
    {
        SendState {
            texts: Vec::new(),
            sending: false,
            progress_index: 0,
            progress_total: 0,
            progress_status: String::new(),
            new_text_content: String::new(),
            new_text_type: String::new(),
        }
    }
}

/// The settings form, with numbers as the text fields hold them.
#[derive(Debug)]
pub struct SettingsState {
    pub active_tab: SettingsTab,
    pub loaded: bool,
    pub method: String,
    pub chat_open_key: String,
    pub delay_open_chat: String,
    pub delay_after_paste: String,
    pub delay_after_send: String,
    pub delay_between_lines: String,
    pub focus_timeout: String,
    pub retry_count: String,
    pub host: String,
    pub port: String,
    pub token: String,
    pub lan_access: bool,
    pub default_provider: String,
    pub system_prompt: String,
    pub overlay_enabled: bool,
    pub trigger_hotkey: String,
}

impl Default for SettingsState {
    fn default() -> (r: SettingsState)
        ensures
            r.active_tab == SettingsTab::Sender,
            !r.loaded,
            r.method@.len() == 0 && r.chat_open_key@.len() == 0,
            r.delay_open_chat@.len() == 0 && r.delay_after_paste@.len() == 0 && r.delay_after_send@.len() == 0,
            r.delay_between_lines@.len() == 0 && r.focus_timeout@.len() == 0 && r.retry_count@.len() == 0,
            r.host@.len() == 0 && r.port@.len() == 0 && r.token@.len() == 0,
            !r.lan_access,
            r.default_provider@.len() == 0 && r.system_prompt@.len() == 0,
            !r.overlay_enabled,
            r.trigger_hotkey@.len() == 0,
    {
        SettingsState {
            active_tab: SettingsTab::Sender,
            loaded: false,
            method: String::new(),
            chat_open_key: String::new(),
            delay_open_chat: String::new(),
            delay_after_paste: String::new(),
            delay_after_send: String::new(),
            delay_between_lines: String::new(),
            focus_timeout: String::new(),
            retry_count: String::new(),
            host: String::new(),
            port: String::new(),
            token: String::new(),
            lan_access: false,
            default_provider: String::new(),
            system_prompt: String::new(),
            overlay_enabled: false,
            trigger_hotkey: String::new(),
        }
    }
}


// ── Finished background tasks ──────────────────────────────────────────

/// A background task's outcome, handed to the window.
#[derive(Debug)]
pub enum AsyncResult {
    UpdateCheckDone(UpdateResult),
    PublicConfigDone(PublicConfigResult),
    AiGenerateDone { texts: Vec<TextLine>, provider_id: String },
    AiGenerateError(String),
    AiStreamChunk(String),
    AiStreamDone { texts: Vec<TextLine>, provider_id: String },
    SendSingleDone { text: String, success: bool },
    BatchSendProgress(SendProgress),
    BatchSendDone,
    AiProviderTestDone { provider_id: String, success: bool, message: String },
}

/// A notification to pop up.
#[derive(Debug)]
pub enum Notice {
    Info(String),
    Success(String),
    Error(String),
}

/// The number of bytes of a character in UTF-8.
pub open spec fn utf8_width(c: char) -> int {
    if (c as u32) < 0x80 {
        1
    } else if (c as u32) < 0x800 {
        2
    } else if (c as u32) < 0x10000 {
        3
    } else {
        4
    }
}

/// The longest prefix of `s` whose UTF-8 form takes at most `budget`
/// bytes: the start of a text cut at a character boundary.
pub open spec fn prefix_within(s: Seq<char>, budget: int) -> Seq<char>
    decreases s.len(),
{
    if s.len() == 0 || utf8_width(s[0]) > budget {
        Seq::empty()
    } else {
        seq![s[0]] + prefix_within(s.drop_first(), budget - utf8_width(s[0]))
    }
}

/// How much of a sent line a notice shows, in bytes.
pub const NOTICE_PREFIX_BYTES: u64 = 20;

fn utf8_width_exec(c: char) -> (r: u64)
    ensures
        r == utf8_width(c),
{
    let u = c as u32;
    if u < 0x80 {
        1
    } else if u < 0x800 {
        2
    } else if u < 0x10000 {
        3
    } else {
        4
    }
}

/// The start of `text` that a notice shows: the longest prefix of at most
/// `max_bytes` bytes that ends at a character boundary.
pub fn text_prefix(text: &str, max_bytes: u64) -> (r: String)
    ensures
        r@ == prefix_within(text@, max_bytes as int),
{
    let v = chars_of(text);
    let mut out = String::new();
    let mut budget: u64 = max_bytes;
    let mut i: usize = 0;
    proof {
        assert(v@.skip(0) =~= v@);
    }
    while i < v.len()
        invariant
            0 <= i <= v@.len(),
            v@ == text@,
            prefix_within(text@, max_bytes as int) == out@ + prefix_within(v@.skip(i as int), budget as int),
        decreases v@.len() - i,
    {
        let c = v[i];
        let w = utf8_width_exec(c);
        let ghost rest = v@.skip(i as int);
        assert(rest[0] == c);
        assert(rest.drop_first() =~= v@.skip(i + 1));
        if w > budget {
            assert(prefix_within(rest, budget as int) =~= Seq::<char>::empty());
            assert(out@ + Seq::<char>::empty() =~= out@);
            return out;
        }
        let ghost before = out@;
        push_char(&mut out, c);
        budget = budget - w;
        i = i + 1;
        assert(before + prefix_within(rest, (budget + w) as int) =~= out@ + prefix_within(v@.skip(i as int), budget as int));
    }
    assert(v@.skip(i as int) =~= Seq::<char>::empty());
    assert(out@ + Seq::<char>::empty() =~= out@);
    out
}

/// The parts of the window that background tasks report to.
#[derive(Debug)]
pub struct WindowModel {
    pub home_state: HomeState,
    pub send_state: SendState,
    pub ai_state: AiState,
}

pub open spec fn opt_text(o: Option<String>) -> Seq<char> {
    match o {
        Some(s) => s@,
        None => "?"@,
    }
}

impl WindowModel {
    /// Takes one finished task: records what it brought, says what to pop
    /// up, and whether to redraw at once.
    pub fn apply(&mut self, r: AsyncResult) -> (out: (Option<Notice>, bool))
        ensures
            match r {
                AsyncResult::UpdateCheckDone(u) => {
                    &&& final(self).home_state.update_result == Some(u)
                    &&& final(self).home_state.public_config == old(self).home_state.public_config
                    &&& final(self).home_state.checking_update == old(self).home_state.checking_update
                    &&& final(self).send_state == old(self).send_state
                    &&& final(self).ai_state == old(self).ai_state
                    &&& (u.update_available ==> (out.0 matches Some(Notice::Info(m)) && m@ == "发现新版本: "@ + opt_text(u.latest_version)))
                    &&& (!u.update_available ==> out.0 is None)
                    &&& !out.1
                },
                AsyncResult::PublicConfigDone(c) => {
                    &&& final(self).home_state.public_config == Some(c)
                    &&& final(self).home_state.update_result == old(self).home_state.update_result
                    &&& final(self).home_state.checking_update == old(self).home_state.checking_update
                    &&& final(self).send_state == old(self).send_state
                    &&& final(self).ai_state == old(self).ai_state
                    &&& out.0 is None && !out.1
                },
                AsyncResult::AiGenerateDone { texts, provider_id } => {
                    &&& !final(self).ai_state.generating
                    &&& final(self).ai_state.generated_texts == texts
                    &&& final(self).ai_state.stream_content@.len() == 0
                    &&& final(self).ai_state.scenario == old(self).ai_state.scenario
                    &&& final(self).ai_state.text_type == old(self).ai_state.text_type
                    &&& final(self).ai_state.style == old(self).ai_state.style
                    &&& final(self).ai_state.history_expanded == old(self).ai_state.history_expanded
                    &&& final(self).home_state == old(self).home_state
                    &&& final(self).send_state == old(self).send_state
                    &&& (out.0 matches Some(Notice::Success(m)) && m@ == "AI 生成完成"@) && !out.1
                },
                AsyncResult::AiStreamDone { texts, provider_id } => {
                    &&& !final(self).ai_state.generating
                    &&& final(self).ai_state.generated_texts == texts
                    &&& final(self).ai_state.stream_content@.len() == 0
                    &&& final(self).ai_state.scenario == old(self).ai_state.scenario
                    &&& final(self).ai_state.text_type == old(self).ai_state.text_type
                    &&& final(self).ai_state.style == old(self).ai_state.style
                    &&& final(self).ai_state.history_expanded == old(self).ai_state.history_expanded
                    &&& final(self).home_state == old(self).home_state
                    &&& final(self).send_state == old(self).send_state
                    &&& (out.0 matches Some(Notice::Success(m)) && m@ == "AI 生成完成"@) && !out.1
                },
                AsyncResult::AiGenerateError(e) => {
                    &&& !final(self).ai_state.generating
                    &&& final(self).ai_state.generated_texts == old(self).ai_state.generated_texts
                    &&& final(self).ai_state.stream_content == old(self).ai_state.stream_content
                    &&& final(self).ai_state.scenario == old(self).ai_state.scenario
                    &&& final(self).ai_state.text_type == old(self).ai_state.text_type
                    &&& final(self).ai_state.style == old(self).ai_state.style
                    &&& final(self).ai_state.history_expanded == old(self).ai_state.history_expanded
                    &&& final(self).home_state == old(self).home_state
                    &&& final(self).send_state == old(self).send_state
                    &&& (out.0 matches Some(Notice::Error(m)) && m@ == "AI 错误: "@ + e@) && !out.1
                },
                AsyncResult::AiStreamChunk(c) => {
                    &&& final(self).ai_state.stream_content@ == old(self).ai_state.stream_content@ + c@
                    &&& final(self).ai_state.generating == old(self).ai_state.generating
                    &&& final(self).ai_state.generated_texts == old(self).ai_state.generated_texts
                    &&& final(self).ai_state.scenario == old(self).ai_state.scenario
                    &&& final(self).ai_state.text_type == old(self).ai_state.text_type
                    &&& final(self).ai_state.style == old(self).ai_state.style
                    &&& final(self).ai_state.history_expanded == old(self).ai_state.history_expanded
                    &&& final(self).home_state == old(self).home_state
                    &&& final(self).send_state == old(self).send_state
                    &&& out.0 is None && out.1
                },
                AsyncResult::SendSingleDone { text, success } => {
                    &&& *final(self) == *old(self)
                    &&& success ==> (out.0 matches Some(Notice::Success(m)) && m@ == "已发送: "@ + prefix_within(text@, 20))
                    &&& !success ==> (out.0 matches Some(Notice::Error(m)) && m@ == "发送失败: "@ + prefix_within(text@, 20))
                    &&& !out.1
                },
                AsyncResult::BatchSendProgress(p) => {
                    &&& final(self).send_state.progress_index == p.index
                    &&& final(self).send_state.progress_total == p.total
                    &&& final(self).send_state.progress_status@ == p.status@
                    &&& final(self).send_state.texts == old(self).send_state.texts
                    &&& final(self).send_state.sending == old(self).send_state.sending
                    &&& final(self).send_state.new_text_content == old(self).send_state.new_text_content
                    &&& final(self).send_state.new_text_type == old(self).send_state.new_text_type
                    &&& final(self).home_state == old(self).home_state
                    &&& final(self).ai_state == old(self).ai_state
                    &&& out.0 is None && out.1
                },
                AsyncResult::BatchSendDone => {
                    &&& !final(self).send_state.sending
                    &&& final(self).send_state.texts == old(self).send_state.texts
                    &&& final(self).send_state.progress_index == old(self).send_state.progress_index
                    &&& final(self).send_state.progress_total == old(self).send_state.progress_total
                    &&& final(self).send_state.progress_status == old(self).send_state.progress_status
                    &&& final(self).send_state.new_text_content == old(self).send_state.new_text_content
                    &&& final(self).send_state.new_text_type == old(self).send_state.new_text_type
                    &&& final(self).home_state == old(self).home_state
                    &&& final(self).ai_state == old(self).ai_state
                    &&& (out.0 matches Some(Notice::Success(m)) && m@ == "批量发送完成"@) && !out.1
                },
                AsyncResult::AiProviderTestDone { provider_id, success, message } => {
                    &&& *final(self) == *old(self)
                    &&& success ==> (out.0 matches Some(Notice::Success(m)) && m@ == provider_id@ + ": "@ + message@)
                    &&& !success ==> (out.0 matches Some(Notice::Error(m)) && m@ == provider_id@ + ": "@ + message@)
                    &&& !out.1
                },
            },
    {
        match r {
            AsyncResult::UpdateCheckDone(u) => {
                let notice = if u.update_available {
                    let v = match &u.latest_version {
                        Some(v) => v.clone(),
                        None => String::from_str("?"),
                    };
                    Some(Notice::Info(String::from_str("发现新版本: ").concat(v.as_str())))
                } else {
                    None
                };
                self.home_state.update_result = Some(u);
                (notice, false)
            },
            AsyncResult::PublicConfigDone(c) => {
                self.home_state.public_config = Some(c);
                (None, false)
            },
            AsyncResult::AiGenerateDone { texts, provider_id: _ } => {
                self.ai_state.generating = false;
                self.ai_state.generated_texts = texts;
                self.ai_state.stream_content = String::new();
                (Some(Notice::Success(String::from_str("AI 生成完成"))), false)
            },
            AsyncResult::AiStreamDone { texts, provider_id: _ } => {
                self.ai_state.generating = false;
                self.ai_state.generated_texts = texts;
                self.ai_state.stream_content = String::new();
                (Some(Notice::Success(String::from_str("AI 生成完成"))), false)
            },
            AsyncResult::AiGenerateError(e) => {
                self.ai_state.generating = false;
                (Some(Notice::Error(String::from_str("AI 错误: ").concat(e.as_str()))), false)
            },
            AsyncResult::AiStreamChunk(c) => {
                let joined = self.ai_state.stream_content.clone().concat(c.as_str());
                self.ai_state.stream_content = joined;
                (None, true)
            },
            AsyncResult::SendSingleDone { text, success } => {
                let shown = text_prefix(text.as_str(), NOTICE_PREFIX_BYTES);
                if success {
                    (Some(Notice::Success(String::from_str("已发送: ").concat(shown.as_str()))), false)
                } else {
                    (Some(Notice::Error(String::from_str("发送失败: ").concat(shown.as_str()))), false)
                }
            },
            AsyncResult::BatchSendProgress(p) => {
                self.send_state.progress_index = p.index;
                self.send_state.progress_total = p.total;
                self.send_state.progress_status = p.status;
                (None, true)
            },
            AsyncResult::BatchSendDone => {
                self.send_state.sending = false;
                (Some(Notice::Success(String::from_str("批量发送完成"))), false)
            },
            AsyncResult::AiProviderTestDone { provider_id, success, message } => {
                let m = provider_id.concat(": ").concat(message.as_str());
                if success {
                    (Some(Notice::Success(m)), false)
                } else {
                    (Some(Notice::Error(m)), false)
                }
            },
        }
    }
}

// ── Closing the window ─────────────────────────────────────────────────

/// What a request to close the main window does.
#[derive(Debug, PartialEq, Eq, Structural)]
pub enum CloseDecision {
    /// Let it close (stopping the overlay and the tray icon).
    Close,
    /// Hide the window to the tray instead.
    HideToTray,
    /// Keep it open and ask the user.
    Ask,
}

/// The close decision: an exit that was asked for goes ahead; otherwise
/// the `launch.close_action` setting decides (`minimize_to_tray`, `exit`,
/// anything else asks).
pub fn close_decision(force_exit: bool, close_action: &str) -> (r: CloseDecision)
    ensures
        force_exit ==> r == CloseDecision::Close,
        !force_exit ==> r == (if close_action@ == "minimize_to_tray"@ {
            CloseDecision::HideToTray
        } else if close_action@ == "exit"@ {
            CloseDecision::Close
        } else {
            CloseDecision::Ask
        }),
{
    if force_exit {
        CloseDecision::Close
    } else if str_eq(close_action, "minimize_to_tray") {
        CloseDecision::HideToTray
    } else if str_eq(close_action, "exit") {
        CloseDecision::Close
    } else {
        CloseDecision::Ask
    }
}

// ── The settings form ──────────────────────────────────────────────────

/// The settings form filled from the configuration, numbers as decimal
/// text (the form keeps its tab and its loaded mark).
pub fn load_settings(ss: &mut SettingsState, cfg: &YamlNode)
    ensures
        final(ss).active_tab == old(ss).active_tab,
        final(ss).loaded == old(ss).loaded,
        final(ss).method@ == spec_get_str(cfg@, "sender"@, "method"@),
        final(ss).chat_open_key@ == spec_get_str(cfg@, "sender"@, "chat_open_key"@),
        final(ss).delay_open_chat@ == signed_decimal(spec_get_i64(cfg@, "sender"@, "delay_open_chat"@, 450) as int),
        final(ss).delay_after_paste@ == signed_decimal(spec_get_i64(cfg@, "sender"@, "delay_after_paste"@, 160) as int),
        final(ss).delay_after_send@ == signed_decimal(spec_get_i64(cfg@, "sender"@, "delay_after_send"@, 260) as int),
        final(ss).delay_between_lines@ == signed_decimal(spec_get_i64(cfg@, "sender"@, "delay_between_lines"@, 1800) as int),
        final(ss).focus_timeout@ == signed_decimal(spec_get_i64(cfg@, "sender"@, "focus_timeout"@, 8000) as int),
        final(ss).retry_count@ == signed_decimal(spec_get_i64(cfg@, "sender"@, "retry_count"@, 3) as int),
        final(ss).host@ == spec_get_str(cfg@, "server"@, "host"@),
        final(ss).port@ == signed_decimal(spec_get_i64(cfg@, "server"@, "port"@, 8730) as int),
        final(ss).token@ == spec_get_str(cfg@, "server"@, "token"@),
        final(ss).lan_access == spec_get_bool(cfg@, "server"@, "lan_access"@),
        final(ss).default_provider@ == spec_get_str(cfg@, "ai"@, "default_provider"@),
        final(ss).system_prompt@ == spec_get_str(cfg@, "ai"@, "system_prompt"@),
        final(ss).overlay_enabled == spec_get_bool(cfg@, "quick_overlay"@, "enabled"@),
        final(ss).trigger_hotkey@ == spec_get_str(cfg@, "quick_overlay"@, "trigger_hotkey"@),
{
    ss.method = String::from_str(get_str(cfg, "sender", "method"));
    ss.chat_open_key = String::from_str(get_str(cfg, "sender", "chat_open_key"));
    ss.delay_open_chat = signed_decimal_of(get_i64(cfg, "sender", "delay_open_chat", 450));
    ss.delay_after_paste = signed_decimal_of(get_i64(cfg, "sender", "delay_after_paste", 160));
    ss.delay_after_send = signed_decimal_of(get_i64(cfg, "sender", "delay_after_send", 260));
    ss.delay_between_lines = signed_decimal_of(get_i64(cfg, "sender", "delay_between_lines", 1800));
    ss.focus_timeout = signed_decimal_of(get_i64(cfg, "sender", "focus_timeout", 8000));
    ss.retry_count = signed_decimal_of(get_i64(cfg, "sender", "retry_count", 3));
    ss.host = String::from_str(get_str(cfg, "server", "host"));
    ss.port = signed_decimal_of(get_i64(cfg, "server", "port", 8730));
    ss.token = String::from_str(get_str(cfg, "server", "token"));
    ss.lan_access = get_bool(cfg, "server", "lan_access");
    ss.default_provider = String::from_str(get_str(cfg, "ai", "default_provider"));
    ss.system_prompt = String::from_str(get_str(cfg, "ai", "system_prompt"));
    ss.overlay_enabled = get_bool(cfg, "quick_overlay", "enabled");
    ss.trigger_hotkey = String::from_str(get_str(cfg, "quick_overlay", "trigger_hotkey"));
}

/// A number field of the form: its text read as an `i64`, or `default`.
pub open spec fn field_int(text: Seq<char>, default: i64) -> i64 {
    match parse_signed(text, i64::MIN as int, i64::MAX as int) {
        Some(v) => v as i64,
        None => default,
    }
}

fn field_int_exec(text: &String, default: i64) -> (r: i64)
    ensures
        r == field_int(text@, default),
{
    match parse_i64(&chars_of(text.as_str())) {
        Some(v) => v,
        None => default,
    }
}

fn entry(k: &str, v: YamlNode) -> (r: (YamlNode, YamlNode))
    ensures
        r.0@ == Yaml::Str(k@),
        r.1 == v,
{
    (YamlNode::Str(String::from_str(k)), v)
}

fn int_node(v: i64) -> (r: YamlNode)
    ensures
        r@ == crate::gui::int_yaml(v),
{
    if v >= 0 {
        YamlNode::PosInt(v as u64)
    } else {
        YamlNode::NegInt(v)
    }
}

/// An integer as a YAML number.
pub open spec fn int_yaml(v: i64) -> Yaml {
    if v >= 0 { Yaml::PosInt(v as u64) } else { Yaml::NegInt(v) }
}

/// The configuration patch that saves the sender part of the form; a
/// number field that does not read as an integer saves its default.
pub open spec fn spec_sender_patch(ss: SettingsState) -> Yaml {
    Yaml::Mapping(seq![(Yaml::Str("sender"@), Yaml::Mapping(seq![
        (Yaml::Str("method"@), Yaml::Str(ss.method@)),
        (Yaml::Str("chat_open_key"@), Yaml::Str(ss.chat_open_key@)),
        (Yaml::Str("delay_open_chat"@), int_yaml(field_int(ss.delay_open_chat@, 450))),
        (Yaml::Str("delay_after_paste"@), int_yaml(field_int(ss.delay_after_paste@, 160))),
        (Yaml::Str("delay_after_send"@), int_yaml(field_int(ss.delay_after_send@, 260))),
        (Yaml::Str("delay_between_lines"@), int_yaml(field_int(ss.delay_between_lines@, 1800))),
        (Yaml::Str("focus_timeout"@), int_yaml(field_int(ss.focus_timeout@, 8000))),
        (Yaml::Str("retry_count"@), int_yaml(field_int(ss.retry_count@, 3))),
    ]))])
}

pub fn sender_patch(ss: &SettingsState) -> (r: YamlNode)
    ensures
        r@ == spec_sender_patch(*ss),
{
    let mut m: Vec<(YamlNode, YamlNode)> = Vec::new();
    m.push(entry("method", YamlNode::Str(ss.method.clone())));
    m.push(entry("chat_open_key", YamlNode::Str(ss.chat_open_key.clone())));
    m.push(entry("delay_open_chat", int_node(field_int_exec(&ss.delay_open_chat, 450))));
    m.push(entry("delay_after_paste", int_node(field_int_exec(&ss.delay_after_paste, 160))));
    m.push(entry("delay_after_send", int_node(field_int_exec(&ss.delay_after_send, 260))));
    m.push(entry("delay_between_lines", int_node(field_int_exec(&ss.delay_between_lines, 1800))));
    m.push(entry("focus_timeout", int_node(field_int_exec(&ss.focus_timeout, 8000))));
    m.push(entry("retry_count", int_node(field_int_exec(&ss.retry_count, 3))));
    let mut top: Vec<(YamlNode, YamlNode)> = Vec::new();
    proof {
        lemma_map_view(m@);
        assert(map_view(m@) =~= seq![
            (Yaml::Str("method"@), Yaml::Str(ss.method@)),
            (Yaml::Str("chat_open_key"@), Yaml::Str(ss.chat_open_key@)),
            (Yaml::Str("delay_open_chat"@), int_yaml(field_int(ss.delay_open_chat@, 450))),
            (Yaml::Str("delay_after_paste"@), int_yaml(field_int(ss.delay_after_paste@, 160))),
            (Yaml::Str("delay_after_send"@), int_yaml(field_int(ss.delay_after_send@, 260))),
            (Yaml::Str("delay_between_lines"@), int_yaml(field_int(ss.delay_between_lines@, 1800))),
            (Yaml::Str("focus_timeout"@), int_yaml(field_int(ss.focus_timeout@, 8000))),
            (Yaml::Str("retry_count"@), int_yaml(field_int(ss.retry_count@, 3))),
        ]);
    }
    let inner = YamlNode::Mapping(m);
    top.push(entry("sender", inner));
    proof {
        lemma_map_view(top@);
        assert(map_view(top@) =~= seq![(Yaml::Str("sender"@), inner@)]);
        assert(inner@ == Yaml::Mapping(map_view(m@)));
    }
    YamlNode::Mapping(top)
}
/// Law (a saved form loads back): after the sender part of the settings
/// form was saved into any configuration, reading the configuration back
/// gives the saved texts, and for each number field the number it read as
/// (or its default).
pub proof fn law_saved_form_reloads(cfg: Yaml, ss: SettingsState)
    ensures
        ({
            let c = merge(cfg, spec_sender_patch(ss));
            &&& spec_get_str(c, "sender"@, "method"@) == ss.method@
            &&& spec_get_str(c, "sender"@, "chat_open_key"@) == ss.chat_open_key@
            &&& spec_get_i64(c, "sender"@, "delay_open_chat"@, 450) == field_int(ss.delay_open_chat@, 450)
            &&& spec_get_i64(c, "sender"@, "delay_after_paste"@, 160) == field_int(ss.delay_after_paste@, 160)
            &&& spec_get_i64(c, "sender"@, "delay_after_send"@, 260) == field_int(ss.delay_after_send@, 260)
            &&& spec_get_i64(c, "sender"@, "delay_between_lines"@, 1800) == field_int(ss.delay_between_lines@, 1800)
            &&& spec_get_i64(c, "sender"@, "focus_timeout"@, 8000) == field_int(ss.focus_timeout@, 8000)
            &&& spec_get_i64(c, "sender"@, "retry_count"@, 3) == field_int(ss.retry_count@, 3)
        }),
{
    let inner = match spec_sender_patch(ss) {
        Yaml::Mapping(top) => match top[0].1 {
            Yaml::Mapping(m) => m,
            _ => Seq::empty(),
        },
        _ => Seq::empty(),
    };
    let ks = seq!["method"@, "chat_open_key"@, "delay_open_chat"@, "delay_after_paste"@, "delay_after_send"@, "delay_between_lines"@, "focus_timeout"@, "retry_count"@];
    reveal_strlit("method");
    reveal_strlit("chat_open_key");
    reveal_strlit("delay_open_chat");
    reveal_strlit("delay_after_paste");
    reveal_strlit("delay_after_send");
    reveal_strlit("delay_between_lines");
    reveal_strlit("focus_timeout");
    reveal_strlit("retry_count");
    assert forall|i: int, j: int| 0 <= i < j < 8 implies ks[i] != ks[j] by {
            if i == 0 && j == 1 {
                assert("method"@.len() != "chat_open_key"@.len());
            }
            if i == 0 && j == 2 {
                assert("method"@.len() != "delay_open_chat"@.len());
            }
            if i == 0 && j == 3 {
                assert("method"@.len() != "delay_after_paste"@.len());
            }
            if i == 0 && j == 4 {
                assert("method"@.len() != "delay_after_send"@.len());
            }
            if i == 0 && j == 5 {
                assert("method"@.len() != "delay_between_lines"@.len());
            }
            if i == 0 && j == 6 {
                assert("method"@.len() != "focus_timeout"@.len());
            }
            if i == 0 && j == 7 {
                assert("method"@.len() != "retry_count"@.len());
            }
            if i == 1 && j == 2 {
                assert("chat_open_key"@.len() != "delay_open_chat"@.len());
            }
            if i == 1 && j == 3 {
                assert("chat_open_key"@.len() != "delay_after_paste"@.len());
            }
            if i == 1 && j == 4 {
                assert("chat_open_key"@.len() != "delay_after_send"@.len());
            }
            if i == 1 && j == 5 {
                assert("chat_open_key"@.len() != "delay_between_lines"@.len());
            }
            if i == 1 && j == 6 {
                assert("chat_open_key"@[0] != "focus_timeout"@[0]);
            }
            if i == 1 && j == 7 {
                assert("chat_open_key"@.len() != "retry_count"@.len());
            }
            if i == 2 && j == 3 {
                assert("delay_open_chat"@.len() != "delay_after_paste"@.len());
            }
            if i == 2 && j == 4 {
                assert("delay_open_chat"@.len() != "delay_after_send"@.len());
            }
            if i == 2 && j == 5 {
                assert("delay_open_chat"@.len() != "delay_between_lines"@.len());
            }
            if i == 2 && j == 6 {
                assert("delay_open_chat"@.len() != "focus_timeout"@.len());
            }
            if i == 2 && j == 7 {
                assert("delay_open_chat"@.len() != "retry_count"@.len());
            }
            if i == 3 && j == 4 {
                assert("delay_after_paste"@.len() != "delay_after_send"@.len());
            }
            if i == 3 && j == 5 {
                assert("delay_after_paste"@.len() != "delay_between_lines"@.len());
            }
            if i == 3 && j == 6 {
                assert("delay_after_paste"@.len() != "focus_timeout"@.len());
            }
            if i == 3 && j == 7 {
                assert("delay_after_paste"@.len() != "retry_count"@.len());
            }
            if i == 4 && j == 5 {
                assert("delay_after_send"@.len() != "delay_between_lines"@.len());
            }
            if i == 4 && j == 6 {
                assert("delay_after_send"@.len() != "focus_timeout"@.len());
            }
            if i == 4 && j == 7 {
                assert("delay_after_send"@.len() != "retry_count"@.len());
            }
            if i == 5 && j == 6 {
                assert("delay_between_lines"@.len() != "focus_timeout"@.len());
            }
            if i == 5 && j == 7 {
                assert("delay_between_lines"@.len() != "retry_count"@.len());
            }
            if i == 6 && j == 7 {
                assert("focus_timeout"@.len() != "retry_count"@.len());
            }
    }
    assert forall|i: int| 0 <= i < 8 implies #[trigger] inner[i].0 == Yaml::Str(ks[i]) by {}
    assert(keys_unique(inner)) by {
        assert forall|i: int, j: int| 0 <= i < j < inner.len() implies #[trigger] inner[i].0 != #[trigger] inner[j].0 by {
            assert(inner[i].0 == Yaml::Str(ks[i]));
            assert(inner[j].0 == Yaml::Str(ks[j]));
        }
    }
    lemma_find_key_is(inner, Yaml::Str("method"@), 0);
    lemma_find_key_is(inner, Yaml::Str("chat_open_key"@), 1);
    lemma_find_key_is(inner, Yaml::Str("delay_open_chat"@), 2);
    lemma_find_key_is(inner, Yaml::Str("delay_after_paste"@), 3);
    lemma_find_key_is(inner, Yaml::Str("delay_after_send"@), 4);
    lemma_find_key_is(inner, Yaml::Str("delay_between_lines"@), 5);
    lemma_find_key_is(inner, Yaml::Str("focus_timeout"@), 6);
    lemma_find_key_is(inner, Yaml::Str("retry_count"@), 7);
    law_section_write_read_back(cfg, "sender"@, inner, "method"@);
    law_section_write_read_back(cfg, "sender"@, inner, "chat_open_key"@);
    law_section_write_read_back(cfg, "sender"@, inner, "delay_open_chat"@);
    law_section_write_read_back(cfg, "sender"@, inner, "delay_after_paste"@);
    law_section_write_read_back(cfg, "sender"@, inner, "delay_after_send"@);
    law_section_write_read_back(cfg, "sender"@, inner, "delay_between_lines"@);
    law_section_write_read_back(cfg, "sender"@, inner, "focus_timeout"@);
    law_section_write_read_back(cfg, "sender"@, inner, "retry_count"@);
}

// ── The preset list ────────────────────────────────────────────────────

/// `x` is one of the strings of `s`.
pub open spec fn holds(s: Seq<String>, x: Seq<char>) -> bool {
    exists|k: int| 0 <= k < s.len() && (#[trigger] s[k])@ == x
}

/// Every string of `s` comes before the next one: sorted, no repeats.
pub open spec fn strictly_sorted(s: Seq<String>) -> bool {
    forall|i: int, j: int| 0 <= i < j < s.len() ==> lex_lt((#[trigger] s[i])@, (#[trigger] s[j])@)
}

/// `x` is a tag of one of the first `i` presets, or one of the first `j`
/// tags of preset `i`.
pub open spec fn seen_tag(ps: Seq<Preset>, i: int, j: int, x: Seq<char>) -> bool {
    ||| exists|p: int, q: int| 0 <= p < i && 0 <= q < ps[p].tags@.len() && (#[trigger] ps[p].tags@[q])@ == x
    ||| (i < ps.len() && exists|q: int| 0 <= q < j && (#[trigger] ps[i].tags@[q])@ == x)
}

/// `x` is a tag of some preset.
pub open spec fn tag_of_any(ps: Seq<Preset>, x: Seq<char>) -> bool {
    exists|p: int, q: int| 0 <= p < ps.len() && 0 <= q < ps[p].tags@.len() && (#[trigger] ps[p].tags@[q])@ == x
}

fn insert_sorted(r: &mut Vec<String>, t: &String)
    requires
        strictly_sorted(old(r)@),
    ensures
        strictly_sorted(final(r)@),
        forall|x: Seq<char>| holds(final(r)@, x) <==> (holds(old(r)@, x) || x == t@),
{
    let tc = chars_of(t.as_str());
    let mut k: usize = 0;
    while k < r.len() && lex_less(&chars_of(r[k].as_str()), &tc)
        invariant
            0 <= k <= r.len(),
            tc@ == t@,
            forall|j: int| 0 <= j < k ==> lex_lt((#[trigger] r@[j])@, t@),
        decreases r.len() - k,
    {
        k = k + 1;
    }
    if k < r.len() && str_eq(r[k].as_str(), t.as_str()) {
        assert forall|x: Seq<char>| holds(r@, x) <==> (holds(r@, x) || x == t@) by {
            if x == t@ {
                assert(r@[k as int]@ == x);
            }
        }
        return;
    }
    let ghost old_r = r@;
    proof {
        if k < r.len() {
            lemma_lex_total(r@[k as int]@, t@);
            assert(lex_lt(t@, r@[k as int]@));
        }
    }
    r.insert(k, t.clone());
    proof {
        let n = r@;
        assert(n == old_r.insert(k as int, *t));
        assert forall|i: int, j: int| 0 <= i < j < n.len() implies lex_lt((#[trigger] n[i])@, (#[trigger] n[j])@) by {
            if j < k {
                assert(n[i] == old_r[i] && n[j] == old_r[j]);
            } else if j == k {
                assert(n[i] == old_r[i]);
            } else if i < k {
                assert(n[i] == old_r[i] && n[j] == old_r[j - 1]);
                if i < j - 1 {
                } else {
                    assert(false);
                }
            } else if i == k {
                assert(n[j] == old_r[j - 1]);
                if j - 1 > k {
                    lemma_lex_trans(t@, old_r[k as int]@, old_r[j - 1]@);
                }
            } else {
                assert(n[i] == old_r[i - 1] && n[j] == old_r[j - 1]);
            }
        }
        assert forall|x: Seq<char>| holds(n, x) <==> (holds(old_r, x) || x == t@) by {
            if holds(n, x) {
                let q = choose|q: int| 0 <= q < n.len() && (#[trigger] n[q])@ == x;
                if q < k {
                    assert(n[q] == old_r[q]);
                } else if q > k {
                    assert(n[q] == old_r[q - 1]);
                }
            }
            if holds(old_r, x) {
                let q = choose|q: int| 0 <= q < old_r.len() && (#[trigger] old_r[q])@ == x;
                if q < k {
                    assert(n[q] == old_r[q]);
                } else {
                    assert(n[q + 1] == old_r[q]);
                }
            }
            if x == t@ {
                assert(n[k as int] == *t);
            }
        }
    }
}

/// All tags of the presets, sorted, each once (the tag filter's choices).
pub fn collect_tags(presets: &Vec<Preset>) -> (r: Vec<String>)
    ensures
        strictly_sorted(r@),
        forall|x: Seq<char>| holds(r@, x) <==> tag_of_any(presets@, x),
{
    let mut r: Vec<String> = Vec::new();
    let mut i: usize = 0;
    while i < presets.len()
        invariant
            0 <= i <= presets.len(),
            strictly_sorted(r@),
            forall|x: Seq<char>| holds(r@, x) <==> seen_tag(presets@, i as int, 0, x),
        decreases presets.len() - i,
    {
        let tags = &presets[i].tags;
        let mut j: usize = 0;
        while j < tags.len()
            invariant
                0 <= i < presets.len(),
                0 <= j <= tags.len(),
                tags@ == presets@[i as int].tags@,
                strictly_sorted(r@),
                forall|x: Seq<char>| holds(r@, x) <==> seen_tag(presets@, i as int, j as int, x),
            decreases tags.len() - j,
        {
            let ghost before = r@;
            insert_sorted(&mut r, &tags[j]);
            assert forall|x: Seq<char>| holds(r@, x) <==> seen_tag(presets@, i as int, j + 1, x) by {
                if x == tags@[j as int]@ {
                    assert(presets@[i as int].tags@[j as int]@ == x);
                }
                if seen_tag(presets@, i as int, j + 1, x) && !seen_tag(presets@, i as int, j as int, x) {
                    let q = choose|q: int| 0 <= q < j + 1 && (#[trigger] presets@[i as int].tags@[q])@ == x;
                    assert(q == j);
                }
            }
            j = j + 1;
        }
        assert forall|x: Seq<char>| seen_tag(presets@, i as int, tags.len() as int, x) <==> seen_tag(presets@, i + 1, 0, x) by {
            if seen_tag(presets@, i + 1, 0, x) {
                let (p, q) = choose|p: int, q: int| 0 <= p < i + 1 && 0 <= q < presets@[p].tags@.len() && (#[trigger] presets@[p].tags@[q])@ == x;
                if p == i {
                    assert(presets@[i as int].tags@[q]@ == x);
                }
            }
        }
        i = i + 1;
    }
    assert forall|x: Seq<char>| seen_tag(presets@, i as int, 0, x) <==> tag_of_any(presets@, x) by {}
    r
}

/// Whether the preset list shows a preset: its lower-cased name contains
/// the lower-cased search text (when there is one), and it has the chosen
/// tag (when one is chosen).
pub open spec fn shown(p: Preset, search: Seq<char>, tag: Option<Seq<char>>) -> bool {
    &&& (lowercase(search).len() == 0 || contains(lowercase(p.name@), lowercase(search)))
    &&& match tag {
        Some(t) => exists|q: int| 0 <= q < p.tags@.len() && (#[trigger] p.tags@[q])@ == t,
        None => true,
    }
}

fn has_tag_exec(p: &Preset, t: &str) -> (r: bool)
    ensures
        r == exists|q: int| 0 <= q < p.tags@.len() && (#[trigger] p.tags@[q])@ == t@,
{
    let mut q: usize = 0;
    while q < p.tags.len()
        invariant
            0 <= q <= p.tags.len(),
            forall|k: int| 0 <= k < q ==> (#[trigger] p.tags@[k])@ != t@,
        decreases p.tags.len() - q,
    {
        if str_eq(p.tags[q].as_str(), t) {
            return true;
        }
        q = q + 1;
    }
    false
}

/// The positions of the presets the list shows, in order.
pub fn visible_presets(presets: &Vec<Preset>, search: &str, tag: Option<&str>) -> (r: Vec<usize>)
    ensures
        forall|k: int| 0 <= k < r@.len() ==> (#[trigger] r@[k]) < presets@.len()
            && shown(presets@[r@[k] as int], search@, match tag { Some(t) => Some(t@), None => None }),
        forall|k1: int, k2: int| 0 <= k1 < k2 < r@.len() ==> (#[trigger] r@[k1]) < (#[trigger] r@[k2]),
        forall|i: int| 0 <= i < presets@.len() && shown(presets@[i], search@, match tag { Some(t) => Some(t@), None => None })
            ==> exists|k: int| 0 <= k < r@.len() && (#[trigger] r@[k]) == i,
{
    let ghost tv = match tag { Some(t) => Some(t@), None => None::<Seq<char>> };
    let lower = chars_of(to_lowercase(search).as_str());
    let mut r: Vec<usize> = Vec::new();
    let mut i: usize = 0;
    while i < presets.len()
        invariant
            0 <= i <= presets.len(),
            lower@ == lowercase(search@),
            tv == match tag { Some(t) => Some(t@), None => None::<Seq<char>> },
            forall|k: int| 0 <= k < r@.len() ==> (#[trigger] r@[k]) < i && shown(presets@[r@[k] as int], search@, tv),
            forall|k1: int, k2: int| 0 <= k1 < k2 < r@.len() ==> (#[trigger] r@[k1]) < (#[trigger] r@[k2]),
            forall|j: int| 0 <= j < i && shown(presets@[j], search@, tv) ==> exists|k: int| 0 <= k < r@.len() && (#[trigger] r@[k]) == j,
        decreases presets.len() - i,
    {
        let p = &presets[i];
        let name_ok = lower.len() == 0 || contains_exec(&chars_of(to_lowercase(p.name.as_str()).as_str()), &lower);
        let tag_ok = match tag {
            Some(t) => has_tag_exec(p, t),
            None => true,
        };
        if name_ok && tag_ok {
            let ghost r0 = r@;
            r.push(i);
            assert forall|j: int| 0 <= j < i + 1 && shown(presets@[j], search@, tv) implies exists|k: int| 0 <= k < r@.len() && (#[trigger] r@[k]) == j by {
                if j < i {
                    let k = choose|k: int| 0 <= k < r0.len() && (#[trigger] r0[k]) == j;
                    assert(r@[k] == j);
                } else {
                    assert(r@[r0.len() as int] == j);
                }
            }
        }
        i = i + 1;
    }
    r
}

// ── The editable text list ─────────────────────────────────────────────

/// `s` with the neighbours at `i` and `i + 1` swapped.
pub open spec fn swap_next<T>(s: Seq<T>, i: int) -> Seq<T> {
    s.update(i, s[i + 1]).update(i + 1, s[i])
}

fn swap_with_next(items: &mut Vec<TextItem>, i: usize)
    requires
        i + 1 < old(items).len(),
    ensures
        final(items)@ == swap_next(old(items)@, i as int),
{
    let x = items.remove(i + 1);
    items.insert(i, x);
    assert(final(items)@ =~= swap_next(old(items)@, i as int));
}

/// The list after a click on a line's delete, up or down button (at most
/// one applies, in that order of precedence): delete removes the line, up
/// swaps it with the one above (not for the first), down with the one
/// below (not for the last).
pub fn apply_list_edit(items: &mut Vec<TextItem>, remove: Option<usize>, up: Option<usize>, down: Option<usize>) -> (r: TextListAction)
    requires
        remove matches Some(k) ==> k < old(items).len(),
        up matches Some(k) ==> k < old(items).len(),
    ensures
        match (remove, up, down) {
            (Some(k), _, _) => final(items)@ == old(items)@.remove(k as int) && r is Changed,
            (None, Some(k), _) => if k > 0 {
                final(items)@ == swap_next(old(items)@, k - 1) && r is Changed
            } else {
                final(items)@ == old(items)@ && r is Unchanged
            },
            (None, None, Some(k)) => if k + 1 < old(items)@.len() {
                final(items)@ == swap_next(old(items)@, k as int) && r is Changed
            } else {
                final(items)@ == old(items)@ && r is Unchanged
            },
            (None, None, None) => final(items)@ == old(items)@ && r is Unchanged,
        },
{
    match remove {
        Some(k) => {
            items.remove(k);
            return TextListAction::Changed;
        },
        None => {},
    }
    match up {
        Some(k) => {
            if k > 0 {
                swap_with_next(items, k - 1);
                return TextListAction::Changed;
            }
            return TextListAction::Unchanged;
        },
        None => {},
    }
    match down {
        Some(k) => {
            if k < items.len() && k + 1 < items.len() {
                swap_with_next(items, k);
                return TextListAction::Changed;
            }
            TextListAction::Unchanged
        },
        None => TextListAction::Unchanged,
    }
}

/// Law (up undoes down): moving a line down and then moving it back up
/// leaves the list as it was.
pub proof fn law_down_then_up<T>(s: Seq<T>, i: int)
    requires
        0 <= i,
        i + 1 < s.len(),
    ensures
        swap_next(swap_next(s, i), i) == s,
{
    assert(swap_next(swap_next(s, i), i) =~= s);
}

/// The badge shown for a line type.
pub open spec fn spec_type_badge(t: Seq<char>) -> Seq<char> {
    if t == "me"@ {
        "/me"@
    } else if t == "do"@ {
        "/do"@
    } else if t == "b"@ {
        "/b"@
    } else if t == "e"@ {
        "/e"@
    } else {
        "/??"@
    }
}

pub fn type_badge(t: &str) -> (r: &'static str)
    ensures
        r@ == spec_type_badge(t@),
{
    if str_eq(t, "me") {
        "/me"
    } else if str_eq(t, "do") {
        "/do"
    } else if str_eq(t, "b") {
        "/b"
    } else if str_eq(t, "e") {
        "/e"
    } else {
        "/??"
    }
}

// ── The send and AI panels ─────────────────────────────────────────────

/// A line as the chat gets it: `/<type> <content>`.
pub open spec fn spec_command_line(t: Seq<char>, content: Seq<char>) -> Seq<char> {
    "/"@ + t + " "@ + content
}

pub fn command_line(t: &str, content: &str) -> (r: String)
    ensures
        r@ == spec_command_line(t@, content@),
{
    String::from_str("/").concat(t).concat(" ").concat(content)
}

impl SendState {
    /// Adds the line being typed (trimmed) to the list, when it is not
    /// empty, with the chosen type (`me` when none), and clears the input.
    pub fn add_entry(&mut self) -> (added: bool)
        ensures
            added == (trim(old(self).new_text_content@).len() > 0),
            added ==> final(self).texts@.len() == old(self).texts@.len() + 1
                && final(self).texts@.subrange(0, old(self).texts@.len() as int) == old(self).texts@
                && final(self).texts@.last().content@ == trim(old(self).new_text_content@)
                && final(self).texts@.last().text_type@ == (if old(self).new_text_type@.len() == 0 { "me"@ } else { old(self).new_text_type@ })
                && final(self).new_text_content@.len() == 0,
            !added ==> final(self).texts@ == old(self).texts@ && final(self).new_text_content == old(self).new_text_content,
            final(self).sending == old(self).sending,
            final(self).new_text_type == old(self).new_text_type,
    {
        let content = crate::text::trim_str(self.new_text_content.as_str());
        if content.as_str().is_empty() {
            return false;
        }
        let t = if self.new_text_type.as_str().is_empty() {
            String::from_str("me")
        } else {
            self.new_text_type.clone()
        };
        self.texts.push(TextEntry { text_type: t, content });
        self.new_text_content = String::new();
        assert(self.texts@.subrange(0, old(self).texts@.len() as int) =~= old(self).texts@);
        true
    }

    /// Starts sending the list: marks the panel busy and gives the lines as
    /// the chat gets them.
    pub fn start_batch(&mut self) -> (lines: Vec<String>)
        ensures
            final(self).sending,
            final(self).progress_index == 0,
            final(self).progress_total == old(self).texts@.len(),
            final(self).progress_status@ == "sending"@,
            final(self).texts == old(self).texts,
            lines@.len() == old(self).texts@.len(),
            forall|k: int| 0 <= k < lines@.len() ==> (#[trigger] lines@[k])@ == spec_command_line(
                old(self).texts@[k].text_type@,
                old(self).texts@[k].content@,
            ),
    {
        self.sending = true;
        self.progress_index = 0;
        self.progress_total = self.texts.len();
        self.progress_status = String::from_str("sending");
        let mut lines: Vec<String> = Vec::new();
        let mut k: usize = 0;
        while k < self.texts.len()
            invariant
                0 <= k <= self.texts@.len(),
                self.texts == old(self).texts,
                lines@.len() == k,
                forall|j: int| 0 <= j < k ==> (#[trigger] lines@[j])@ == spec_command_line(
                    self.texts@[j].text_type@,
                    self.texts@[j].content@,
                ),
            decreases self.texts@.len() - k,
        {
            lines.push(command_line(self.texts[k].text_type.as_str(), self.texts[k].content.as_str()));
            k = k + 1;
        }
        lines
    }
}

impl AiState {
    /// Starts a generation when none is running and a scenario is written:
    /// clears the previous output and gives the scenario, the type and the
    /// style (none when blank).
    pub fn start_generation(&mut self) -> (r: Option<(String, String, Option<String>)>)
        ensures
            (old(self).generating || trim(old(self).scenario@).len() == 0) ==> r is None && *final(self) == *old(self),
            !(old(self).generating || trim(old(self).scenario@).len() == 0) ==> (r matches Some((sc, tt, st))
                && sc == old(self).scenario && tt == old(self).text_type
                && (trim(old(self).style@).len() == 0 ==> st is None)
                && (trim(old(self).style@).len() > 0 ==> st == Some(old(self).style))
                && final(self).generating
                && final(self).stream_content@.len() == 0
                && final(self).generated_texts@.len() == 0
                && final(self).scenario == old(self).scenario
                && final(self).text_type == old(self).text_type
                && final(self).style == old(self).style),
    {
        if self.generating || crate::text::trim_str(self.scenario.as_str()).as_str().is_empty() {
            return None;
        }
        self.generating = true;
        self.stream_content = String::new();
        self.generated_texts = Vec::new();
        let style = if crate::text::trim_str(self.style.as_str()).as_str().is_empty() {
            None
        } else {
            Some(self.style.clone())
        };
        Some((self.scenario.clone(), self.text_type.clone(), style))
    }
}

/// A click on a tag pill: a chosen tag is unchosen, another one chosen.
pub fn toggle_tag(selected: &mut Option<String>, tag: &String)
    ensures
        (*old(selected) matches Some(s) && s@ == tag@) ==> *final(selected) == None::<String>,
        !(*old(selected) matches Some(s) && s@ == tag@) ==> *final(selected) == Some(*tag),
{
    let active = match selected {
        Some(s) => str_eq(s.as_str(), tag.as_str()),
        None => false,
    };
    if active {
        *selected = None;
    } else {
        *selected = Some(tag.clone());
    }
}

/// The progress line of a batch: by status, the line reached and the total.
pub open spec fn spec_progress_label(status: Seq<char>, current: nat, total: nat) -> Seq<char> {
    if status == "sending"@ {
        "发送中 "@ + decimal(current) + "/"@ + decimal(total)
    } else if status == "complete"@ {
        "完成 "@ + decimal(total) + "/"@ + decimal(total)
    } else if status == "cancelled"@ {
        "已取消 ("@ + decimal(current) + "/"@ + decimal(total) + ")"@
    } else if status == "error"@ {
        "错误 ("@ + decimal(current) + "/"@ + decimal(total) + ")"@
    } else {
        status + " "@ + decimal(current) + "/"@ + decimal(total)
    }
}

pub fn progress_label(status: &str, current: usize, total: usize) -> (r: String)
    ensures
        r@ == spec_progress_label(status@, current as nat, total as nat),
{
    let c = decimal_of(current as u64);
    let t = decimal_of(total as u64);
    if str_eq(status, "sending") {
        String::from_str("发送中 ").concat(c.as_str()).concat("/").concat(t.as_str())
    } else if str_eq(status, "complete") {
        String::from_str("完成 ").concat(t.as_str()).concat("/").concat(t.as_str())
    } else if str_eq(status, "cancelled") {
        String::from_str("已取消 (").concat(c.as_str()).concat("/").concat(t.as_str()).concat(")")
    } else if str_eq(status, "error") {
        String::from_str("错误 (").concat(c.as_str()).concat("/").concat(t.as_str()).concat(")")
    } else {
        String::from_str(status).concat(" ").concat(c.as_str()).concat("/").concat(t.as_str())
    }
}

} // verus!
