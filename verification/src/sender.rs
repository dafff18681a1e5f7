//! The keyboard sender's settings and decisions: which key opens the chat,
//! which window is the game, and the settings read from the configuration.
use vstd::prelude::*;

use crate::text::{
    chars_of, contains, contains_exec, lowercase, uppercase, to_lowercase, to_uppercase, trim,
    trim_str, str_eq, is_ascii_alnum, is_alnum,
};
use crate::yaml::{YamlNode, Yaml, get, get2, as_i64, spec_get_i64, get_i64, get_node2, find_key, lemma_find_key_is};
use crate::config_defaults::{spec_default_config, default_server, default_launch, default_sender};

verus! {

pub const VK_RETURN: u16 = 0x0D;
pub const VK_T: u16 = 0x54;

/// How a batch went, line by line (`sending`, `sent`, `complete`,
/// `cancelled`, `error`).
#[derive(Debug)]
pub struct SendProgress {
    pub status: String,
    pub index: usize,
    pub total: usize,
    pub text: Option<String>,
    pub error: Option<String>,
}

/// The sender's settings.
#[derive(Debug)]
pub struct SenderConfig {
    pub method: String,
    pub chat_open_key: String,
    pub delay_open_chat: u64,
    pub delay_after_paste: u64,
    pub delay_after_send: u64,
    pub delay_between_lines: u64,
    pub focus_timeout: u64,
    pub retry_count: u32,
    pub retry_interval: u64,
    pub typing_char_delay: u64,
}

/// The text setting `sender.key`, or `default`.
pub open spec fn sender_str(cfg: Yaml, key: Seq<char>, default: Seq<char>) -> Seq<char> {
    match get2(cfg, "sender"@, key) {
        Some(Yaml::Str(s)) => s,
        _ => default,
    }
}

/// The number setting `sender.key`, or `default`.
pub open spec fn sender_int(cfg: Yaml, key: Seq<char>, default: i64) -> i64 {
    spec_get_i64(cfg, "sender"@, key, default)
}

fn get_s(cfg: &YamlNode, key: &str, default: &str) -> (r: String)
    ensures
        r@ == sender_str(cfg@, key@, default@),
{
    match get_node2(cfg, "sender", key) {
        Some(YamlNode::Str(s)) => s.clone(),
        _ => String::from_str(default),
    }
}

impl SenderConfig {
    /// The settings of the `sender` section, each with its default when it is
    /// missing or of another kind. Numbers are taken as the integer types of
    /// the fields take them (a negative delay wraps around).
    pub fn from_yaml(cfg: &YamlNode) -> (r: SenderConfig)
        ensures
            r.method@ == sender_str(cfg@, "method"@, "clipboard"@),
            r.chat_open_key@ == sender_str(cfg@, "chat_open_key"@, "t"@),
            r.delay_open_chat == sender_int(cfg@, "delay_open_chat"@, 450) as u64,
            r.delay_after_paste == sender_int(cfg@, "delay_after_paste"@, 160) as u64,
            r.delay_after_send == sender_int(cfg@, "delay_after_send"@, 260) as u64,
            r.delay_between_lines == sender_int(cfg@, "delay_between_lines"@, 1800) as u64,
            r.focus_timeout == sender_int(cfg@, "focus_timeout"@, 8000) as u64,
            r.retry_count == sender_int(cfg@, "retry_count"@, 3) as u32,
            r.retry_interval == sender_int(cfg@, "retry_interval"@, 450) as u64,
            r.typing_char_delay == sender_int(cfg@, "typing_char_delay"@, 18) as u64,
    {
        SenderConfig {
            method: get_s(cfg, "method", "clipboard"),
            chat_open_key: get_s(cfg, "chat_open_key", "t"),
            delay_open_chat: get_i64(cfg, "sender", "delay_open_chat", 450) as u64,
            delay_after_paste: get_i64(cfg, "sender", "delay_after_paste", 160) as u64,
            delay_after_send: get_i64(cfg, "sender", "delay_after_send", 260) as u64,
            delay_between_lines: get_i64(cfg, "sender", "delay_between_lines", 1800) as u64,
            focus_timeout: get_i64(cfg, "sender", "focus_timeout", 8000) as u64,
            retry_count: get_i64(cfg, "sender", "retry_count", 3) as u32,
            retry_interval: get_i64(cfg, "sender", "retry_interval", 450) as u64,
            typing_char_delay: get_i64(cfg, "sender", "typing_char_delay", 18) as u64,
        }
    }

    /// The built-in settings.
    pub fn defaults() -> (r: SenderConfig)
        ensures
            r.method@ == "clipboard"@,
            r.chat_open_key@ == "t"@,
            r.delay_open_chat == 450,
            r.delay_after_paste == 160,
            r.delay_after_send == 260,
            r.delay_between_lines == 1800,
            r.focus_timeout == 8000,
            r.retry_count == 3,
            r.retry_interval == 450,
            r.typing_char_delay == 18,
    {
        SenderConfig {
            method: String::from_str("clipboard"),
            chat_open_key: String::from_str("t"),
            delay_open_chat: 450,
            delay_after_paste: 160,
            delay_after_send: 260,
            delay_between_lines: 1800,
            focus_timeout: 8000,
            retry_count: 3,
            retry_interval: 450,
            typing_char_delay: 18,
        }
    }

    /// Whether lines are typed character by character (else pasted).
    pub fn types_text(&self) -> (r: bool)
        ensures
            r == (self.method@ == "typing"@),
    {
        str_eq(self.method.as_str(), "typing")
    }
}

/// The virtual key that opens the game chat: a single letter or digit is
/// its own key; `ENTER`/`RETURN`, `SPACE` and `TAB` are named keys;
/// anything else is `T`.
pub open spec fn spec_chat_open_vk(key: Seq<char>) -> u16 {
    let k = uppercase(trim(key));
    if k.len() == 1 && is_ascii_alnum(k[0]) {
        k[0] as u16
    } else if k == "ENTER"@ || k == "RETURN"@ {
        0x0D
    } else if k == "SPACE"@ {
        0x20
    } else if k == "TAB"@ {
        0x09
    } else {
        VK_T
    }
}

pub fn chat_open_vk(key: &str) -> (r: u16)
    ensures
        r == spec_chat_open_vk(key@),
{
    let t = trim_str(key);
    let up = to_uppercase(t.as_str());
    let k = chars_of(up.as_str());
    if k.len() == 1 && is_alnum(k[0]) {
        return k[0] as u16;
    }
    let u = up.as_str();
    if str_eq(u, "ENTER") || str_eq(u, "RETURN") {
        0x0D
    } else if str_eq(u, "SPACE") {
        0x20
    } else if str_eq(u, "TAB") {
        0x09
    } else {
        VK_T
    }
}

/// Whether a window title is the game's: it names FiveM, GTA, CFX or RedM
/// in any case.
pub open spec fn spec_is_fivem_window(title: Seq<char>) -> bool {
    let l = lowercase(title);
    contains(l, "fivem"@) || contains(l, "gta"@) || contains(l, "cfx"@) || contains(l, "redm"@)
}

pub fn is_fivem_window(title: &str) -> (r: bool)
    ensures
        r == spec_is_fivem_window(title@),
{
    let lower = to_lowercase(title);
    let l = chars_of(lower.as_str());
    contains_exec(&l, &chars_of("fivem")) || contains_exec(&l, &chars_of("gta")) || contains_exec(
        &l,
        &chars_of("cfx"),
    ) || contains_exec(&l, &chars_of("redm"))
}


// ── Sending a batch ────────────────────────────────────────────────────

/// Focus must hold this long before sending starts (milliseconds).
pub const FOCUS_STABLE_MS: u64 = 260;

/// One thing the caller does at the keyboard, in order.
#[derive(Debug)]
pub enum SendOp {
    /// Report progress.
    Report(SendProgress),
    /// Release Shift, Ctrl and Alt where they are held.
    ReleaseModifiers,
    /// Press and release this virtual key (held 40 ms).
    PressKey(u16),
    /// Wait this many milliseconds.
    Sleep(u64),
    /// Type this text character by character (`typing_char_delay` apart).
    TypeText(String),
    /// Paste the clipboard (Ctrl+V).
    Paste,
}

/// What the caller must find out next, or how the batch ended.
#[derive(Debug)]
pub enum SendNext {
    /// Wait up to `timeout_ms` for the game window to hold the foreground
    /// for `stable_ms`; answer whether it did.
    AskFocus { timeout_ms: u64, stable_ms: u64 },
    /// Answer whether the batch was cancelled.
    AskCancelled,
    /// Put this text on the clipboard; answer whether that worked.
    AskClipboard(String),
    /// The batch is over, with this outcome.
    Finish(Result<(), String>),
}

/// Where a batch stands.
#[derive(Debug)]
pub enum BatchPhase {
    AwaitFocus,
    /// Before line `i`.
    AwaitCancel(usize),
    /// Attempt `a` of line `i` waits for the clipboard.
    AwaitClipboard(usize, u32),
    Finished,
}

/// A batch of lines being sent.
#[derive(Debug)]
pub struct BatchRun {
    pub texts: Vec<String>,
    pub config: SenderConfig,
    /// The pause between two lines.
    pub between: u64,
    pub phase: BatchPhase,
}

/// A progress report, as values.
pub enum OpView {
    Report(Seq<char>, nat, nat, Option<Seq<char>>, Option<Seq<char>>),
    ReleaseModifiers,
    PressKey(u16),
    Sleep(u64),
    TypeText(Seq<char>),
    Paste,
}

pub enum NextView {
    AskFocus(u64, u64),
    AskCancelled,
    AskClipboard(Seq<char>),
    Finish(Result<(), Seq<char>>),
}

pub open spec fn ostr(o: Option<String>) -> Option<Seq<char>> {
    match o {
        Some(s) => Some(s@),
        None => None,
    }
}

pub open spec fn op_view(op: SendOp) -> OpView {
    match op {
        SendOp::Report(p) => OpView::Report(p.status@, p.index as nat, p.total as nat, ostr(p.text), ostr(p.error)),
        SendOp::ReleaseModifiers => OpView::ReleaseModifiers,
        SendOp::PressKey(k) => OpView::PressKey(k),
        SendOp::Sleep(ms) => OpView::Sleep(ms),
        SendOp::TypeText(t) => OpView::TypeText(t@),
        SendOp::Paste => OpView::Paste,
    }
}

pub open spec fn ops_view(ops: Seq<SendOp>) -> Seq<OpView> {
    ops.map_values(|o: SendOp| op_view(o))
}

pub open spec fn next_view(n: SendNext) -> NextView {
    match n {
        SendNext::AskFocus { timeout_ms, stable_ms } => NextView::AskFocus(timeout_ms, stable_ms),
        SendNext::AskCancelled => NextView::AskCancelled,
        SendNext::AskClipboard(t) => NextView::AskClipboard(t@),
        SendNext::Finish(Ok(_)) => NextView::Finish(Ok(())),
        SendNext::Finish(Err(e)) => NextView::Finish(Err(e@)),
    }
}

/// The plan of a step: what to do, what to ask or how it ended, and where
/// the batch then stands.
pub struct Plan {
    pub ops: Seq<OpView>,
    pub next: NextView,
    pub phase: BatchPhase,
}

impl BatchRun {
    pub open spec fn total(self) -> nat {
        self.texts@.len()
    }

    pub open spec fn text(self, i: int) -> Seq<char> {
        self.texts@[i]@
    }

    pub open spec fn report(self, status: Seq<char>, i: int, with_text: bool) -> OpView {
        OpView::Report(status, i as nat, self.total(), if with_text { Some(self.text(i)) } else { None }, None)
    }

    /// After line `i` went out: report it, pause, and go on to the next line
    /// or finish.
    pub open spec fn after_sent(self, i: int) -> Plan {
        let ops = seq![self.report("sent"@, i, true), OpView::Sleep(self.config.delay_after_send)]
            + if i + 1 < self.total() { seq![OpView::Sleep(self.between)] } else { Seq::empty() };
        if i + 1 < self.total() {
            Plan { ops, next: NextView::AskCancelled, phase: BatchPhase::AwaitCancel((i + 1) as usize) }
        } else {
            Plan {
                ops: ops.push(OpView::Report("complete"@, self.total(), self.total(), None, None)),
                next: NextView::Finish(Ok(())),
                phase: BatchPhase::Finished,
            }
        }
    }

    /// Attempt `a` at line `i` (the first try is attempt 0, and each of the
    /// `retry_count` retries after a failed clipboard write is one more):
    /// open the chat; type the line and send it, or ask for the clipboard.
    pub open spec fn attempt(self, i: int, a: u32) -> Plan {
        let open = seq![OpView::PressKey(spec_chat_open_vk(self.config.chat_open_key@)), OpView::Sleep(self.config.delay_open_chat)];
        if self.config.method@ == "typing"@ {
            let rest = self.after_sent(i);
            Plan {
                ops: open + seq![OpView::TypeText(self.text(i)), OpView::Sleep(self.config.delay_after_paste), OpView::PressKey(VK_RETURN)] + rest.ops,
                next: rest.next,
                phase: rest.phase,
            }
        } else {
            Plan { ops: open, next: NextView::AskClipboard(self.text(i)), phase: BatchPhase::AwaitClipboard(i as usize, a) }
        }
    }

    /// Line `i` could not be put on the clipboard in any attempt: report the
    /// error and end the batch with it.
    pub open spec fn line_failed(self, i: int) -> Plan {
        Plan {
            ops: seq![OpView::Report("error"@, i as nat, self.total(), Some(self.text(i)), Some("剪贴板写入失败"@))],
            next: NextView::Finish(Err("剪贴板写入失败"@)),
            phase: BatchPhase::Finished,
        }
    }

    /// The plan of answering `yes` to the current question.
    pub open spec fn plan(self, yes: bool) -> Plan {
        match self.phase {
            BatchPhase::AwaitFocus => if !yes {
                Plan { ops: Seq::empty(), next: NextView::Finish(Err("等待FiveM窗口超时"@)), phase: BatchPhase::Finished }
            } else if self.total() == 0 {
                Plan { ops: seq![OpView::Report("complete"@, 0, 0, None, None)], next: NextView::Finish(Ok(())), phase: BatchPhase::Finished }
            } else {
                Plan { ops: Seq::empty(), next: NextView::AskCancelled, phase: BatchPhase::AwaitCancel(0) }
            },
            BatchPhase::AwaitCancel(i) => if yes {
                Plan { ops: seq![self.report("cancelled"@, i as int, false)], next: NextView::Finish(Ok(())), phase: BatchPhase::Finished }
            } else {
                let at = self.attempt(i as int, 0);
                Plan { ops: seq![self.report("sending"@, i as int, true), OpView::ReleaseModifiers] + at.ops, next: at.next, phase: at.phase }
            },
            BatchPhase::AwaitClipboard(i, a) => if yes {
                let rest = self.after_sent(i as int);
                Plan {
                    ops: seq![OpView::Paste, OpView::Sleep(self.config.delay_after_paste), OpView::PressKey(VK_RETURN)] + rest.ops,
                    next: rest.next,
                    phase: rest.phase,
                }
            } else {
                let at = if a < self.config.retry_count {
                    self.attempt(i as int, (a + 1) as u32)
                } else {
                    self.line_failed(i as int)
                };
                Plan { ops: seq![OpView::Sleep(self.config.retry_interval)] + at.ops, next: at.next, phase: at.phase }
            },
            BatchPhase::Finished => Plan { ops: Seq::empty(), next: NextView::Finish(Ok(())), phase: BatchPhase::Finished },
        }
    }

    /// The run is in a consistent phase: the line it stands at exists, and
    /// an attempt it waits on is one that is allowed.
    pub open spec fn wf(self) -> bool {
        match self.phase {
            BatchPhase::AwaitCancel(i) => i < self.total(),
            BatchPhase::AwaitClipboard(i, a) => i < self.total() && a <= self.config.retry_count,
            _ => true,
        }
    }
}

fn progress(status: &str, index: usize, total: usize, text: Option<String>, error: Option<String>) -> (r: SendOp)
    ensures
        op_view(r) == OpView::Report(status@, index as nat, total as nat, ostr(text), ostr(error)),
{
    SendOp::Report(SendProgress { status: String::from_str(status), index, total, text, error })
}

proof fn lemma_ops_push(v: Seq<SendOp>, x: SendOp)
    ensures
        ops_view(v.push(x)) == ops_view(v).push(op_view(x)),
{
    assert(ops_view(v.push(x)) =~= ops_view(v).push(op_view(x)));
}

fn push_op(ops: &mut Vec<SendOp>, x: SendOp)
    ensures
        ops_view(final(ops)@) == ops_view(old(ops)@).push(op_view(x)),
{
    proof {
        lemma_ops_push(ops@, x);
    }
    ops.push(x);
}

impl BatchRun {
    /// Starts a batch of `texts` (unless a send is already running): first
    /// the game window must come to the foreground. The pause between lines
    /// is `delay_between`, or the configured one.
    pub fn start(already_sending: bool, texts: Vec<String>, config: SenderConfig, delay_between: Option<u64>) -> (r: (BatchRun, SendNext))
        ensures
            already_sending ==> next_view(r.1) == NextView::Finish(Err("已有发送任务正在执行"@))
                && r.0.phase == BatchPhase::Finished,
            !already_sending ==> next_view(r.1) == NextView::AskFocus(config.focus_timeout, FOCUS_STABLE_MS)
                && r.0.phase == BatchPhase::AwaitFocus,
            r.0.texts@ == texts@,
            r.0.config == config,
            r.0.between == match delay_between {
                Some(d) => d,
                None => config.delay_between_lines,
            },
            r.0.wf(),
    {
        let between = match delay_between {
            Some(d) => d,
            None => config.delay_between_lines,
        };
        if already_sending {
            let run = BatchRun { texts, config, between, phase: BatchPhase::Finished };
            return (run, SendNext::Finish(Err(String::from_str("已有发送任务正在执行"))));
        }
        let timeout = config.focus_timeout;
        let run = BatchRun { texts, config, between, phase: BatchPhase::AwaitFocus };
        (run, SendNext::AskFocus { timeout_ms: timeout, stable_ms: FOCUS_STABLE_MS })
    }

    fn after_sent_exec(&self, i: usize, ops: &mut Vec<SendOp>) -> (r: (SendNext, BatchPhase))
        requires
            i < self.texts@.len(),
        ensures
            ops_view(final(ops)@) == ops_view(old(ops)@) + self.after_sent(i as int).ops,
            next_view(r.0) == self.after_sent(i as int).next,
            r.1 == self.after_sent(i as int).phase,
    {
        let ghost o0 = ops_view(ops@);
        let total = self.texts.len();
        push_op(ops, progress("sent", i, total, Some(self.texts[i].clone()), None));
        push_op(ops, SendOp::Sleep(self.config.delay_after_send));
        if i + 1 < total {
            push_op(ops, SendOp::Sleep(self.between));
            assert(ops_view(ops@) =~= o0 + self.after_sent(i as int).ops);
            (SendNext::AskCancelled, BatchPhase::AwaitCancel(i + 1))
        } else {
            let ghost o1 = ops_view(ops@);
            push_op(ops, progress("complete", total, total, None, None));
            assert(ops_view(ops@) =~= o0 + self.after_sent(i as int).ops);
            (SendNext::Finish(Ok(())), BatchPhase::Finished)
        }
    }

    fn attempt_exec(&self, i: usize, a: u32, ops: &mut Vec<SendOp>) -> (r: (SendNext, BatchPhase))
        requires
            i < self.texts@.len(),
        ensures
            ops_view(final(ops)@) == ops_view(old(ops)@) + self.attempt(i as int, a).ops,
            next_view(r.0) == self.attempt(i as int, a).next,
            r.1 == self.attempt(i as int, a).phase,
    {
        let ghost o0 = ops_view(ops@);
        push_op(ops, SendOp::PressKey(chat_open_vk(self.config.chat_open_key.as_str())));
        push_op(ops, SendOp::Sleep(self.config.delay_open_chat));
        if self.config.types_text() {
            push_op(ops, SendOp::TypeText(self.texts[i].clone()));
            push_op(ops, SendOp::Sleep(self.config.delay_after_paste));
            push_op(ops, SendOp::PressKey(VK_RETURN));
            let r = self.after_sent_exec(i, ops);
            assert(ops_view(ops@) =~= o0 + self.attempt(i as int, a).ops);
            r
        } else {
            assert(ops_view(ops@) =~= o0 + self.attempt(i as int, a).ops);
            (SendNext::AskClipboard(self.texts[i].clone()), BatchPhase::AwaitClipboard(i, a))
        }
    }

    fn line_failed_exec(&self, i: usize, ops: &mut Vec<SendOp>) -> (r: (SendNext, BatchPhase))
        requires
            i < self.texts@.len(),
        ensures
            ops_view(final(ops)@) == ops_view(old(ops)@) + self.line_failed(i as int).ops,
            next_view(r.0) == self.line_failed(i as int).next,
            r.1 == self.line_failed(i as int).phase,
    {
        let ghost o0 = ops_view(ops@);
        push_op(ops, progress("error", i, self.texts.len(), Some(self.texts[i].clone()), Some(String::from_str("剪贴板写入失败"))));
        assert(ops_view(ops@) =~= o0 + self.line_failed(i as int).ops);
        (SendNext::Finish(Err(String::from_str("剪贴板写入失败"))), BatchPhase::Finished)
    }

    /// Takes the answer to the current question and gives what to do next
    /// (see [`BatchRun::plan`]).
    pub fn answer(&mut self, yes: bool) -> (r: (Vec<SendOp>, SendNext))
        requires
            old(self).wf(),
        ensures
            ops_view(r.0@) == old(self).plan(yes).ops,
            next_view(r.1) == old(self).plan(yes).next,
            final(self).phase == old(self).plan(yes).phase,
            final(self).texts == old(self).texts,
            final(self).config == old(self).config,
            final(self).between == old(self).between,
            final(self).wf(),
    {
        let mut ops: Vec<SendOp> = Vec::new();
        assert(ops_view(ops@) =~= Seq::<OpView>::empty());
        let (next, phase) = match self.phase {
            BatchPhase::AwaitFocus => {
                if !yes {
                    (SendNext::Finish(Err(String::from_str("等待FiveM窗口超时"))), BatchPhase::Finished)
                } else if self.texts.len() == 0 {
                    push_op(&mut ops, progress("complete", 0, 0, None, None));
                    assert(ops_view(ops@) =~= seq![OpView::Report("complete"@, 0, 0, None, None)]);
                    (SendNext::Finish(Ok(())), BatchPhase::Finished)
                } else {
                    (SendNext::AskCancelled, BatchPhase::AwaitCancel(0))
                }
            },
            BatchPhase::AwaitCancel(i) => {
                if yes {
                    push_op(&mut ops, progress("cancelled", i, self.texts.len(), None, None));
                    assert(ops_view(ops@) =~= seq![old(self).report("cancelled"@, i as int, false)]);
                    (SendNext::Finish(Ok(())), BatchPhase::Finished)
                } else {
                    push_op(&mut ops, progress("sending", i, self.texts.len(), Some(self.texts[i].clone()), None));
                    push_op(&mut ops, SendOp::ReleaseModifiers);
                    let ghost o1 = ops_view(ops@);
                    let r = self.attempt_exec(i, 0, &mut ops);
                    assert(ops_view(ops@) =~= seq![old(self).report("sending"@, i as int, true), OpView::ReleaseModifiers]
                        + old(self).attempt(i as int, 0).ops);
                    r
                }
            },
            BatchPhase::AwaitClipboard(i, a) => {
                if yes {
                    push_op(&mut ops, SendOp::Paste);
                    push_op(&mut ops, SendOp::Sleep(self.config.delay_after_paste));
                    push_op(&mut ops, SendOp::PressKey(VK_RETURN));
                    let r = self.after_sent_exec(i, &mut ops);
                    assert(ops_view(ops@) =~= seq![OpView::Paste, OpView::Sleep(old(self).config.delay_after_paste), OpView::PressKey(VK_RETURN)]
                        + old(self).after_sent(i as int).ops);
                    r
                } else {
                    push_op(&mut ops, SendOp::Sleep(self.config.retry_interval));
                    if a < self.config.retry_count {
                        let r = self.attempt_exec(i, a + 1, &mut ops);
                        assert(ops_view(ops@) =~= seq![OpView::Sleep(old(self).config.retry_interval)]
                            + old(self).attempt(i as int, (a + 1) as u32).ops);
                        r
                    } else {
                        let r = self.line_failed_exec(i, &mut ops);
                        assert(ops_view(ops@) =~= seq![OpView::Sleep(old(self).config.retry_interval)]
                            + old(self).line_failed(i as int).ops);
                        r
                    }
                }
            },
            BatchPhase::Finished => (SendNext::Finish(Ok(())), BatchPhase::Finished),
        };
        self.phase = phase;
        (ops, next)
    }
}

/// The keystrokes of sending one line on its own (unless a send is already
/// running), up to the point where the line is sent or the clipboard is
/// needed: no clipboard text when the line was typed and sent, else the
/// text to put on the clipboard.
pub fn single_opening(already_sending: bool, config: &SenderConfig, text: &str) -> (r: Result<(Vec<SendOp>, Option<String>), String>)
    ensures
        already_sending ==> (r matches Err(e) && e@ == "已有发送任务正在执行"@),
        !already_sending ==> (r matches Ok((ops, clip)) && single_opening_is(config, text@, ops, clip)),
{
    if already_sending {
        return Err(String::from_str("已有发送任务正在执行"));
    }
    Ok(single_opening_ops(config, text))
}

pub open spec fn single_opening_is(config: &SenderConfig, text: Seq<char>, ops: Vec<SendOp>, clip: Option<String>) -> bool {
    &&& ops_view(ops@) == seq![
            OpView::ReleaseModifiers,
            OpView::PressKey(spec_chat_open_vk(config.chat_open_key@)),
            OpView::Sleep(config.delay_open_chat),
        ] + if config.method@ == "typing"@ {
            seq![OpView::TypeText(text), OpView::Sleep(config.delay_after_paste), OpView::PressKey(VK_RETURN)]
        } else {
            Seq::empty()
        }
    &&& config.method@ == "typing"@ ==> clip is None
    &&& config.method@ != "typing"@ ==> (clip matches Some(t) && t@ == text)
}

fn single_opening_ops(config: &SenderConfig, text: &str) -> (r: (Vec<SendOp>, Option<String>))
    ensures
        single_opening_is(config, text@, r.0, r.1),
        ops_view(r.0@) == seq![
            OpView::ReleaseModifiers,
            OpView::PressKey(spec_chat_open_vk(config.chat_open_key@)),
            OpView::Sleep(config.delay_open_chat),
        ] + if config.method@ == "typing"@ {
            seq![OpView::TypeText(text@), OpView::Sleep(config.delay_after_paste), OpView::PressKey(VK_RETURN)]
        } else {
            Seq::empty()
        },
        config.method@ == "typing"@ ==> r.1 is None,
        config.method@ != "typing"@ ==> (r.1 matches Some(t) && t@ == text@),
{
    let mut ops: Vec<SendOp> = Vec::new();
    push_op(&mut ops, SendOp::ReleaseModifiers);
    push_op(&mut ops, SendOp::PressKey(chat_open_vk(config.chat_open_key.as_str())));
    push_op(&mut ops, SendOp::Sleep(config.delay_open_chat));
    if config.types_text() {
        push_op(&mut ops, SendOp::TypeText(String::from_str(text)));
        push_op(&mut ops, SendOp::Sleep(config.delay_after_paste));
        push_op(&mut ops, SendOp::PressKey(VK_RETURN));
        assert(ops_view(ops@) =~= seq![
            OpView::ReleaseModifiers,
            OpView::PressKey(spec_chat_open_vk(config.chat_open_key@)),
            OpView::Sleep(config.delay_open_chat),
        ] + seq![OpView::TypeText(text@), OpView::Sleep(config.delay_after_paste), OpView::PressKey(VK_RETURN)]);
        (ops, None)
    } else {
        assert(ops_view(ops@) =~= seq![
            OpView::ReleaseModifiers,
            OpView::PressKey(spec_chat_open_vk(config.chat_open_key@)),
            OpView::Sleep(config.delay_open_chat),
        ] + Seq::<OpView>::empty());
        (ops, Some(String::from_str(text)))
    }
}

/// The rest of sending one line through the clipboard, once the clipboard
/// was (or could not be) set.
pub fn single_paste(config: &SenderConfig, clipboard_set: bool) -> (r: Result<Vec<SendOp>, String>)
    ensures
        clipboard_set ==> (r matches Ok(ops) && ops_view(ops@) == seq![OpView::Paste, OpView::Sleep(config.delay_after_paste), OpView::PressKey(VK_RETURN)]),
        !clipboard_set ==> (r matches Err(e) && e@ == "剪贴板写入失败"@),
{
    if !clipboard_set {
        return Err(String::from_str("剪贴板写入失败"));
    }
    let mut ops: Vec<SendOp> = Vec::new();
    push_op(&mut ops, SendOp::Paste);
    push_op(&mut ops, SendOp::Sleep(config.delay_after_paste));
    push_op(&mut ops, SendOp::PressKey(VK_RETURN));
    assert(ops_view(ops@) =~= seq![OpView::Paste, OpView::Sleep(config.delay_after_paste), OpView::PressKey(VK_RETURN)]);
    Ok(ops)
}

impl BatchRun {
    /// How far a run is from its end: a step that does not finish either
    /// moves on to the next line or uses up one more attempt.
    pub open spec fn rank(self) -> int {
        let m = self.config.retry_count + 2;
        match self.phase {
            BatchPhase::AwaitFocus => (self.total() + 1) * m,
            BatchPhase::AwaitCancel(i) => (self.total() - i) * m,
            BatchPhase::AwaitClipboard(i, a) => (self.total() - i) * m - 1 - a,
            BatchPhase::Finished => 0,
        }
    }
}

proof fn lemma_rank_step(k: int, m: int)
    by (nonlinear_arith)
    requires
        k >= 1,
        m >= 2,
    ensures
        k * m == (k - 1) * m + m,
        (k - 1) * m >= 0,
{
}

proof fn lemma_after_sent_rank(run: BatchRun, i: int)
    requires
        0 <= i < run.total(),
    ensures
        (BatchRun { phase: run.after_sent(i).phase, ..run }).rank() <= (run.total() - i - 1) * (
        run.config.retry_count + 2),
        (BatchRun { phase: run.after_sent(i).phase, ..run }).rank() >= 0,
{
    let m: int = run.config.retry_count + 2;
    let t: int = run.total() as int;
    lemma_rank_step(t - i, m);
    if i + 1 < t {
        assert(run.texts@.len() <= usize::MAX) by {
            vstd::std_specs::vec::axiom_spec_len(&run.texts);
        }
        assert(run.after_sent(i).phase == BatchPhase::AwaitCancel((i + 1) as usize));
        assert(((i + 1) as usize) as int == i + 1);
    }
}

/// Law (a batch always ends): every answer to a run that has not finished
/// leads to a run strictly closer to its end, and a run never goes below
/// its end.
pub proof fn law_batch_progress(run: BatchRun, yes: bool)
    requires
        run.wf(),
        !(run.phase is Finished),
    ensures
        (BatchRun { phase: run.plan(yes).phase, ..run }).rank() < run.rank(),
        (BatchRun { phase: run.plan(yes).phase, ..run }).rank() >= 0,
{
    let m: int = run.config.retry_count + 2;
    let t: int = run.total() as int;
    match run.phase {
        BatchPhase::AwaitFocus => {
            lemma_rank_step(t + 1, m);
            let r2 = BatchRun { phase: run.plan(yes).phase, ..run };
            assert(run.rank() == (t + 1) * m);
            if yes && t > 0 {
                assert(run.plan(yes).phase == BatchPhase::AwaitCancel(0));
                assert(r2.rank() == (t - 0) * m);
                assert((t - 0) * m == t * m);
                assert(r2.rank() < run.rank());
            } else {
                assert(r2.phase == BatchPhase::Finished);
                assert(r2.rank() < run.rank());
            }
        },
        BatchPhase::AwaitCancel(i) => {
            lemma_rank_step(t - i, m);
            let r2 = BatchRun { phase: run.plan(yes).phase, ..run };
            assert(run.rank() == (t - i) * m);
            if !yes {
                let at = run.attempt(i as int, 0);
                assert(run.plan(yes).phase == at.phase);
                if run.config.method@ == "typing"@ {
                    assert(at.phase == run.after_sent(i as int).phase);
                    lemma_after_sent_rank(run, i as int);
                } else {
                    assert(at.phase == BatchPhase::AwaitClipboard(i, 0));
                    assert(r2.rank() == (t - i) * m - 1);
                }
            }
            assert(r2.rank() < run.rank());
        },
        BatchPhase::AwaitClipboard(i, a) => {
            lemma_rank_step(t - i, m);
            let r2 = BatchRun { phase: run.plan(yes).phase, ..run };
            assert(run.rank() == (t - i) * m - 1 - a);
            lemma_after_sent_rank(run, i as int);
            if !yes && a < run.config.retry_count {
                let at = run.attempt(i as int, (a + 1) as u32);
                assert(run.plan(yes).phase == at.phase);
            }
            assert(r2.rank() < run.rank());
        },
        BatchPhase::Finished => {},
    }
}

/// Law (the built-in configuration and the built-in sender settings
/// agree): reading the sender settings from the built-in configuration
/// gives exactly [`SenderConfig::defaults`].
pub proof fn law_default_config_matches_defaults()
    ensures
        sender_str(spec_default_config(), "method"@, "clipboard"@) == "clipboard"@,
        sender_str(spec_default_config(), "chat_open_key"@, "t"@) == "t"@,
        sender_int(spec_default_config(), "delay_open_chat"@, 450) == 450,
        sender_int(spec_default_config(), "delay_after_paste"@, 160) == 160,
        sender_int(spec_default_config(), "delay_after_send"@, 260) == 260,
        sender_int(spec_default_config(), "delay_between_lines"@, 1800) == 1800,
        sender_int(spec_default_config(), "focus_timeout"@, 8000) == 8000,
        sender_int(spec_default_config(), "retry_count"@, 3) == 3,
        sender_int(spec_default_config(), "retry_interval"@, 450) == 450,
        sender_int(spec_default_config(), "typing_char_delay"@, 18) == 18,
{
    let cfg = spec_default_config();
    let sec = default_sender();
    reveal_strlit("server");
    reveal_strlit("launch");
    reveal_strlit("sender");
    assert("server"@[2] != "sender"@[2]);
    assert("launch"@[0] != "sender"@[0]);
    match cfg {
        Yaml::Mapping(m) => {
            lemma_find_key_is(m, Yaml::Str("sender"@), 2);
        },
        _ => {},
    }
    assert(get(cfg, "sender"@) == Some(sec));
    reveal_strlit("method");
    reveal_strlit("chat_open_key");
    reveal_strlit("delay_open_chat");
    reveal_strlit("delay_after_paste");
    reveal_strlit("delay_after_send");
    reveal_strlit("delay_between_lines");
    reveal_strlit("focus_timeout");
    reveal_strlit("retry_count");
    reveal_strlit("retry_interval");
    reveal_strlit("typing_char_delay");
    match sec {
        Yaml::Mapping(m) => {
            lemma_find_key_is(m, Yaml::Str("method"@), 0);
            assert("method"@.len() != "chat_open_key"@.len());
            lemma_find_key_is(m, Yaml::Str("chat_open_key"@), 1);
            assert("method"@.len() != "delay_open_chat"@.len());
            assert("chat_open_key"@.len() != "delay_open_chat"@.len());
            lemma_find_key_is(m, Yaml::Str("delay_open_chat"@), 2);
            assert("method"@.len() != "delay_after_paste"@.len());
            assert("chat_open_key"@.len() != "delay_after_paste"@.len());
            assert("delay_open_chat"@.len() != "delay_after_paste"@.len());
            lemma_find_key_is(m, Yaml::Str("delay_after_paste"@), 3);
            assert("method"@.len() != "delay_after_send"@.len());
            assert("chat_open_key"@.len() != "delay_after_send"@.len());
            assert("delay_open_chat"@.len() != "delay_after_send"@.len());
            assert("delay_after_paste"@.len() != "delay_after_send"@.len());
            lemma_find_key_is(m, Yaml::Str("delay_after_send"@), 4);
            assert("method"@.len() != "delay_between_lines"@.len());
            assert("chat_open_key"@.len() != "delay_between_lines"@.len());
            assert("delay_open_chat"@.len() != "delay_between_lines"@.len());
            assert("delay_after_paste"@.len() != "delay_between_lines"@.len());
            assert("delay_after_send"@.len() != "delay_between_lines"@.len());
            lemma_find_key_is(m, Yaml::Str("delay_between_lines"@), 5);
            assert("chat_open_key"@[0] != "focus_timeout"@[0]);
            assert("method"@.len() != "focus_timeout"@.len());
            assert("delay_open_chat"@.len() != "focus_timeout"@.len());
            assert("delay_after_paste"@.len() != "focus_timeout"@.len());
            assert("delay_after_send"@.len() != "focus_timeout"@.len());
            assert("delay_between_lines"@.len() != "focus_timeout"@.len());
            lemma_find_key_is(m, Yaml::Str("focus_timeout"@), 6);
            assert("method"@.len() != "retry_count"@.len());
            assert("chat_open_key"@.len() != "retry_count"@.len());
            assert("delay_open_chat"@.len() != "retry_count"@.len());
            assert("delay_after_paste"@.len() != "retry_count"@.len());
            assert("delay_after_send"@.len() != "retry_count"@.len());
            assert("delay_between_lines"@.len() != "retry_count"@.len());
            assert("focus_timeout"@.len() != "retry_count"@.len());
            lemma_find_key_is(m, Yaml::Str("retry_count"@), 7);
            assert("method"@.len() != "retry_interval"@.len());
            assert("chat_open_key"@.len() != "retry_interval"@.len());
            assert("delay_open_chat"@.len() != "retry_interval"@.len());
            assert("delay_after_paste"@.len() != "retry_interval"@.len());
            assert("delay_after_send"@.len() != "retry_interval"@.len());
            assert("delay_between_lines"@.len() != "retry_interval"@.len());
            assert("focus_timeout"@.len() != "retry_interval"@.len());
            assert("retry_count"@.len() != "retry_interval"@.len());
            lemma_find_key_is(m, Yaml::Str("retry_interval"@), 8);
            assert("delay_after_paste"@[0] != "typing_char_delay"@[0]);
            assert("method"@.len() != "typing_char_delay"@.len());
            assert("chat_open_key"@.len() != "typing_char_delay"@.len());
            assert("delay_open_chat"@.len() != "typing_char_delay"@.len());
            assert("delay_after_send"@.len() != "typing_char_delay"@.len());
            assert("delay_between_lines"@.len() != "typing_char_delay"@.len());
            assert("focus_timeout"@.len() != "typing_char_delay"@.len());
            assert("retry_count"@.len() != "typing_char_delay"@.len());
            assert("retry_interval"@.len() != "typing_char_delay"@.len());
            lemma_find_key_is(m, Yaml::Str("typing_char_delay"@), 9);
        },
        _ => {},
    }
}

/// A progress report that says a line was sent.
pub open spec fn is_sent_report(op: OpView) -> bool {
    op matches OpView::Report(s, _, _, _, _) && s == "sent"@
}

/// The line a report is about.
pub open spec fn report_line(op: OpView) -> nat {
    match op {
        OpView::Report(_, i, _, _, _) => i,
        _ => 0,
    }
}

/// In `ops`, every report that a line was sent comes right after Enter was
/// pressed, and that Enter follows (after the pause) the pasting or the
/// typing of that very line.
pub open spec fn sent_after_enter(run: BatchRun, ops: Seq<OpView>) -> bool {
    forall|k: int| 0 <= k < ops.len() && is_sent_report(#[trigger] ops[k]) ==> {
        &&& k >= 3
        &&& ops[k - 1] == OpView::PressKey(VK_RETURN)
        &&& (ops[k - 3] == OpView::Paste || ops[k - 3] == OpView::TypeText(run.text(report_line(ops[k]) as int)))
    }
}

pub open spec fn no_sent_report(ops: Seq<OpView>) -> bool {
    forall|k: int| 0 <= k < ops.len() ==> !is_sent_report(#[trigger] ops[k])
}

proof fn lemma_after_sent_reports(run: BatchRun, i: int)
    requires
        0 <= i < run.total(),
    ensures
        run.after_sent(i).ops.len() >= 1,
        is_sent_report(run.after_sent(i).ops[0]),
        report_line(run.after_sent(i).ops[0]) == i,
        forall|k: int| 1 <= k < run.after_sent(i).ops.len() ==> !is_sent_report(#[trigger] run.after_sent(i).ops[k]),
{
    reveal_strlit("sent");
    reveal_strlit("complete");
    assert("complete"@.len() != "sent"@.len());
    let a = run.after_sent(i).ops;
    assert forall|k: int| 1 <= k < a.len() implies !is_sent_report(#[trigger] a[k]) by {
        match a[k] {
            OpView::Report(st, _, _, _, _) => {
                assert(st == "complete"@);
            },
            _ => {},
        }
    }
}

proof fn lemma_prefix_then_sent(run: BatchRun, i: int, p: Seq<OpView>)
    requires
        0 <= i < run.total(),
        p.len() >= 3,
        no_sent_report(p),
        p[p.len() - 1] == OpView::PressKey(VK_RETURN),
        p[p.len() - 3] == OpView::Paste || p[p.len() - 3] == OpView::TypeText(run.text(i)),
    ensures
        sent_after_enter(run, p + run.after_sent(i).ops),
{
    lemma_after_sent_reports(run, i);
    let a = run.after_sent(i).ops;
    let ops = p + a;
    assert forall|k: int| 0 <= k < ops.len() && is_sent_report(#[trigger] ops[k]) implies {
        &&& k >= 3
        &&& ops[k - 1] == OpView::PressKey(VK_RETURN)
        &&& (ops[k - 3] == OpView::Paste || ops[k - 3] == OpView::TypeText(run.text(report_line(ops[k]) as int)))
    } by {
        if k < p.len() {
            assert(ops[k] == p[k]);
        } else {
            assert(ops[k] == a[k - p.len()]);
            if k - p.len() >= 1 {
                assert(!is_sent_report(a[k - p.len()]));
            }
            assert(k == p.len());
            assert(ops[k - 1] == p[p.len() - 1]);
            assert(ops[k - 3] == p[p.len() - 3]);
        }
    }
}

proof fn lemma_no_sent(run: BatchRun, ops: Seq<OpView>)
    requires
        no_sent_report(ops),
    ensures
        sent_after_enter(run, ops),
{
}

/// Law (a line is reported sent only once it was sent): whatever the
/// answer, in the keystrokes a step plans every report that a line was
/// sent comes right after Enter was pressed, and that Enter follows the
/// pasting or the typing of that line.
pub proof fn law_sent_only_after_enter(run: BatchRun, yes: bool)
    requires
        run.wf(),
    ensures
        sent_after_enter(run, run.plan(yes).ops),
{
    reveal_strlit("sent");
    reveal_strlit("sending");
    reveal_strlit("complete");
    reveal_strlit("cancelled");
    reveal_strlit("error");
    assert("complete"@.len() != "sent"@.len());
    assert("sending"@.len() != "sent"@.len());
    assert("cancelled"@.len() != "sent"@.len());
    assert("error"@.len() != "sent"@.len());
    let ops = run.plan(yes).ops;
    let open = seq![OpView::PressKey(spec_chat_open_vk(run.config.chat_open_key@)), OpView::Sleep(run.config.delay_open_chat)];
    match run.phase {
        BatchPhase::AwaitFocus => {
            assert(no_sent_report(ops));
        },
        BatchPhase::AwaitCancel(i) => {
            if yes {
                assert(no_sent_report(ops));
            } else {
                let head = seq![run.report("sending"@, i as int, true), OpView::ReleaseModifiers];
                if run.config.method@ == "typing"@ {
                    let p = head + open + seq![OpView::TypeText(run.text(i as int)), OpView::Sleep(run.config.delay_after_paste), OpView::PressKey(VK_RETURN)];
                    assert(ops =~= p + run.after_sent(i as int).ops);
                    assert(no_sent_report(p));
                    lemma_prefix_then_sent(run, i as int, p);
                } else {
                    assert(ops =~= head + open);
                    assert(no_sent_report(ops));
                }
            }
        },
        BatchPhase::AwaitClipboard(i, a) => {
            if yes {
                let p = seq![OpView::Paste, OpView::Sleep(run.config.delay_after_paste), OpView::PressKey(VK_RETURN)];
                assert(ops =~= p + run.after_sent(i as int).ops);
                assert(no_sent_report(p));
                lemma_prefix_then_sent(run, i as int, p);
            } else {
                let head = seq![OpView::Sleep(run.config.retry_interval)];
                if a < run.config.retry_count {
                    if run.config.method@ == "typing"@ {
                        let p = head + open + seq![OpView::TypeText(run.text(i as int)), OpView::Sleep(run.config.delay_after_paste), OpView::PressKey(VK_RETURN)];
                        assert(ops =~= p + run.after_sent(i as int).ops);
                        assert(no_sent_report(p));
                        lemma_prefix_then_sent(run, i as int, p);
                    } else {
                        assert(ops =~= head + open);
                        assert(no_sent_report(ops));
                    }
                } else {
                    assert(no_sent_report(ops));
                }
            }
        },
        BatchPhase::Finished => {
            assert(no_sent_report(ops));
        },
    }
}

} // verus!
