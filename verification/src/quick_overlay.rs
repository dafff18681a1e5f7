//! The quick overlay's hotkey configuration: key names to virtual-key codes.
use vstd::prelude::*;

use crate::text::{
    chars_of, trim, trim_str, lowercase, to_lowercase, str_eq, split_on, split_chars, trim_chars,
    string_of, parse_i32, parse_signed, is_ascii_alnum, ascii_upper_char, is_alnum,
};

verus! {

pub const VK_SHIFT: i32 = 0x10;
pub const VK_CONTROL: i32 = 0x11;
pub const VK_MENU: i32 = 0x12;
pub const VK_LWIN: i32 = 0x5B;

/// The virtual-key code of a named special key (name already lower case).
pub open spec fn special_of(l: Seq<char>) -> Option<i32> {
    if l == "space"@ {
        Some(0x20)
    } else if l == "enter"@ || l == "return"@ {
        Some(0x0D)
    } else if l == "tab"@ {
        Some(0x09)
    } else if l == "esc"@ || l == "escape"@ {
        Some(0x1B)
    } else if l == "up"@ {
        Some(0x26)
    } else if l == "down"@ {
        Some(0x28)
    } else if l == "left"@ {
        Some(0x25)
    } else if l == "right"@ {
        Some(0x27)
    } else if l == "home"@ {
        Some(0x24)
    } else if l == "end"@ {
        Some(0x23)
    } else if l == "pageup"@ {
        Some(0x21)
    } else if l == "pagedown"@ {
        Some(0x22)
    } else if l == "insert"@ {
        Some(0x2D)
    } else if l == "delete"@ {
        Some(0x2E)
    } else {
        None
    }
}

/// The virtual-key code of a special key, by name in any case.
pub open spec fn spec_special_key_vk(name: Seq<char>) -> Option<i32> {
    special_of(lowercase(name))
}

pub fn special_key_vk(name: &str) -> (r: Option<i32>)
    ensures
        r == spec_special_key_vk(name@),
{
    let l = to_lowercase(name);
    let l = l.as_str();
    if str_eq(l, "space") {
        Some(0x20)
    } else if str_eq(l, "enter") || str_eq(l, "return") {
        Some(0x0D)
    } else if str_eq(l, "tab") {
        Some(0x09)
    } else if str_eq(l, "esc") || str_eq(l, "escape") {
        Some(0x1B)
    } else if str_eq(l, "up") {
        Some(0x26)
    } else if str_eq(l, "down") {
        Some(0x28)
    } else if str_eq(l, "left") {
        Some(0x25)
    } else if str_eq(l, "right") {
        Some(0x27)
    } else if str_eq(l, "home") {
        Some(0x24)
    } else if str_eq(l, "end") {
        Some(0x23)
    } else if str_eq(l, "pageup") {
        Some(0x21)
    } else if str_eq(l, "pagedown") {
        Some(0x22)
    } else if str_eq(l, "insert") {
        Some(0x2D)
    } else if str_eq(l, "delete") {
        Some(0x2E)
    } else {
        None
    }
}

/// The virtual-key code of a modifier key, by name in any case.
pub open spec fn spec_modifier_vk(name: Seq<char>) -> Option<i32> {
    let l = lowercase(name);
    if l == "shift"@ {
        Some(VK_SHIFT)
    } else if l == "ctrl"@ || l == "control"@ {
        Some(VK_CONTROL)
    } else if l == "alt"@ {
        Some(VK_MENU)
    } else if l == "win"@ || l == "meta"@ || l == "super"@ {
        Some(VK_LWIN)
    } else {
        None
    }
}

pub fn modifier_vk(name: &str) -> (r: Option<i32>)
    ensures
        r == spec_modifier_vk(name@),
{
    let l = to_lowercase(name);
    let l = l.as_str();
    if str_eq(l, "shift") {
        Some(VK_SHIFT)
    } else if str_eq(l, "ctrl") || str_eq(l, "control") {
        Some(VK_CONTROL)
    } else if str_eq(l, "alt") {
        Some(VK_MENU)
    } else if str_eq(l, "win") || str_eq(l, "meta") || str_eq(l, "super") {
        Some(VK_LWIN)
    } else {
        None
    }
}

/// The virtual-key code of a main key: `F1`–`F24`, a named special key, or
/// a single letter or digit (its upper-case character code). The function
/// keys are read as `f` and at most two more ASCII characters that parse as
/// a number from 1 to 24.
pub open spec fn spec_parse_key_token(token: Seq<char>) -> Option<i32> {
    let l = lowercase(trim(token));
    let rest = l.subrange(1, l.len() as int);
    let fkey = if l.len() > 0 && l[0] == 'f' && l.len() <= 3 {
        match parse_signed(rest, i32::MIN as int, i32::MAX as int) {
            Some(n) => if 1 <= n <= 24 { Some((0x6F + n) as i32) } else { None },
            None => None,
        }
    } else {
        None
    };
    if fkey is Some {
        fkey
    } else if spec_special_key_vk(l) is Some {
        spec_special_key_vk(l)
    } else if l.len() == 1 && is_ascii_alnum(l[0]) {
        Some(ascii_upper_char(l[0]) as i32)
    } else {
        None
    }
}

/// `l` names a function key `F1`–`F24`.
pub open spec fn is_function_key(l: Seq<char>) -> bool {
    &&& l.len() > 0 && l[0] == 'f' && l.len() <= 3
    &&& parse_signed(l.subrange(1, l.len() as int), i32::MIN as int, i32::MAX as int) matches Some(n) && 1 <= n <= 24
}

/// Law (named keys are main keys): a token that names a special key (space,
/// enter, tab, escape, the arrows, home, end, page up and down, insert,
/// delete), in any case and with surrounding blanks, parses to that key's
/// code.
pub proof fn law_named_key_token(token: Seq<char>)
    requires
        spec_special_key_vk(lowercase(trim(token))) is Some,
        !is_function_key(lowercase(trim(token))),
    ensures
        spec_parse_key_token(token) == spec_special_key_vk(lowercase(trim(token))),
{
}

pub fn parse_key_token(token: &str) -> (r: Option<i32>)
    ensures
        r == spec_parse_key_token(token@),
{
    let t = trim_str(token);
    let lower = to_lowercase(t.as_str());
    let l = chars_of(lower.as_str());
    if l.len() > 0 && l[0] == 'f' && l.len() <= 3 {
        let rest = crate::text::slice_chars(&l, 1, l.len());
        match parse_i32(&rest) {
            Some(n) => {
                if 1 <= n && n <= 24 {
                    return Some(0x6F + n);
                }
            },
            None => {},
        }
    }
    match special_key_vk(lower.as_str()) {
        Some(vk) => {
            return Some(vk);
        },
        None => {},
    }
    if l.len() == 1 && is_alnum(l[0]) {
        let c = l[0];
        let up = if 'a' <= c && c <= 'z' {
            ((c as u32) - 32) as i32
        } else {
            c as i32
        };
        proof {
            assert(up == ascii_upper_char(c) as i32);
        }
        return Some(up);
    }
    None
}

/// The parse state after some parts of a hotkey: the modifiers so far and
/// the main key, if one was found (a later one replaces an earlier one).
pub open spec fn hotkey_state(parts: Seq<Seq<char>>) -> (Seq<i32>, Option<i32>)
    decreases parts.len(),
{
    if parts.len() == 0 {
        (Seq::empty(), None)
    } else {
        let st = hotkey_state(parts.drop_last());
        let p = parts.last();
        match spec_modifier_vk(p) {
            Some(m) => (st.0.push(m), st.1),
            None => match spec_parse_key_token(p) {
                Some(k) => (st.0, Some(k)),
                None => st,
            },
        }
    }
}

/// A hotkey like `ctrl+f7`: its parts split at `+` and trimmed; the
/// modifiers in order and the main key, when there is one.
pub open spec fn spec_parse_hotkey(hotkey: Seq<char>) -> Option<(Seq<i32>, i32)> {
    let parts = split_on(hotkey, '+').map_values(|p: Seq<char>| trim(p));
    let st = hotkey_state(parts);
    match st.1 {
        Some(k) => Some((st.0, k)),
        None => None,
    }
}

pub fn parse_hotkey(hotkey: &str) -> (r: Option<(Vec<i32>, i32)>)
    ensures
        match r {
            Some((mods, k)) => spec_parse_hotkey(hotkey@) == Some((mods@, k)),
            None => spec_parse_hotkey(hotkey@) is None,
        },
{
    let raw = split_chars(&chars_of(hotkey), '+');
    let ghost parts = split_on(hotkey@, '+').map_values(|p: Seq<char>| trim(p));
    let mut mods: Vec<i32> = Vec::new();
    let mut main: Option<i32> = None;
    let mut i: usize = 0;
    assert(parts.subrange(0, 0) =~= Seq::<Seq<char>>::empty());
    while i < raw.len()
        invariant
            0 <= i <= raw.len(),
            raw@.map_values(|x: Vec<char>| x@) == split_on(hotkey@, '+'),
            parts == split_on(hotkey@, '+').map_values(|p: Seq<char>| trim(p)),
            parts.len() == raw.len(),
            hotkey_state(parts.subrange(0, i as int)) == (mods@, main),
        decreases raw.len() - i,
    {
        let part = string_of(&trim_chars(&raw[i]));
        proof {
            assert(parts[i as int] == trim(raw@[i as int]@));
            let s1 = parts.subrange(0, i + 1);
            assert(s1.drop_last() =~= parts.subrange(0, i as int));
            assert(s1.last() == part@);
        }
        match modifier_vk(part.as_str()) {
            Some(m) => {
                mods.push(m);
            },
            None => match parse_key_token(part.as_str()) {
                Some(k) => {
                    main = Some(k);
                },
                None => {},
            },
        }
        i = i + 1;
    }
    assert(parts.subrange(0, raw.len() as int) =~= parts);
    match main {
        Some(k) => Some((mods, k)),
        None => None,
    }
}

/// The virtual-key code of a mouse side button, by name in any case.
pub open spec fn spec_mouse_button(btn: Seq<char>) -> Option<i32> {
    let l = lowercase(trim(btn));
    if l == "xbutton1"@ || l == "x1"@ || l == "mouse4"@ || l == "back"@ {
        Some(0x05)
    } else if l == "xbutton2"@ || l == "x2"@ || l == "mouse5"@ || l == "forward"@ {
        Some(0x06)
    } else {
        None
    }
}

pub fn parse_mouse_side_button(btn: &str) -> (r: Option<i32>)
    ensures
        r == spec_mouse_button(btn@),
{
    let t = trim_str(btn);
    let l = to_lowercase(t.as_str());
    let l = l.as_str();
    if str_eq(l, "xbutton1") || str_eq(l, "x1") || str_eq(l, "mouse4") || str_eq(l, "back") {
        Some(0x05)
    } else if str_eq(l, "xbutton2") || str_eq(l, "x2") || str_eq(l, "mouse5") || str_eq(l, "forward") {
        Some(0x06)
    } else {
        None
    }
}

/// A command from the overlay to the window.
#[derive(Debug)]
pub enum OverlayCommand {
    /// The hotkey was pressed: show the quick panel.
    HotkeyTriggered,
    /// A send reported progress.
    StatusUpdate { text: String, done: bool },
}

/// Whether the overlay can be started: a hotkey or a mouse button is usable.
pub fn has_trigger(hotkey: &str, mouse_button: &str) -> (r: bool)
    ensures
        r == (spec_parse_hotkey(hotkey@) is Some || spec_mouse_button(mouse_button@) is Some),
{
    parse_hotkey(hotkey).is_some() || parse_mouse_side_button(mouse_button).is_some()
}

/// The polling interval: the configured one, but never below 20 ms.
pub fn poll_interval(poll_interval_ms: u64) -> (r: u64)
    ensures
        r == if poll_interval_ms < 20 { 20 } else { poll_interval_ms },
{
    if poll_interval_ms < 20 {
        20
    } else {
        poll_interval_ms
    }
}

/// Edge detection for a polled key: fire when it goes from up to down.
pub fn rising_edge(was_down: bool, is_down: bool) -> (r: bool)
    ensures
        r == (is_down && !was_down),
{
    is_down && !was_down
}

/// The polling state of the overlay's triggers.
#[derive(Debug)]
pub struct HotkeyPoller {
    /// The hotkey: its modifiers and its main key.
    pub hotkey: Option<(Vec<i32>, i32)>,
    /// The mouse side button.
    pub mouse: Option<i32>,
    pub hotkey_was_down: bool,
    pub mouse_was_down: bool,
}

impl HotkeyPoller {
    /// A poller for the configured triggers; `None` when neither the hotkey
    /// nor the mouse button is usable (the overlay does not start then).
    pub fn new(hotkey: &str, mouse_button: &str) -> (r: Option<HotkeyPoller>)
        ensures
            match r {
                Some(p) => (spec_parse_hotkey(hotkey@) is Some || spec_mouse_button(mouse_button@) is Some)
                    && match p.hotkey {
                        Some((mods, k)) => spec_parse_hotkey(hotkey@) == Some((mods@, k)),
                        None => spec_parse_hotkey(hotkey@) is None,
                    }
                    && p.mouse == spec_mouse_button(mouse_button@)
                    && !p.hotkey_was_down && !p.mouse_was_down,
                None => spec_parse_hotkey(hotkey@) is None && spec_mouse_button(mouse_button@) is None,
            },
    {
        let hk = parse_hotkey(hotkey);
        let mb = parse_mouse_side_button(mouse_button);
        if hk.is_none() && mb.is_none() {
            return None;
        }
        Some(HotkeyPoller { hotkey: hk, mouse: mb, hotkey_was_down: false, mouse_was_down: false })
    }

    /// The keys to probe for the hotkey: its modifiers, then its main key.
    pub fn hotkey_keys(&self) -> (r: Vec<i32>)
        ensures
            match self.hotkey {
                Some((mods, k)) => r@ == mods@.push(k),
                None => r@.len() == 0,
            },
    {
        match &self.hotkey {
            Some((mods, k)) => {
                let mut v = mods.clone();
                v.push(*k);
                v
            },
            None => Vec::new(),
        }
    }

    /// One poll: `pressed` tells, for each key of [`HotkeyPoller::hotkey_keys`],
    /// whether it is down, and `mouse_down` whether the mouse button is. The
    /// result is how many times the overlay is triggered: once for the hotkey
    /// going down (all its keys down now, not all before) and once for the
    /// mouse button going down.
    pub fn tick(&mut self, pressed: &Vec<bool>, mouse_down: bool) -> (fired: u32)
        requires
            old(self).hotkey matches Some((mods, k)) ==> pressed@.len() == mods@.len() + 1,
        ensures
            ({
                let hk_down = forall|i: int| 0 <= i < pressed@.len() ==> #[trigger] pressed@[i];
                let hk_fire = old(self).hotkey is Some && hk_down && !old(self).hotkey_was_down;
                let m_fire = old(self).mouse is Some && mouse_down && !old(self).mouse_was_down;
                &&& fired == (if hk_fire { 1u32 } else { 0u32 }) + (if m_fire { 1u32 } else { 0u32 })
                &&& final(self).hotkey == old(self).hotkey
                &&& final(self).mouse == old(self).mouse
                &&& final(self).hotkey_was_down == (if old(self).hotkey is Some { hk_down } else { old(self).hotkey_was_down })
                &&& final(self).mouse_was_down == (if old(self).mouse is Some { mouse_down } else { old(self).mouse_was_down })
            }),
    {
        let mut fired: u32 = 0;
        if self.hotkey.is_some() {
            let mut all = true;
            let mut i: usize = 0;
            while i < pressed.len()
                invariant
                    0 <= i <= pressed.len(),
                    all == (forall|j: int| 0 <= j < i ==> #[trigger] pressed@[j]),
                decreases pressed.len() - i,
            {
                all = all && pressed[i];
                i = i + 1;
            }
            if rising_edge(self.hotkey_was_down, all) {
                fired = fired + 1;
            }
            self.hotkey_was_down = all;
        }
        if self.mouse.is_some() {
            if rising_edge(self.mouse_was_down, mouse_down) {
                fired = fired + 1;
            }
            self.mouse_was_down = mouse_down;
        }
        fired
    }
}

} // verus!
