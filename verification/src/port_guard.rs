//! The startup port guard: who holds the port, and what to do about it.
//!
//! The probes themselves (binding the port, running `netstat`, `tasklist`
//! and `taskkill`, asking the user, waiting) are the caller's; this module
//! reads their output and decides each next step.
use vstd::prelude::*;

use crate::error::{AppError, AppResult, message_of};
use crate::text::{
    chars_of, string_of, trim, trim_chars, words, words_exec, lines, lines_exec, split_on,
    split_chars, contains, contains_exec, is_suffix, has_suffix, parse_unsigned, parse_u64,
    decimal, decimal_of, signed_decimal, signed_decimal_of, chars_eq, strip_leading,
    strip_leading_exec, strip_trailing, strip_trailing_exec, lowercase, to_lowercase,
};

verus! {

/// A process that holds a port.
#[derive(Debug)]
pub struct PortOccupier {
    pub pid: u32,
    pub process_name: Option<String>,
    pub local_address: Option<String>,
}

// ── Reading `netstat -ano -p TCP` ──────────────────────────────────────

/// `":"` followed by the port number.
pub open spec fn port_suffix(port: u16) -> Seq<char> {
    seq![':'] + decimal(port as nat)
}

/// The listener that one `netstat` line reports on `port`: the PID and the
/// local address, when the line is a `LISTENING` row of at least five
/// columns whose local address ends in `:port` and whose PID column is a
/// `u32`.
pub open spec fn listener_of(line: Seq<char>, port: u16) -> Option<(u32, Seq<char>)> {
    let t = trim(line);
    let parts = words(t);
    if contains(t, "LISTENING"@) && parts.len() >= 5 && is_suffix(port_suffix(port), parts[1]) {
        match parse_unsigned(parts[4], u32::MAX as nat) {
            Some(pid) => Some((pid as u32, parts[1])),
            None => None,
        }
    } else {
        None
    }
}

/// The listener of the first line that reports one.
pub open spec fn first_listener(ls: Seq<Seq<char>>, port: u16) -> Option<(u32, Seq<char>)>
    decreases ls.len(),
{
    if ls.len() == 0 {
        None
    } else {
        match listener_of(ls[0], port) {
            Some(x) => Some(x),
            None => first_listener(ls.drop_first(), port),
        }
    }
}

proof fn lemma_first_listener_skip(ls: Seq<Seq<char>>, i: int, port: u16)
    requires
        0 <= i <= ls.len(),
        forall|j: int| 0 <= j < i ==> listener_of(#[trigger] ls[j], port) is None,
    ensures
        first_listener(ls, port) == first_listener(ls.subrange(i, ls.len() as int), port),
    decreases i,
{
    if i > 0 {
        let t = ls.drop_first();
        assert forall|j: int| 0 <= j < i - 1 implies listener_of(#[trigger] t[j], port) is None by {
            assert(t[j] == ls[j + 1]);
        }
        lemma_first_listener_skip(t, i - 1, port);
        assert(t.subrange(i - 1, t.len() as int) =~= ls.subrange(i, ls.len() as int));
    } else {
        assert(ls.subrange(0, ls.len() as int) =~= ls);
    }
}

fn listener_exec(line: &Vec<char>, port: u16) -> (r: Option<(u32, String)>)
    ensures
        match r {
            Some((pid, addr)) => listener_of(line@, port) == Some((pid, addr@)),
            None => listener_of(line@, port) is None,
        },
{
    let t = trim_chars(line);
    let marker = chars_of("LISTENING");
    proof {
        reveal_strlit("LISTENING");
    }
    if !contains_exec(&t, &marker) {
        return None;
    }
    let parts = words_exec(&t);
    proof {
        assert(parts@.map_values(|x: Vec<char>| x@).len() == parts@.len());
    }
    if parts.len() < 5 {
        return None;
    }
    let mut suffix: Vec<char> = vec![':'];
    let digits = chars_of(decimal_of(port as u64).as_str());
    let mut k: usize = 0;
    while k < digits.len()
        invariant
            0 <= k <= digits.len(),
            suffix@ == seq![':'] + digits@.subrange(0, k as int),
        decreases digits.len() - k,
    {
        suffix.push(digits[k]);
        proof {
            assert(digits@.subrange(0, k + 1) =~= digits@.subrange(0, k as int).push(digits@[k as int]));
        }
        k = k + 1;
    }
    proof {
        assert(digits@.subrange(0, digits.len() as int) =~= digits@);
        assert(parts@.map_values(|x: Vec<char>| x@)[1] == parts@[1]@);
        assert(parts@.map_values(|x: Vec<char>| x@)[4] == parts@[4]@);
    }
    if !has_suffix(&parts[1], &suffix) {
        return None;
    }
    match parse_u64(&parts[4]) {
        Some(v) => if v <= 0xffff_ffffu64 {
            Some((v as u32, string_of(&parts[1])))
        } else {
            None
        },
        None => None,
    }
}

/// The listener on `port` in the output of `netstat -ano -p TCP`: the PID
/// and the local address of the first `LISTENING` row on that port.
pub fn find_listener(netstat_output: &str, port: u16) -> (r: Option<(u32, String)>)
    ensures
        match r {
            Some((pid, addr)) => first_listener(lines(netstat_output@), port) == Some((pid, addr@)),
            None => first_listener(lines(netstat_output@), port) is None,
        },
{
    let ls = lines_exec(&chars_of(netstat_output));
    let ghost lv = ls@.map_values(|x: Vec<char>| x@);
    let mut i: usize = 0;
    while i < ls.len()
        invariant
            0 <= i <= ls.len(),
            lv == ls@.map_values(|x: Vec<char>| x@),
            lv == lines(netstat_output@),
            forall|j: int| 0 <= j < i ==> listener_of(#[trigger] lv[j], port) is None,
        decreases ls.len() - i,
    {
        assert(lv[i as int] == ls@[i as int]@);
        match listener_exec(&ls[i], port) {
            Some(x) => {
                proof {
                    lemma_first_listener_skip(lv, i as int, port);
                    assert(lv.subrange(i as int, lv.len() as int)[0] == lv[i as int]);
                }
                return Some(x);
            },
            None => {},
        }
        i = i + 1;
    }
    proof {
        lemma_first_listener_skip(lv, i as int, port);
        assert(lv.subrange(i as int, lv.len() as int).len() == 0);
    }
    None
}

// ── Reading `tasklist /FO CSV /NH` ─────────────────────────────────────

/// The process name in the first line of `tasklist` CSV output: the first
/// field without its quotes, unless the line is not CSV, the name is empty,
/// or `tasklist` answered with an `INFO:` line.
pub open spec fn tasklist_name(output: Seq<char>) -> Option<Seq<char>> {
    let ls = lines(output);
    if ls.len() == 0 {
        None
    } else {
        let line = trim(ls[0]);
        if line.len() > 0 && line[0] == '"' {
            let name = strip_trailing(strip_leading(split_on(line, ',')[0], '"'), '"');
            if name.len() > 0 && name != "INFO:"@ {
                Some(name)
            } else {
                None
            }
        } else {
            None
        }
    }
}

/// The name of the process that `tasklist /FI "PID eq …" /FO CSV /NH`
/// reports.
pub fn process_name_from_tasklist(output: &str) -> (r: Option<String>)
    ensures
        match r {
            Some(n) => tasklist_name(output@) == Some(n@),
            None => tasklist_name(output@) is None,
        },
{
    let ls = lines_exec(&chars_of(output));
    proof {
        assert(ls@.map_values(|x: Vec<char>| x@).len() == ls@.len());
    }
    if ls.len() == 0 {
        return None;
    }
    proof {
        assert(ls@.map_values(|x: Vec<char>| x@)[0] == ls@[0]@);
    }
    let line = trim_chars(&ls[0]);
    if line.len() == 0 || line[0] != '"' {
        return None;
    }
    let fields = split_chars(&line, ',');
    proof {
        assert(fields@.map_values(|x: Vec<char>| x@).len() == fields@.len());
        assert(split_on(line@, ',').len() > 0);
    }
    let first = &fields[0];
    proof {
        assert(fields@.map_values(|x: Vec<char>| x@)[0] == fields@[0]@);
    }
    let name = strip_trailing_exec(&strip_leading_exec(first, '"'), '"');
    let info = chars_of("INFO:");
    if name.len() == 0 || chars_eq(&name, &info) {
        return None;
    }
    Some(string_of(&name))
}

// ── What to do ─────────────────────────────────────────────────────────

/// The name shown for an occupier: its process name, or "未知进程".
pub open spec fn shown_name(occ: PortOccupier) -> Seq<char> {
    match occ.process_name {
        Some(n) => n@,
        None => "未知进程"@,
    }
}

/// Whether the occupier is another VanceSender instance, judged by its
/// lower-cased name.
pub open spec fn is_self(occ: PortOccupier) -> bool {
    contains(lowercase(shown_name(occ)), "vancesender"@)
        || contains(lowercase(shown_name(occ)), "vance_sender"@)
}

/// The next step of the port guard.
#[derive(Debug)]
pub enum PortAction {
    /// Give up with this error.
    Fail(AppError),
    /// Terminate the process tree of this PID, then wait for the port.
    Kill(u32),
    /// Ask the user, with this message, whether to terminate the occupier.
    Ask(String),
}

fn shown_name_exec(occ: &PortOccupier) -> (r: String)
    ensures
        r@ == shown_name(*occ),
{
    match &occ.process_name {
        Some(n) => n.clone(),
        None => String::from_str("未知进程"),
    }
}

fn is_self_exec(occ: &PortOccupier) -> (r: bool)
    ensures
        r == is_self(*occ),
{
    let lower = chars_of(to_lowercase(shown_name_exec(occ).as_str()).as_str());
    contains_exec(&lower, &chars_of("vancesender")) || contains_exec(&lower, &chars_of("vance_sender"))
}

pub open spec fn unidentified_message(host: Seq<char>, port: u16) -> Seq<char> {
    "端口 "@ + host + ":"@ + decimal(port as nat) + " 已被占用（无法识别占用进程）"@
}

pub open spec fn ask_message(port: u16, occ: PortOccupier) -> Seq<char> {
    "VanceSender 需要的端口 "@ + decimal(port as nat) + " 已被 "@ + shown_name(occ) + " (PID "@
        + decimal(occ.pid as nat) + ") 占用。\n\n是否强制关闭该进程？"@
}

pub open spec fn held_message(port: u16, occ: PortOccupier) -> Seq<char> {
    "端口 "@ + decimal(port as nat) + " 被 "@ + shown_name(occ) + " (PID "@ + decimal(occ.pid as nat)
        + ") 占用"@
}

/// The step after the port was found taken and its holder looked up:
/// give up when the holder is unknown; terminate another VanceSender;
/// ask about any other process where a dialog can be shown, else give up.
pub fn on_occupier(host: &str, port: u16, occupier: Option<&PortOccupier>, can_ask: bool) -> (r: PortAction)
    ensures
        match occupier {
            None => r matches PortAction::Fail(AppError::Internal(m)) && m@ == unidentified_message(host@, port),
            Some(occ) => if is_self(*occ) {
                r == PortAction::Kill(occ.pid)
            } else if can_ask {
                r matches PortAction::Ask(m) && m@ == ask_message(port, *occ)
            } else {
                r matches PortAction::Fail(AppError::Internal(m)) && m@ == held_message(port, *occ)
            },
        },
{
    match occupier {
        None => {
            let m = String::from_str("端口 ").concat(host).concat(":").concat(decimal_of(port as u64).as_str()).concat(" 已被占用（无法识别占用进程）");
            PortAction::Fail(AppError::Internal(m))
        },
        Some(occ) => {
            if is_self_exec(occ) {
                PortAction::Kill(occ.pid)
            } else if can_ask {
                let m = String::from_str("VanceSender 需要的端口 ").concat(decimal_of(port as u64).as_str()).concat(" 已被 ").concat(shown_name_exec(occ).as_str()).concat(" (PID ").concat(decimal_of(occ.pid as u64).as_str()).concat(") 占用。\n\n是否强制关闭该进程？");
                PortAction::Ask(m)
            } else {
                let m = String::from_str("端口 ").concat(decimal_of(port as u64).as_str()).concat(" 被 ").concat(shown_name_exec(occ).as_str()).concat(" (PID ").concat(decimal_of(occ.pid as u64).as_str()).concat(") 占用");
                PortAction::Fail(AppError::Internal(m))
            }
        },
    }
}

/// The step after the user answered the question: terminate on yes, give
/// up on no.
pub fn on_answer(port: u16, occ: &PortOccupier, yes: bool) -> (r: PortAction)
    ensures
        yes ==> r == PortAction::Kill(occ.pid),
        !yes ==> (r matches PortAction::Fail(AppError::Internal(m)) && m@ == "端口 "@ + decimal(port as nat) + " 被占用，用户取消终止"@),
{
    if yes {
        PortAction::Kill(occ.pid)
    } else {
        PortAction::Fail(AppError::Internal(String::from_str("端口 ").concat(decimal_of(port as u64).as_str()).concat(" 被占用，用户取消终止")))
    }
}

pub open spec fn kill_failed_message(port: u16, occ: PortOccupier, e: AppError) -> Seq<char> {
    if is_self(occ) {
        "端口 "@ + decimal(port as nat) + " 被另一个 VanceSender (PID "@ + decimal(occ.pid as nat)
            + ") 占用，且无法终止: "@ + message_of(e)
    } else {
        "无法终止占用端口的进程 "@ + shown_name(occ) + " (PID "@ + decimal(occ.pid as nat) + "): "@
            + message_of(e)
    }
}

/// The step after the termination was tried: `None` to go on and wait for
/// the port, or the error to give up with.
pub fn on_kill(port: u16, occ: &PortOccupier, outcome: AppResult<()>) -> (r: Option<AppError>)
    ensures
        match outcome {
            Ok(_) => r is None,
            Err(e) => r matches Some(AppError::Internal(m)) && m@ == kill_failed_message(port, *occ, e),
        },
{
    match outcome {
        Ok(_) => None,
        Err(e) => {
            let shown = e.to_message();
            let m = if is_self_exec(occ) {
                String::from_str("端口 ").concat(decimal_of(port as u64).as_str()).concat(" 被另一个 VanceSender (PID ").concat(decimal_of(occ.pid as u64).as_str()).concat(") 占用，且无法终止: ").concat(shown.as_str())
            } else {
                String::from_str("无法终止占用端口的进程 ").concat(shown_name_exec(occ).as_str()).concat(" (PID ").concat(decimal_of(occ.pid as u64).as_str()).concat("): ").concat(shown.as_str())
            };
            Some(AppError::Internal(m))
        },
    }
}

pub open spec fn still_held_message(port: u16, occ: PortOccupier) -> Seq<char> {
    if is_self(occ) {
        "已终止旧实例 (PID "@ + decimal(occ.pid as nat) + ") 但端口 "@ + decimal(port as nat) + " 仍未释放"@
    } else {
        "已终止进程但端口 "@ + decimal(port as nat) + " 仍未释放"@
    }
}

/// The last step, after waiting for the port to be released.
pub fn on_wait(port: u16, occ: &PortOccupier, released: bool) -> (r: AppResult<()>)
    ensures
        released ==> r is Ok,
        !released ==> (r matches Err(AppError::Internal(m)) && m@ == still_held_message(port, *occ)),
{
    if released {
        Ok(())
    } else if is_self_exec(occ) {
        Err(AppError::Internal(String::from_str("已终止旧实例 (PID ").concat(decimal_of(occ.pid as u64).as_str()).concat(") 但端口 ").concat(decimal_of(port as u64).as_str()).concat(" 仍未释放")))
    } else {
        Err(AppError::Internal(String::from_str("已终止进程但端口 ").concat(decimal_of(port as u64).as_str()).concat(" 仍未释放")))
    }
}

/// What a `taskkill` run means: success, or its exit code (-1 when it has
/// none) as the error.
pub fn taskkill_outcome(success: bool, code: Option<i32>) -> (r: AppResult<()>)
    ensures
        success ==> r is Ok,
        !success ==> (r matches Err(AppError::Internal(m)) && m@ == "taskkill 退出码: "@ + signed_decimal(
            match code {
                Some(c) => c as int,
                None => -1,
            },
        )),
{
    if success {
        Ok(())
    } else {
        let c: i32 = match code {
            Some(c) => c,
            None => -1,
        };
        Err(AppError::Internal(String::from_str("taskkill 退出码: ").concat(signed_decimal_of(c as i64).as_str())))
    }
}

} // verus!
