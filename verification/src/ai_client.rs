//! The AI client's own logic: choosing a provider, building prompts, and
//! turning a model's reply into lines of text.
use vstd::prelude::*;

use crate::config::ProviderConfig;
use crate::error::AppError;
use crate::json::{json_tree_of, parse_json_tree};
use crate::ai_stream::{choice_text, choice_text_exec};
use crate::presets::TextLine;
use crate::text::{
    chars_of, string_of, slice_chars, str_eq, trim, trim_str, trim_chars, decimal, decimal_of,
    is_prefix, has_prefix, lines, lines_exec, join_lines, join_lines_exec,
};
use crate::yaml::{YamlNode, Yaml, get, get_node, map_view, lemma_map_view};

verus! {

// ── Prompts ────────────────────────────────────────────────────────────

pub open spec fn default_prompt() -> Seq<char> {
    "你是 FiveM 角色扮演文本生成助手。用户会描述一个场景，你需要生成一系列 /me 和 /do 命令来描述该场景。\n\n定义与边界：\n- /me 表示角色自身动作（第三人称），如 /me 缓缓推开了房门。\n- /do 表示环境或旁白描写，如 /do 门轴发出吱呀的响声。\n- /b 表示OOC对话或出戏描述\n- /e 表示表情动作，通常搭配游戏内动画\n\n输出一个JSON数组，每个元素格式 {\"type\":\"me\",\"content\":\"...\"}，type 可以是 me/do/b/e。\n\n如果你无法输出JSON，则每行一条命令，以 /me 或 /do 开头，不要编号，不要额外说明。"@
}

/// The system prompt: the configured one, or the built-in one when none is set.
pub fn get_system_prompt(custom: &str) -> (r: String)
    ensures
        r@ == if custom@.len() == 0 { default_prompt() } else { custom@ },
{
    if custom.is_empty() {
        String::from_str("你是 FiveM 角色扮演文本生成助手。用户会描述一个场景，你需要生成一系列 /me 和 /do 命令来描述该场景。\n\n定义与边界：\n- /me 表示角色自身动作（第三人称），如 /me 缓缓推开了房门。\n- /do 表示环境或旁白描写，如 /do 门轴发出吱呀的响声。\n- /b 表示OOC对话或出戏描述\n- /e 表示表情动作，通常搭配游戏内动画\n\n输出一个JSON数组，每个元素格式 {\"type\":\"me\",\"content\":\"...\"}，type 可以是 me/do/b/e。\n\n如果你无法输出JSON，则每行一条命令，以 /me 或 /do 开头，不要编号，不要额外说明。")
    } else {
        String::from_str(custom)
    }
}

pub open spec fn opt_view(o: Option<&str>) -> Option<Seq<char>> {
    match o {
        Some(s) => Some(s@),
        None => None,
    }
}

/// The instruction a text type adds to the generation prompt.
pub open spec fn generate_type_line(text_type: Seq<char>) -> Seq<char> {
    if text_type == "me_only"@ {
        "只使用/me命令（type全部为me）。\n"@
    } else if text_type == "do_only"@ {
        "只使用/do命令（type全部为do）。\n"@
    } else {
        Seq::empty()
    }
}

/// The user prompt of a generation request.
pub open spec fn generate_prompt(scenario: Seq<char>, count: Option<u32>, text_type: Seq<char>, style: Option<Seq<char>>) -> Seq<char> {
    "场景描述："@ + scenario + "\n"@
        + (match count {
            Some(c) => "请生成"@ + decimal(c as nat) + "条文本。\n"@,
            None => Seq::empty(),
        })
        + generate_type_line(text_type)
        + (match style {
            Some(s) => if s.len() > 0 { "风格要求："@ + s + "\n"@ } else { Seq::empty() },
            None => Seq::empty(),
        })
        + "输出JSON数组，格式：[{\"type\":\"me\",\"content\":\"...\"}, ...]"@
}

pub fn build_generate_user_prompt(scenario: &str, count: Option<u32>, text_type: &str, style: Option<&str>) -> (r: String)
    ensures
        r@ == generate_prompt(scenario@, count, text_type@, opt_view(style)),
{
    let mut p = String::from_str("场景描述：").concat(scenario).concat("\n");
    match count {
        Some(c) => {
            let d = decimal_of(c as u64);
            p = p.concat("请生成").concat(d.as_str()).concat("条文本。\n");
        },
        None => {},
    }
    if str_eq(text_type, "me_only") {
        p = p.concat("只使用/me命令（type全部为me）。\n");
    } else if str_eq(text_type, "do_only") {
        p = p.concat("只使用/do命令（type全部为do）。\n");
    } else {
        assert(generate_type_line(text_type@) =~= Seq::<char>::empty());
    }
    match style {
        Some(s) => {
            if !s.is_empty() {
                p = p.concat("风格要求：").concat(s).concat("\n");
            }
        },
        None => {},
    }
    let r = p.concat("输出JSON数组，格式：[{\"type\":\"me\",\"content\":\"...\"}, ...]");
    assert(r@ =~= generate_prompt(scenario@, count, text_type@, opt_view(style)));
    r
}

pub open spec fn nonempty_line(prefix: Seq<char>, o: Option<Seq<char>>) -> Seq<char> {
    match o {
        Some(s) => if s.len() > 0 { prefix + s + "\n"@ } else { Seq::empty() },
        None => Seq::empty(),
    }
}

/// The user prompt of a rewrite request, given the lines as JSON.
pub open spec fn rewrite_prompt(
    texts_json: Seq<char>,
    instruction: Option<Seq<char>>,
    style: Option<Seq<char>>,
    requirements: Option<Seq<char>>,
    text_type: Option<Seq<char>>,
) -> Seq<char> {
    "请重写以下文本：\n"@ + texts_json + "\n"@
        + nonempty_line("重写要求："@, instruction)
        + nonempty_line("重写风格："@, style)
        + nonempty_line("额外要求："@, requirements)
        + (match text_type {
            Some(t) => if t == "me_only"@ {
                "重写后只使用/me命令。\n"@
            } else if t == "do_only"@ {
                "重写后只使用/do命令。\n"@
            } else {
                Seq::empty()
            },
            None => Seq::empty(),
        })
        + "输出JSON数组，格式同原文。"@
}

fn append_nonempty(p: String, prefix: &str, o: Option<&str>) -> (r: String)
    ensures
        r@ == p@ + nonempty_line(prefix@, opt_view(o)),
{
    match o {
        Some(s) => {
            if !s.is_empty() {
                let r = p.concat(prefix).concat(s).concat("\n");
                assert(r@ =~= p@ + (prefix@ + s@ + "\n"@));
                r
            } else {
                assert(p@ + Seq::<char>::empty() =~= p@);
                p
            }
        },
        None => {
            assert(p@ + Seq::<char>::empty() =~= p@);
            p
        },
    }
}

pub fn build_rewrite_prompt(
    texts_json: &str,
    instruction: Option<&str>,
    style: Option<&str>,
    requirements: Option<&str>,
    text_type: Option<&str>,
) -> (r: String)
    ensures
        r@ == rewrite_prompt(texts_json@, opt_view(instruction), opt_view(style), opt_view(requirements), opt_view(text_type)),
{
    let p = String::from_str("请重写以下文本：\n").concat(texts_json).concat("\n");
    let p = append_nonempty(p, "重写要求：", instruction);
    let p = append_nonempty(p, "重写风格：", style);
    let mut p = append_nonempty(p, "额外要求：", requirements);
    let ghost before = p@;
    match text_type {
        Some(t) => {
            if str_eq(t, "me_only") {
                p = p.concat("重写后只使用/me命令。\n");
            } else if str_eq(t, "do_only") {
                p = p.concat("重写后只使用/do命令。\n");
            } else {
                assert(p@ =~= before + Seq::<char>::empty());
            }
        },
        None => {
            assert(p@ =~= before + Seq::<char>::empty());
        },
    }
    let r = p.concat("输出JSON数组，格式同原文。");
    assert(r@ =~= rewrite_prompt(texts_json@, opt_view(instruction), opt_view(style), opt_view(requirements), opt_view(text_type)));
    r
}

/// The token budget of a generation: more lines, more tokens.
pub open spec fn max_tokens_for(count: Option<u32>) -> u32 {
    match count {
        Some(c) => if c > 15 { 3000 } else if c > 8 { 2000 } else { 1200 },
        None => 1200,
    }
}

pub fn estimate_max_tokens(count: Option<u32>) -> (r: u32)
    ensures
        r == max_tokens_for(count),
{
    match count {
        Some(c) => if c > 15 {
            3000
        } else if c > 8 {
            2000
        } else {
            1200
        },
        None => 1200,
    }
}

// ── Sanitising ─────────────────────────────────────────────────────────

/// Full-width ASCII variants become ASCII, the ideographic space a space.
pub open spec fn halfwidth(c: char) -> char {
    let u = c as u32;
    if 0xFF01 <= u <= 0xFF5E {
        (u - 0xFEE0) as char
    } else if u == 0x3000 {
        ' '
    } else {
        c
    }
}

pub fn sanitize_ascii(s: &str) -> (r: String)
    ensures
        r@ == s@.map_values(|c: char| halfwidth(c)),
{
    let v = chars_of(s);
    let mut out: Vec<char> = Vec::new();
    let mut i: usize = 0;
    while i < v.len()
        invariant
            0 <= i <= v.len(),
            out@ == v@.subrange(0, i as int).map_values(|c: char| halfwidth(c)),
        decreases v.len() - i,
    {
        let c = v[i];
        let u = c as u32;
        let d = if 0xFF01 <= u && u <= 0xFF5E {
            let b = u - 0xFEE0;
            assert(0x21 <= b <= 0x7E);
            (b as u8) as char
        } else if u == 0x3000 {
            ' '
        } else {
            c
        };
        out.push(d);
        assert(v@.subrange(0, i + 1).map_values(|c: char| halfwidth(c)) =~= v@.subrange(
            0,
            i as int,
        ).map_values(|c: char| halfwidth(c)).push(halfwidth(v@[i as int])));
        i = i + 1;
    }
    assert(v@.subrange(0, v.len() as int) =~= v@);
    string_of(&out)
}

/// `s` with every trailing `'/'` removed.
pub open spec fn trim_slashes(s: Seq<char>) -> Seq<char>
    decreases s.len(),
{
    if s.len() > 0 && s.last() == '/' {
        trim_slashes(s.drop_last())
    } else {
        s
    }
}

/// The chat completions endpoint of a provider's API base.
pub fn chat_url(api_base: &str) -> (r: String)
    ensures
        r@ == trim_slashes(api_base@.map_values(|c: char| halfwidth(c))) + "/chat/completions"@,
{
    let s = sanitize_ascii(api_base);
    let v = chars_of(s.as_str());
    let mut k = v.len();
    proof {
        assert(v@.subrange(0, k as int) =~= v@);
    }
    while k > 0 && v[k - 1] == '/'
        invariant
            0 <= k <= v.len(),
            trim_slashes(v@) == trim_slashes(v@.subrange(0, k as int)),
        decreases k,
    {
        assert(v@.subrange(0, k as int).drop_last() =~= v@.subrange(0, k - 1));
        k = k - 1;
    }
    let base = string_of(&slice_chars(&v, 0, k));
    base.concat("/chat/completions")
}

/// The `Authorization` header value for an API key.
pub fn bearer(api_key: &str) -> (r: String)
    ensures
        r@ == "Bearer "@ + api_key@.map_values(|c: char| halfwidth(c)),
{
    let k = sanitize_ascii(api_key);
    String::from_str("Bearer ").concat(k.as_str())
}

// ── Providers ──────────────────────────────────────────────────────────

pub open spec fn index_of_provider(ps: Seq<ProviderConfig>, id: Seq<char>) -> Option<int>
    decreases ps.len(),
{
    if ps.len() == 0 {
        None
    } else if ps[0].id@ == id {
        Some(0)
    } else {
        match index_of_provider(ps.drop_first(), id) {
            Some(i) => Some(i + 1),
            None => None,
        }
    }
}

proof fn lemma_index_of_provider(ps: Seq<ProviderConfig>, id: Seq<char>)
    ensures
        match index_of_provider(ps, id) {
            Some(i) => 0 <= i < ps.len() && ps[i].id@ == id && forall|j: int|
                0 <= j < i ==> (#[trigger] ps[j]).id@ != id,
            None => forall|j: int| 0 <= j < ps.len() ==> (#[trigger] ps[j]).id@ != id,
        },
    decreases ps.len(),
{
    if ps.len() > 0 && ps[0].id@ != id {
        let t = ps.drop_first();
        lemma_index_of_provider(t, id);
        match index_of_provider(t, id) {
            Some(i) => {
                assert forall|j: int| 0 <= j < i + 1 implies (#[trigger] ps[j]).id@ != id by {
                    if j > 0 {
                        assert(ps[j] == t[j - 1]);
                    }
                }
            },
            None => {
                assert forall|j: int| 0 <= j < ps.len() implies (#[trigger] ps[j]).id@ != id by {
                    if j > 0 {
                        assert(ps[j] == t[j - 1]);
                    }
                }
            },
        }
    }
}

/// Which provider a request uses: the one asked for; else the configured
/// default when it exists; else the first. `None` when there is no provider
/// or the one asked for does not exist.
pub open spec fn chosen_provider(ps: Seq<ProviderConfig>, asked: Option<Seq<char>>, default_id: Seq<char>) -> Option<int> {
    if ps.len() == 0 {
        None
    } else {
        match asked {
            Some(id) => index_of_provider(ps, id),
            None => if default_id.len() > 0 && index_of_provider(ps, default_id) is Some {
                index_of_provider(ps, default_id)
            } else {
                Some(0)
            },
        }
    }
}

fn find_provider(ps: &Vec<ProviderConfig>, id: &str) -> (r: Option<usize>)
    ensures
        index_of_provider(ps@, id@) == match r {
            Some(i) => Some(i as int),
            None => None::<int>,
        },
{
    let mut i: usize = 0;
    while i < ps.len()
        invariant
            0 <= i <= ps.len(),
            forall|j: int| 0 <= j < i ==> (#[trigger] ps@[j]).id@ != id@,
        decreases ps.len() - i,
    {
        if str_eq(ps[i].id.as_str(), id) {
            proof {
                lemma_index_of_provider(ps@, id@);
            }
            return Some(i);
        }
        i = i + 1;
    }
    proof {
        lemma_index_of_provider(ps@, id@);
    }
    None
}

/// The provider a request uses, from the configured providers, the id the
/// request names (if any) and the configured default id.
pub fn resolve_provider(providers: Vec<ProviderConfig>, provider_id: Option<&str>, default_id: &str) -> (r: Result<ProviderConfig, AppError>)
    ensures
        providers@.len() == 0 ==> (r matches Err(AppError::BadRequest(m)) && m@ == "未配置任何AI服务商"@),
        providers@.len() > 0 ==> match chosen_provider(providers@, opt_view(provider_id), default_id@) {
            Some(i) => r == Ok::<ProviderConfig, AppError>(providers@[i]),
            None => r matches Err(AppError::NotFound(m)) && m@ == "AI服务商 '"@ + provider_id.unwrap()@ + "' 不存在"@,
        },
{
    let mut providers = providers;
    if providers.len() == 0 {
        return Err(AppError::BadRequest(String::from_str("未配置任何AI服务商")));
    }
    proof {
        lemma_index_of_provider(providers@, default_id@);
    }
    match provider_id {
        Some(id) => {
            proof {
                lemma_index_of_provider(providers@, id@);
            }
            match find_provider(&providers, id) {
                Some(i) => Ok(providers.swap_remove(i)),
                None => Err(AppError::NotFound(String::from_str("AI服务商 '").concat(id).concat("' 不存在"))),
            }
        },
        None => {
            if !default_id.is_empty() {
                match find_provider(&providers, default_id) {
                    Some(i) => {
                        return Ok(providers.swap_remove(i));
                    },
                    None => {},
                }
            }
            Ok(providers.swap_remove(0))
        },
    }
}

/// The extra request headers configured under `ai.custom_headers`: the
/// entries whose key and value are strings and whose trimmed value is not
/// empty, the value trimmed.
pub open spec fn custom_headers(entries: Seq<(Yaml, Yaml)>) -> Seq<(Seq<char>, Seq<char>)>
    decreases entries.len(),
{
    if entries.len() == 0 {
        Seq::empty()
    } else {
        let r = custom_headers(entries.drop_last());
        match entries.last() {
            (Yaml::Str(k), Yaml::Str(v)) => if trim(v).len() > 0 {
                r.push((k, trim(v)))
            } else {
                r
            },
            _ => r,
        }
    }
}

pub open spec fn header_entries(cfg: Yaml) -> Seq<(Yaml, Yaml)> {
    match get(cfg, "ai"@) {
        Some(ai) => match get(ai, "custom_headers"@) {
            Some(Yaml::Mapping(m)) => m,
            _ => Seq::empty(),
        },
        None => Seq::empty(),
    }
}

pub fn get_custom_headers(cfg: &YamlNode) -> (r: Vec<(String, String)>)
    ensures
        r@.map_values(|e: (String, String)| (e.0@, e.1@)) == custom_headers(header_entries(cfg@)),
{
    let mut r: Vec<(String, String)> = Vec::new();
    let m: &Vec<(YamlNode, YamlNode)> = match get_node(cfg, "ai") {
        Some(ai) => match get_node(ai, "custom_headers") {
            Some(YamlNode::Mapping(m)) => m,
            _ => {
                assert(r@.map_values(|e: (String, String)| (e.0@, e.1@)) =~= Seq::<(Seq<char>, Seq<char>)>::empty());
                return r;
            },
        },
        None => {
            assert(r@.map_values(|e: (String, String)| (e.0@, e.1@)) =~= Seq::<(Seq<char>, Seq<char>)>::empty());
            return r;
        },
    };
    let ghost mv = map_view(m@);
    proof {
        lemma_map_view(m@);
        assert(mv.subrange(0, 0) =~= Seq::<(Yaml, Yaml)>::empty());
        assert(r@.map_values(|e: (String, String)| (e.0@, e.1@)) =~= Seq::<(Seq<char>, Seq<char>)>::empty());
    }
    let mut i: usize = 0;
    while i < m.len()
        invariant
            0 <= i <= m.len(),
            mv == map_view(m@),
            mv.len() == m.len(),
            forall|j: int| 0 <= j < m.len() ==> #[trigger] mv[j] == (m@[j].0@, m@[j].1@),
            r@.map_values(|e: (String, String)| (e.0@, e.1@)) == custom_headers(mv.subrange(0, i as int)),
        decreases m.len() - i,
    {
        let ghost r0 = r@.map_values(|e: (String, String)| (e.0@, e.1@));
        proof {
            let s1 = mv.subrange(0, i + 1);
            assert(s1.drop_last() =~= mv.subrange(0, i as int));
            assert(s1.last() == mv[i as int]);
        }
        match (&m[i].0, &m[i].1) {
            (YamlNode::Str(k), YamlNode::Str(v)) => {
                let tv = trim_str(v.as_str());
                if !tv.as_str().is_empty() {
                    r.push((k.clone(), tv));
                    assert(r@.map_values(|e: (String, String)| (e.0@, e.1@)) =~= r0.push((k@, trim(v@))));
                }
            },
            _ => {},
        }
        i = i + 1;
    }
    proof {
        assert(mv.subrange(0, m.len() as int) =~= mv);
    }
    r
}


// ── Reading the reply ──────────────────────────────────────────────────

pub open spec fn fence() -> Seq<char> {
    "```"@
}

/// The number of leading lines that do not open a code fence.
pub open spec fn fence_len(ls: Seq<Seq<char>>) -> nat
    decreases ls.len(),
{
    if ls.len() == 0 || is_prefix(fence(), ls[0]) {
        0
    } else {
        1 + fence_len(ls.drop_first())
    }
}

proof fn lemma_fence_len(ls: Seq<Seq<char>>, k: int)
    requires
        0 <= k <= ls.len(),
        forall|j: int| 0 <= j < k ==> !is_prefix(fence(), #[trigger] ls[j]),
        k < ls.len() ==> is_prefix(fence(), ls[k]),
    ensures
        fence_len(ls) == k,
    decreases k,
{
    if k > 0 {
        let t = ls.drop_first();
        assert forall|j: int| 0 <= j < k - 1 implies !is_prefix(fence(), #[trigger] t[j]) by {
            assert(t[j] == ls[j + 1]);
        }
        if k - 1 < t.len() {
            assert(t[k - 1] == ls[k]);
        }
        lemma_fence_len(t, k - 1);
    }
}

/// The text that should hold the JSON array: the reply trimmed, or, when it
/// opens a Markdown code block, the lines inside that block.
pub open spec fn json_payload(content: Seq<char>) -> Seq<char> {
    let t = trim(content);
    if is_prefix(fence(), t) {
        let body = lines(t).drop_first();
        join_lines(body.subrange(0, fence_len(body) as int))
    } else {
        t
    }
}

pub fn json_payload_exec(content: &str) -> (r: String)
    ensures
        r@ == json_payload(content@),
{
    let t = trim_chars(&chars_of(content));
    let f = chars_of("```");
    if !has_prefix(&t, &f) {
        return string_of(&t);
    }
    let ls = lines_exec(&t);
    let ghost lv = ls@.map_values(|x: Vec<char>| x@);
    proof {
        reveal_strlit("```");
        assert(lv.len() > 0);
    }
    let mut body: Vec<Vec<char>> = Vec::new();
    let mut i: usize = 1;
    assert(body@.map_values(|x: Vec<char>| x@) =~= lv.drop_first().subrange(0, 0));
    while i < ls.len() && !has_prefix(&ls[i], &f)
        invariant
            1 <= i <= ls.len(),
            lv == ls@.map_values(|x: Vec<char>| x@),
            f@ == fence(),
            forall|j: int| 1 <= j < i ==> !is_prefix(fence(), #[trigger] lv[j]),
            body@.map_values(|x: Vec<char>| x@) == lv.drop_first().subrange(0, i - 1),
        decreases ls.len() - i,
    {
        let ghost b0 = body@.map_values(|x: Vec<char>| x@);
        body.push(slice_chars(&ls[i], 0, ls[i].len()));
        assert(ls@[i as int]@.subrange(0, ls@[i as int]@.len() as int) =~= ls@[i as int]@);
        assert(lv[i as int] == ls@[i as int]@);
        assert(body@.map_values(|x: Vec<char>| x@) =~= b0.push(lv[i as int]));
        assert(lv.drop_first().subrange(0, i as int) =~= lv.drop_first().subrange(0, i - 1).push(
            lv[i as int],
        ));
        i = i + 1;
    }
    proof {
        let d = lv.drop_first();
        assert forall|j: int| 0 <= j < i - 1 implies !is_prefix(fence(), #[trigger] d[j]) by {
            assert(d[j] == lv[j + 1]);
        }
        if i < ls.len() {
            assert(d[i - 1] == lv[i as int]);
        }
        lemma_fence_len(d, i - 1);
    }
    string_of(&join_lines_exec(&body))
}

pub open spec fn line_view(t: TextLine) -> (Seq<char>, Seq<char>) {
    (t.text_type@, t.content@)
}

pub open spec fn lines_view(s: Seq<TextLine>) -> Seq<(Seq<char>, Seq<char>)> {
    s.map_values(|t: TextLine| line_view(t))
}

/// One reply line read as a command: its `/me`, `/do`, `/b` or `/e`
/// prefix gives the type; a line without one is a `/me` line.
pub open spec fn classify(t: Seq<char>) -> (Seq<char>, Seq<char>) {
    if is_prefix("/me "@, t) {
        ("me"@, t.subrange(4, t.len() as int))
    } else if is_prefix("/do "@, t) {
        ("do"@, t.subrange(4, t.len() as int))
    } else if is_prefix("/b "@, t) {
        ("b"@, t.subrange(3, t.len() as int))
    } else if is_prefix("/e "@, t) {
        ("e"@, t.subrange(3, t.len() as int))
    } else {
        ("me"@, t)
    }
}

/// The reply read line by line: blank lines skipped, the others classified.
pub open spec fn fallback_parse(ls: Seq<Seq<char>>) -> Seq<(Seq<char>, Seq<char>)>
    decreases ls.len(),
{
    if ls.len() == 0 {
        Seq::empty()
    } else {
        let r = fallback_parse(ls.drop_last());
        let t = trim(ls.last());
        if t.len() == 0 {
            r
        } else {
            r.push(classify(t))
        }
    }
}

fn strip_lit(t: &Vec<char>, p: &str) -> (r: Option<Vec<char>>)
    ensures
        match r {
            Some(rest) => is_prefix(p@, t@) && rest@ == t@.subrange(p@.len() as int, t@.len() as int),
            None => !is_prefix(p@, t@),
        },
{
    crate::text::strip_prefix(t, &chars_of(p))
}

fn classify_exec(t: &Vec<char>) -> (r: TextLine)
    ensures
        line_view(r) == classify(t@),
{
    proof {
        reveal_strlit("/me ");
        reveal_strlit("/do ");
        reveal_strlit("/b ");
        reveal_strlit("/e ");
    }
    if let Some(rest) = strip_lit(t, "/me ") {
        TextLine { text_type: String::from_str("me"), content: string_of(&rest) }
    } else if let Some(rest) = strip_lit(t, "/do ") {
        TextLine { text_type: String::from_str("do"), content: string_of(&rest) }
    } else if let Some(rest) = strip_lit(t, "/b ") {
        TextLine { text_type: String::from_str("b"), content: string_of(&rest) }
    } else if let Some(rest) = strip_lit(t, "/e ") {
        TextLine { text_type: String::from_str("e"), content: string_of(&rest) }
    } else {
        TextLine { text_type: String::from_str("me"), content: string_of(t) }
    }
}

/// Read the reply line by line.
pub fn fallback_lines(content: &str) -> (r: Vec<TextLine>)
    ensures
        lines_view(r@) == fallback_parse(lines(content@)),
{
    let ls = lines_exec(&chars_of(content));
    let ghost lv = ls@.map_values(|x: Vec<char>| x@);
    let mut r: Vec<TextLine> = Vec::new();
    let mut i: usize = 0;
    assert(lv.subrange(0, 0) =~= Seq::<Seq<char>>::empty());
    assert(lines_view(r@) =~= Seq::<(Seq<char>, Seq<char>)>::empty());
    while i < ls.len()
        invariant
            0 <= i <= ls.len(),
            lv == ls@.map_values(|x: Vec<char>| x@),
            lines_view(r@) == fallback_parse(lv.subrange(0, i as int)),
        decreases ls.len() - i,
    {
        let ghost r0 = lines_view(r@);
        proof {
            let s1 = lv.subrange(0, i + 1);
            assert(s1.drop_last() =~= lv.subrange(0, i as int));
            assert(s1.last() == ls@[i as int]@);
        }
        let t = trim_chars(&ls[i]);
        if t.len() > 0 {
            let line = classify_exec(&t);
            r.push(line);
            assert(lines_view(r@) =~= r0.push(classify(t@)));
        }
        i = i + 1;
    }
    assert(lv.subrange(0, ls.len() as int) =~= lv);
    r
}

pub open spec fn known_type(t: Seq<char>) -> bool {
    t == "me"@ || t == "do"@ || t == "b"@ || t == "e"@
}

/// A line cleaned up: content trimmed and one leading `/me ` or `/do `
/// dropped; an unknown type becomes `me`.
pub open spec fn clean(l: (Seq<char>, Seq<char>)) -> (Seq<char>, Seq<char>) {
    let c = trim(l.1);
    let c2 = if is_prefix("/me "@, c) {
        c.subrange(4, c.len() as int)
    } else if is_prefix("/do "@, c) {
        c.subrange(4, c.len() as int)
    } else {
        c
    };
    (if known_type(l.0) { l.0 } else { "me"@ }, c2)
}

/// Clean every line and drop the ones left without content.
pub open spec fn postprocess(s: Seq<(Seq<char>, Seq<char>)>) -> Seq<(Seq<char>, Seq<char>)>
    decreases s.len(),
{
    if s.len() == 0 {
        Seq::empty()
    } else {
        let r = postprocess(s.drop_last());
        let c = clean(s.last());
        if c.1.len() == 0 {
            r
        } else {
            r.push(c)
        }
    }
}

fn clean_exec(l: &TextLine) -> (r: TextLine)
    ensures
        line_view(r) == clean(line_view(*l)),
{
    proof {
        reveal_strlit("/me ");
        reveal_strlit("/do ");
    }
    let c = trim_chars(&chars_of(l.content.as_str()));
    let c2 = if let Some(rest) = strip_lit(&c, "/me ") {
        rest
    } else if let Some(rest) = strip_lit(&c, "/do ") {
        rest
    } else {
        c
    };
    let ty = l.text_type.as_str();
    let known = str_eq(ty, "me") || str_eq(ty, "do") || str_eq(ty, "b") || str_eq(ty, "e");
    let tt = if known {
        l.text_type.clone()
    } else {
        String::from_str("me")
    };
    TextLine { text_type: tt, content: string_of(&c2) }
}

/// Clean the lines of a reply and keep those with content.
pub fn postprocess_texts(texts: Vec<TextLine>) -> (r: Vec<TextLine>)
    ensures
        lines_view(r@) == postprocess(lines_view(texts@)),
{
    let ghost lv = lines_view(texts@);
    let mut r: Vec<TextLine> = Vec::new();
    let mut i: usize = 0;
    assert(lv.subrange(0, 0) =~= Seq::<(Seq<char>, Seq<char>)>::empty());
    assert(lines_view(r@) =~= Seq::<(Seq<char>, Seq<char>)>::empty());
    while i < texts.len()
        invariant
            0 <= i <= texts.len(),
            lv == lines_view(texts@),
            lines_view(r@) == postprocess(lv.subrange(0, i as int)),
        decreases texts.len() - i,
    {
        let ghost r0 = lines_view(r@);
        proof {
            let s1 = lv.subrange(0, i + 1);
            assert(s1.drop_last() =~= lv.subrange(0, i as int));
            assert(s1.last() == line_view(texts@[i as int]));
        }
        let c = clean_exec(&texts[i]);
        if !c.content.as_str().is_empty() {
            r.push(c);
            assert(lines_view(r@) =~= r0.push(clean(lv[i as int])));
        }
        i = i + 1;
    }
    assert(lv.subrange(0, texts.len() as int) =~= lv);
    r
}

/// The lines of a reply. `json_lines` is what parsing [`json_payload`] as a
/// JSON array of lines gave (`None` when it is not one); without it the
/// reply is read line by line.
pub fn parse_generate_output(content: &str, json_lines: Option<Vec<TextLine>>) -> (r: Vec<TextLine>)
    ensures
        lines_view(r@) == match json_lines {
            Some(items) => postprocess(lines_view(items@)),
            None => postprocess(fallback_parse(lines(content@))),
        },
{
    match json_lines {
        Some(items) => postprocess_texts(items),
        None => postprocess_texts(fallback_lines(content)),
    }
}

/// Law (known types are kept): cleaning a line of type `me`, `do`, `b`
/// (out of character) or `e` keeps that type; only a line of any other
/// type becomes `me`.
pub proof fn law_clean_keeps_known_types(l: (Seq<char>, Seq<char>))
    ensures
        (l.0 == "me"@ || l.0 == "do"@ || l.0 == "b"@ || l.0 == "e"@) ==> clean(l).0 == l.0,
        !(l.0 == "me"@ || l.0 == "do"@ || l.0 == "b"@ || l.0 == "e"@) ==> clean(l).0 == "me"@,
{
}

/// Law (postprocessing keeps types): every line that postprocessing gives
/// is the cleaned form of an input line, so a line of a known type keeps
/// its type.
pub proof fn law_postprocess_from_inputs(s: Seq<(Seq<char>, Seq<char>)>)
    ensures
        forall|i: int| 0 <= i < postprocess(s).len() ==> exists|j: int| 0 <= j < s.len() && #[trigger] postprocess(s)[i] == clean(#[trigger] s[j]),
    decreases s.len(),
{
    if s.len() > 0 {
        law_postprocess_from_inputs(s.drop_last());
        let r = postprocess(s.drop_last());
        assert forall|i: int| 0 <= i < postprocess(s).len() implies exists|j: int| 0 <= j < s.len() && #[trigger] postprocess(s)[i] == clean(#[trigger] s[j]) by {
            if i < r.len() {
                let j = choose|j: int| 0 <= j < s.drop_last().len() && r[i] == clean(s.drop_last()[j]);
                assert(s.drop_last()[j] == s[j]);
                assert(postprocess(s)[i] == r[i]);
            } else {
                assert(postprocess(s)[i] == clean(s.last()));
                assert(s.last() == s[s.len() - 1]);
            }
        }
    }
}

/// Law (parsed lines are clean): every line that `parse_generate_output`
/// gives has content, and its type is one of `me`, `do`, `b`, `e`.
pub proof fn law_postprocess_clean(s: Seq<(Seq<char>, Seq<char>)>)
    ensures
        forall|i: int| 0 <= i < postprocess(s).len() ==> (#[trigger] postprocess(s)[i]).1.len() > 0
            && known_type(postprocess(s)[i].0),
    decreases s.len(),
{
    if s.len() > 0 {
        law_postprocess_clean(s.drop_last());
        let r = postprocess(s.drop_last());
        let c = clean(s.last());
        if c.1.len() > 0 {
            assert forall|i: int| 0 <= i < r.push(c).len() implies (#[trigger] r.push(c)[i]).1.len() > 0
                && known_type(r.push(c)[i].0) by {
                if i < r.len() {
                    assert(r.push(c)[i] == r[i]);
                }
            }
        }
    }
}


// ── Requests ───────────────────────────────────────────────────────────

/// Everything a chat completion request carries but its temperature.
#[derive(Debug)]
pub struct ChatRequest {
    /// The id of the provider that serves it.
    pub provider_id: String,
    pub url: String,
    pub model: String,
    /// The `Authorization` value, when the provider has an API key.
    pub authorization: Option<String>,
    /// Extra headers, in configuration order.
    pub headers: Vec<(String, String)>,
    /// The messages, as (role, content).
    pub messages: Vec<(String, String)>,
    pub max_tokens: u32,
}

pub open spec fn messages_view(m: Seq<(String, String)>) -> Seq<(Seq<char>, Seq<char>)> {
    m.map_values(|e: (String, String)| (e.0@, e.1@))
}

/// `r` is the request for provider `p` with these messages, headers and
/// token budget.
pub open spec fn request_is(
    r: ChatRequest,
    p: ProviderConfig,
    messages: Seq<(Seq<char>, Seq<char>)>,
    headers: Seq<(Seq<char>, Seq<char>)>,
    max_tokens: u32,
) -> bool {
    &&& r.provider_id@ == p.id@
    &&& r.url@ == trim_slashes(p.api_base@.map_values(|c: char| halfwidth(c))) + "/chat/completions"@
    &&& r.model@ == p.model@
    &&& (p.api_key@.len() == 0 ==> r.authorization is None)
    &&& (p.api_key@.len() > 0 ==> (r.authorization matches Some(a) && a@ == "Bearer "@
        + p.api_key@.map_values(|c: char| halfwidth(c))))
    &&& messages_view(r.headers@) == headers
    &&& messages_view(r.messages@) == messages
    &&& r.max_tokens == max_tokens
}

fn request_for(p: ProviderConfig, messages: Vec<(String, String)>, headers: Vec<(String, String)>, max_tokens: u32) -> (r: ChatRequest)
    ensures
        request_is(r, p, messages_view(messages@), messages_view(headers@), max_tokens),
{
    let url = chat_url(p.api_base.as_str());
    let authorization = if p.api_key.as_str().is_empty() {
        None
    } else {
        Some(bearer(p.api_key.as_str()))
    };
    ChatRequest { provider_id: p.id, url, model: p.model, authorization, headers, messages, max_tokens }
}

fn system_and_user(system: String, user: String) -> (r: Vec<(String, String)>)
    ensures
        messages_view(r@) == seq![("system"@, system@), ("user"@, user@)],
{
    let mut v: Vec<(String, String)> = Vec::new();
    v.push((String::from_str("system"), system));
    v.push((String::from_str("user"), user));
    assert(messages_view(v@) =~= seq![("system"@, v@[0].1@), ("user"@, v@[1].1@)]);
    v
}

/// The request of a generation (streamed or not): the chosen provider, the
/// system prompt (`custom_prompt`, or the built-in one when empty) and the
/// generation prompt, the configured extra headers, and a token budget by
/// the number of lines asked for.
pub fn prepare_generate(
    providers: Vec<ProviderConfig>,
    provider_id: Option<&str>,
    default_id: &str,
    custom_prompt: &str,
    cfg: &YamlNode,
    scenario: &str,
    count: Option<u32>,
    text_type: &str,
    style: Option<&str>,
) -> (r: Result<ChatRequest, AppError>)
    ensures
        providers@.len() == 0 ==> (r matches Err(AppError::BadRequest(m)) && m@ == "未配置任何AI服务商"@),
        providers@.len() > 0 ==> match chosen_provider(providers@, opt_view(provider_id), default_id@) {
            Some(i) => r matches Ok(q) && request_is(
                q,
                providers@[i],
                seq![
                    ("system"@, if custom_prompt@.len() == 0 { default_prompt() } else { custom_prompt@ }),
                    ("user"@, generate_prompt(scenario@, count, text_type@, opt_view(style))),
                ],
                custom_headers(header_entries(cfg@)),
                max_tokens_for(count),
            ),
            None => r matches Err(AppError::NotFound(m)) && m@ == "AI服务商 '"@ + provider_id.unwrap()@ + "' 不存在"@,
        },
{
    let p = match resolve_provider(providers, provider_id, default_id) {
        Ok(p) => p,
        Err(e) => {
            return Err(e);
        },
    };
    let messages = system_and_user(get_system_prompt(custom_prompt), build_generate_user_prompt(scenario, count, text_type, style));
    let headers = get_custom_headers(cfg);
    Ok(request_for(p, messages, headers, estimate_max_tokens(count)))
}

/// The request of a rewrite: as [`prepare_generate`], with the rewrite
/// prompt over the lines given as JSON, no extra headers, and a budget of
/// 2000 tokens.
pub fn prepare_rewrite(
    providers: Vec<ProviderConfig>,
    provider_id: Option<&str>,
    default_id: &str,
    custom_prompt: &str,
    texts_json: &str,
    instruction: Option<&str>,
    style: Option<&str>,
    requirements: Option<&str>,
    text_type: Option<&str>,
) -> (r: Result<ChatRequest, AppError>)
    ensures
        providers@.len() == 0 ==> (r matches Err(AppError::BadRequest(m)) && m@ == "未配置任何AI服务商"@),
        providers@.len() > 0 ==> match chosen_provider(providers@, opt_view(provider_id), default_id@) {
            Some(i) => r matches Ok(q) && request_is(
                q,
                providers@[i],
                seq![
                    ("system"@, if custom_prompt@.len() == 0 { default_prompt() } else { custom_prompt@ }),
                    ("user"@, rewrite_prompt(texts_json@, opt_view(instruction), opt_view(style), opt_view(requirements), opt_view(text_type))),
                ],
                Seq::empty(),
                2000,
            ),
            None => r matches Err(AppError::NotFound(m)) && m@ == "AI服务商 '"@ + provider_id.unwrap()@ + "' 不存在"@,
        },
{
    let p = match resolve_provider(providers, provider_id, default_id) {
        Ok(p) => p,
        Err(e) => {
            return Err(e);
        },
    };
    let messages = system_and_user(get_system_prompt(custom_prompt), build_rewrite_prompt(texts_json, instruction, style, requirements, text_type));
    let headers: Vec<(String, String)> = Vec::new();
    assert(messages_view(headers@) =~= Seq::<(Seq<char>, Seq<char>)>::empty());
    Ok(request_for(p, messages, headers, 2000))
}

/// The request of a connectivity test of provider `provider_id`: one user
/// message asking for "OK", 10 tokens.
pub fn prepare_test(providers: Vec<ProviderConfig>, provider_id: &str, default_id: &str) -> (r: Result<ChatRequest, AppError>)
    ensures
        providers@.len() == 0 ==> (r matches Err(AppError::BadRequest(m)) && m@ == "未配置任何AI服务商"@),
        providers@.len() > 0 ==> match chosen_provider(providers@, Some(provider_id@), default_id@) {
            Some(i) => r matches Ok(q) && request_is(q, providers@[i], seq![("user"@, "reply with OK"@)], Seq::empty(), 10),
            None => r matches Err(AppError::NotFound(m)) && m@ == "AI服务商 '"@ + provider_id@ + "' 不存在"@,
        },
{
    let p = match resolve_provider(providers, Some(provider_id), default_id) {
        Ok(p) => p,
        Err(e) => {
            return Err(e);
        },
    };
    let mut messages: Vec<(String, String)> = Vec::new();
    messages.push((String::from_str("user"), String::from_str("reply with OK")));
    assert(messages_view(messages@) =~= seq![("user"@, "reply with OK"@)]);
    let headers: Vec<(String, String)> = Vec::new();
    assert(messages_view(headers@) =~= Seq::<(Seq<char>, Seq<char>)>::empty());
    Ok(request_for(p, messages, headers, 10))
}

/// The error for a reply with a failure status (`status` as the HTTP
/// library shows it) and body `body`.
pub fn api_error(status: &str, body: &str) -> (r: AppError)
    ensures
        r matches AppError::Internal(m) && m@ == "AI API 错误 ("@ + status@ + "): "@ + body@,
{
    AppError::Internal(String::from_str("AI API 错误 (").concat(status).concat("): ").concat(body))
}

/// The outcome of a generation or rewrite whose reply content is
/// `content` (see [`parse_generate_output`] for `json_lines`): its lines
/// and the provider's id, or an error when no line came out.
pub fn finish_generation(content: &str, json_lines: Option<Vec<TextLine>>, provider_id: String) -> (r: Result<(Vec<TextLine>, String), AppError>)
    ensures
        ({
            let expected = match json_lines {
                Some(items) => postprocess(lines_view(items@)),
                None => postprocess(fallback_parse(lines(content@))),
            };
            if expected.len() == 0 {
                r matches Err(AppError::Internal(m)) && m@ == "AI未生成有效文本"@
            } else {
                r matches Ok((ls, id)) && lines_view(ls@) == expected && id@ == provider_id@
            }
        }),
{
    let texts = parse_generate_output(content, json_lines);
    assert(lines_view(texts@).len() == texts@.len());
    if texts.len() == 0 {
        Err(AppError::Internal(String::from_str("AI未生成有效文本")))
    } else {
        Ok((texts, provider_id))
    }
}

// ── Replies ────────────────────────────────────────────────────────────

/// What a whole (not streamed) reply body gives: `Ok` of the string at
/// `choices[0].message.content` (empty where no string stands there) when
/// the body is JSON, else `Err` of the parse error's text.
pub open spec fn reply_content_of(body: Seq<char>) -> Result<Seq<char>, Seq<char>> {
    match json_tree_of(body) {
        Ok(t) => Ok(
            match choice_text(t, "message"@) {
                Some(s) => s,
                None => Seq::empty(),
            },
        ),
        Err(e) => Err(e),
    }
}

/// The content of a whole reply body, or the error for a body that is not
/// JSON.
pub fn reply_content(body: &str) -> (r: Result<String, AppError>)
    ensures
        match reply_content_of(body@) {
            Ok(c) => r matches Ok(s) && s@ == c,
            Err(e) => r matches Err(AppError::Internal(m)) && m@ == "AI响应解析失败: "@ + e,
        },
{
    match parse_json_tree(body) {
        Ok(t) => match choice_text_exec(&t, "message") {
            Some(c) => Ok(c),
            None => Ok(String::new()),
        },
        Err(e) => Err(AppError::Internal(String::from_str("AI响应解析失败: ").concat(e.as_str()))),
    }
}

/// How a provider's connectivity test went.
#[derive(Debug)]
pub enum ProbeOutcome {
    /// The provider answered with a success status.
    Answered,
    /// The provider answered with a failure status and this body.
    Refused { status: u16, body: String },
    /// No answer came; the error's text.
    Unreachable(String),
}

/// What a connectivity test reports.
#[derive(Debug)]
pub struct ProbeReply {
    pub success: bool,
    pub latency_ms: u128,
    /// The model, on success.
    pub model: Option<String>,
    /// What went wrong, on failure.
    pub error: Option<String>,
}

/// The report of a connectivity test of `model` that took `latency_ms`.
pub fn probe_reply(outcome: ProbeOutcome, latency_ms: u128, model: &str) -> (r: ProbeReply)
    ensures
        r.latency_ms == latency_ms,
        match outcome {
            ProbeOutcome::Answered => r.success && (r.model matches Some(m) && m@ == model@) && r.error is None,
            ProbeOutcome::Refused { status, body } => !r.success && r.model is None
                && (r.error matches Some(e) && e@ == "HTTP "@ + decimal(status as nat) + ": "@ + body@),
            ProbeOutcome::Unreachable(t) => !r.success && r.model is None && (r.error matches Some(e) && e@ == t@),
        },
{
    match outcome {
        ProbeOutcome::Answered => ProbeReply { success: true, latency_ms, model: Some(String::from_str(model)), error: None },
        ProbeOutcome::Refused { status, body } => {
            let d = decimal_of(status as u64);
            let e = String::from_str("HTTP ").concat(d.as_str()).concat(": ").concat(body.as_str());
            ProbeReply { success: false, latency_ms, model: None, error: Some(e) }
        },
        ProbeOutcome::Unreachable(t) => ProbeReply { success: false, latency_ms, model: None, error: Some(t) },
    }
}

} // verus!
