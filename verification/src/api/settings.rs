//! Requests of the settings routes, the provider summaries the settings
//! page shows, and the provider a create request describes.
use vstd::prelude::*;

use crate::config::ProviderConfig;
use crate::error::AppError;
use crate::stamp::new_uuid;
use crate::text::decimal;
use crate::yaml::{YamlNode, Yaml, ym, map_view};

verus! {

/// Check for an update.
#[derive(Debug)]
pub struct UpdateQuery {
    /// Whether pre-releases count (`false` when not given).
    pub include_prerelease: bool,
}

/// Read the notifications, and with `clear` take them away.
#[derive(Debug)]
pub struct ClearQuery {
    pub clear: bool,
}

/// A desktop window action.
#[derive(Debug)]
pub struct WindowActionRequest {
    pub action: String,
}

/// A provider as the settings show it: its key only as whether one is set.
#[derive(Debug)]
pub struct ProviderSummary {
    pub id: String,
    pub name: String,
    pub api_base: String,
    pub api_key_set: bool,
    pub model: String,
}

/// The summary of a provider.
pub fn summarize(p: &ProviderConfig) -> (r: ProviderSummary)
    ensures
        r.id@ == p.id@,
        r.name@ == p.name@,
        r.api_base@ == p.api_base@,
        r.api_key_set == (p.api_key@.len() > 0),
        r.model@ == p.model@,
{
    ProviderSummary {
        id: p.id.clone(),
        name: p.name.clone(),
        api_base: p.api_base.clone(),
        api_key_set: !p.api_key.as_str().is_empty(),
        model: p.model.clone(),
    }
}

/// The summaries of the providers, in order.
pub fn summarize_all(ps: &Vec<ProviderConfig>) -> (r: Vec<ProviderSummary>)
    ensures
        r@.len() == ps@.len(),
        forall|i: int| 0 <= i < ps@.len() ==> {
            &&& (#[trigger] r@[i]).id@ == ps@[i].id@
            &&& r@[i].name@ == ps@[i].name@
            &&& r@[i].api_base@ == ps@[i].api_base@
            &&& r@[i].api_key_set == (ps@[i].api_key@.len() > 0)
            &&& r@[i].model@ == ps@[i].model@
        },
{
    let mut r: Vec<ProviderSummary> = Vec::new();
    let mut i: usize = 0;
    while i < ps.len()
        invariant
            0 <= i <= ps.len(),
            r@.len() == i,
            forall|j: int| 0 <= j < i ==> {
                &&& (#[trigger] r@[j]).id@ == ps@[j].id@
                &&& r@[j].name@ == ps@[j].name@
                &&& r@[j].api_base@ == ps@[j].api_base@
                &&& r@[j].api_key_set == (ps@[j].api_key@.len() > 0)
                &&& r@[j].model@ == ps@[j].model@
            },
        decreases ps.len() - i,
    {
        r.push(summarize(&ps[i]));
        i = i + 1;
    }
    r
}

/// The LAN addresses of the server: `http://<ip>:<port>` for each address.
pub fn lan_urls(ips: &Vec<String>, port: u16) -> (r: Vec<String>)
    ensures
        r@.len() == ips@.len(),
        forall|i: int| 0 <= i < ips@.len() ==> (#[trigger] r@[i])@ == "http://"@ + ips@[i]@ + ":"@
            + decimal(port as nat),
{
    let p = crate::text::decimal_of(port as u64);
    let mut r: Vec<String> = Vec::new();
    let mut i: usize = 0;
    while i < ips.len()
        invariant
            0 <= i <= ips.len(),
            r@.len() == i,
            p@ == decimal(port as nat),
            forall|j: int| 0 <= j < i ==> (#[trigger] r@[j])@ == "http://"@ + ips@[j]@ + ":"@ + decimal(
                port as nat,
            ),
        decreases ips.len() - i,
    {
        r.push(String::from_str("http://").concat(ips[i].as_str()).concat(":").concat(p.as_str()));
        i = i + 1;
    }
    r
}

/// The patch that sets section `section` of the configuration to `body`.
pub fn section_patch(section: &str, body: YamlNode) -> (r: YamlNode)
    ensures
        r@ == Yaml::Mapping(seq![(Yaml::Str(section@), body@)]),
{
    let mut m: Vec<(YamlNode, YamlNode)> = Vec::new();
    m.push((YamlNode::Str(String::from_str(section)), body));
    let r = YamlNode::Mapping(m);
    proof {
        assert(map_view(m@).len() == 1) by {
            reveal_with_fuel(map_view, 2);
        }
        assert(map_view(m@) =~= seq![(Yaml::Str(section@), ym(m@[0].1))]) by {
            reveal_with_fuel(map_view, 2);
        }
    }
    r
}

/// A provider as a create request describes it (the string members of
/// its JSON; missing or non-string ones are `None`).
#[derive(Debug)]
pub struct ProviderInput {
    pub id: Option<String>,
    pub name: Option<String>,
    pub api_base: Option<String>,
    pub api_key: Option<String>,
    pub model: Option<String>,
}

pub open spec fn or_default(o: Option<String>, d: Seq<char>) -> Seq<char> {
    match o {
        Some(s) => s@,
        None => d,
    }
}

/// The provider a create request describes: refused without a name; its
/// own id when it has a non-empty one, else `fresh_id`; base and key empty
/// and model `gpt-4o` when not given.
pub fn provider_from_input_with(input: ProviderInput, fresh_id: String) -> (r: Result<ProviderConfig, AppError>)
    ensures
        or_default(input.name, Seq::empty()).len() == 0 ==> (r matches Err(AppError::BadRequest(m)) && m@ == "名称不能为空"@),
        or_default(input.name, Seq::empty()).len() > 0 ==> (r matches Ok(p)
            && p.id@ == (if input.id matches Some(i) && i@.len() > 0 { input.id->0@ } else { fresh_id@ })
            && p.name@ == or_default(input.name, Seq::empty())
            && p.api_base@ == or_default(input.api_base, Seq::empty())
            && p.api_key@ == or_default(input.api_key, Seq::empty())
            && p.model@ == or_default(input.model, "gpt-4o"@)),
{
    let name = match input.name {
        Some(n) => n,
        None => String::new(),
    };
    if name.as_str().is_empty() {
        return Err(AppError::BadRequest(String::from_str("名称不能为空")));
    }
    let id = match input.id {
        Some(i) => if i.as_str().is_empty() {
            fresh_id
        } else {
            i
        },
        None => fresh_id,
    };
    let api_base = match input.api_base {
        Some(s) => s,
        None => String::new(),
    };
    let api_key = match input.api_key {
        Some(s) => s,
        None => String::new(),
    };
    let model = match input.model {
        Some(s) => s,
        None => String::from_str("gpt-4o"),
    };
    Ok(ProviderConfig { id, name, api_base, api_key, model })
}

/// The provider a create request describes (see
/// [`provider_from_input_with`]), with a fresh random id when it names
/// none.
pub fn provider_from_input(input: ProviderInput) -> (r: Result<ProviderConfig, AppError>)
    ensures
        or_default(input.name, Seq::empty()).len() == 0 ==> (r matches Err(AppError::BadRequest(m)) && m@ == "名称不能为空"@),
        or_default(input.name, Seq::empty()).len() > 0 ==> (r matches Ok(p)
            && (input.id matches Some(i) && i@.len() > 0 ==> p.id@ == input.id->0@)
            && p.name@ == or_default(input.name, Seq::empty())
            && p.api_base@ == or_default(input.api_base, Seq::empty())
            && p.api_key@ == or_default(input.api_key, Seq::empty())
            && p.model@ == or_default(input.model, "gpt-4o"@)),
{
    let keep = match &input.id {
        Some(i) => !i.as_str().is_empty(),
        None => false,
    };
    let fresh = if keep {
        String::new()
    } else {
        new_uuid()
    };
    provider_from_input_with(input, fresh)
}

} // verus!
