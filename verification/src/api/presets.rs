//! Requests of the preset routes, and the rules for creating, updating,
//! importing and reordering presets through the API.
use vstd::prelude::*;

use crate::presets::{Preset, PresetPatch, TextLine};
use crate::stamp::{new_uuid, now_iso};
use crate::text::{trim, trim_str};
use crate::error::AppError;
use crate::ai_client::lines_view;
use crate::yaml::{Yaml, YamlNode, get, get_node, list_view, lemma_list_view};

verus! {

/// Create a preset.
#[derive(Debug)]
pub struct PresetCreateRequest {
    pub name: String,
    pub texts: Vec<TextLine>,
    pub tags: Vec<String>,
    pub sort_order: i64,
}

/// Change some fields of a preset (`None`: left as is).
#[derive(Debug)]
pub struct PresetUpdateRequest {
    pub name: Option<String>,
    pub texts: Option<Vec<TextLine>>,
    pub tags: Option<Vec<String>>,
    pub sort_order: Option<i64>,
}

/// List presets, optionally only those with a tag.
#[derive(Debug)]
pub struct ListQuery {
    pub tag: Option<String>,
}

/// The preset a create request makes, with id `id`, stamped `now`.
pub fn preset_from_request(req: PresetCreateRequest, id: String, now: String) -> (r: Preset)
    ensures
        r.id == id,
        r.name == req.name,
        r.texts == req.texts,
        r.tags == req.tags,
        r.sort_order == req.sort_order,
        r.created_at == now,
        r.updated_at == now,
{
    Preset {
        id,
        name: req.name,
        texts: req.texts,
        tags: req.tags,
        sort_order: req.sort_order,
        created_at: now.clone(),
        updated_at: now,
    }
}

/// The preset a create request makes, with a fresh random id and the
/// current time.
pub fn new_from_request(req: PresetCreateRequest) -> (r: Preset)
    ensures
        r.name == req.name,
        r.texts == req.texts,
        r.tags == req.tags,
        r.sort_order == req.sort_order,
        r.created_at == r.updated_at,
        r.id@.len() == 36,
{
    let id = new_uuid();
    let now = now_iso();
    preset_from_request(req, id, now)
}

impl PresetUpdateRequest {
    /// The same change, as a patch.
    pub fn into_patch(self) -> (r: PresetPatch)
        ensures
            r.name == self.name,
            r.texts == self.texts,
            r.tags == self.tags,
            r.sort_order == self.sort_order,
    {
        PresetPatch { name: self.name, texts: self.texts, tags: self.tags, sort_order: self.sort_order }
    }
}

/// One item of an import, as its JSON gave it: the `name`, `id` and
/// `created_at` strings and the `sort_order` integer where they are of that
/// kind, the lines where `texts` is a valid list of lines (else none), and
/// the string members of `tags`.
#[derive(Debug)]
pub struct ImportItem {
    pub name: Option<String>,
    pub id: Option<String>,
    pub texts: Vec<TextLine>,
    pub tags: Vec<String>,
    pub sort_order: Option<i64>,
    pub created_at: Option<String>,
}

pub open spec fn item_name(item: ImportItem) -> Seq<char> {
    match item.name {
        Some(n) => trim(n@),
        None => Seq::empty(),
    }
}

/// The id an imported preset keeps: its own when it has a non-empty one.
pub open spec fn keeps_id(item: ImportItem) -> bool {
    item.id matches Some(i) && i@.len() > 0
}

/// The preset an import item gives, or `None` (skipped) when its trimmed
/// name is empty. Without an id of its own it takes `fresh_id`; it keeps
/// its creation time, or takes `now`; it is updated `now`.
pub fn import_item_with(item: ImportItem, fresh_id: String, now: String) -> (r: Option<Preset>)
    ensures
        item_name(item).len() == 0 ==> r is None,
        item_name(item).len() > 0 ==> (r matches Some(p) && p.name@ == item_name(item)
            && p.id@ == (if keeps_id(item) { item.id->0@ } else { fresh_id@ })
            && p.texts == item.texts && p.tags == item.tags
            && p.sort_order == (match item.sort_order { Some(o) => o, None => 0 })
            && p.created_at@ == (match item.created_at { Some(c) => c@, None => now@ })
            && p.updated_at == now),
{
    let name = match &item.name {
        Some(n) => trim_str(n.as_str()),
        None => String::new(),
    };
    if name.as_str().is_empty() {
        return None;
    }
    let id = match item.id {
        Some(i) => if i.as_str().is_empty() {
            fresh_id
        } else {
            i
        },
        None => fresh_id,
    };
    let created_at = match item.created_at {
        Some(c) => c,
        None => now.clone(),
    };
    let sort_order: i64 = match item.sort_order {
        Some(o) => o,
        None => 0,
    };
    Some(Preset { id, name, texts: item.texts, tags: item.tags, sort_order, created_at, updated_at: now })
}

/// The preset an import item gives (see [`import_item_with`]), drawing a
/// fresh random id only when the item has none, and stamped with the
/// current time.
pub fn import_item(item: ImportItem) -> (r: Option<Preset>)
    ensures
        item_name(item).len() == 0 ==> r is None,
        item_name(item).len() > 0 ==> (r matches Some(p) && p.name@ == item_name(item)
            && (keeps_id(item) ==> p.id@ == item.id->0@)
            && (!keeps_id(item) ==> p.id@.len() == 36)
            && p.texts == item.texts && p.tags == item.tags
            && p.sort_order == (match item.sort_order { Some(o) => o, None => 0 })
            && (item.created_at matches Some(c) ==> p.created_at@ == c@)
            && (item.created_at is None ==> p.created_at@ == p.updated_at@)),
{
    let named = match &item.name {
        Some(n) => !trim_str(n.as_str()).as_str().is_empty(),
        None => false,
    };
    if !named {
        return None;
    }
    let keep = match &item.id {
        Some(i) => !i.as_str().is_empty(),
        None => false,
    };
    let fresh = if keep {
        String::new()
    } else {
        new_uuid()
    };
    let now = now_iso();
    import_item_with(item, fresh, now)
}

/// A preset moved to place `index` of a reordering, stamped `now`.
pub fn place_at(preset: &mut Preset, index: usize, now: String)
    requires
        index <= i64::MAX,
    ensures
        final(preset).sort_order == index as i64,
        final(preset).updated_at == now,
        final(preset).id == old(preset).id,
        final(preset).name == old(preset).name,
        final(preset).texts == old(preset).texts,
        final(preset).tags == old(preset).tags,
        final(preset).created_at == old(preset).created_at,
{
    preset.sort_order = index as i64;
    preset.updated_at = now;
}


/// How many items of an import were stored, and how many were passed over.
#[derive(Debug)]
pub struct ImportTally {
    pub imported: u64,
    pub skipped: u64,
}

impl ImportTally {
    pub fn new() -> (r: ImportTally)
        ensures
            r.imported == 0 && r.skipped == 0,
    {
        ImportTally { imported: 0, skipped: 0 }
    }

    /// Counts one item: stored when it made a preset (`prepared`) and that
    /// preset was written; passed over otherwise.
    pub fn count(&mut self, prepared: bool, written: bool)
        requires
            old(self).imported < u64::MAX,
            old(self).skipped < u64::MAX,
        ensures
            prepared && written ==> final(self).imported == old(self).imported + 1 && final(self).skipped == old(self).skipped,
            !(prepared && written) ==> final(self).skipped == old(self).skipped + 1 && final(self).imported == old(self).imported,
    {
        if prepared && written {
            self.imported = self.imported + 1;
        } else {
            self.skipped = self.skipped + 1;
        }
    }
}


// ── Reading an import body ─────────────────────────────────────────────

/// The items of an import body: the elements of a list, or an object on
/// its own.
pub open spec fn spec_import_items(body: Yaml) -> Option<Seq<Yaml>> {
    match body {
        Yaml::List(l) => Some(l),
        Yaml::Mapping(_) => Some(seq![body]),
        _ => None,
    }
}

/// The items of an import body, or `BadRequest` for anything but a list or
/// an object.
pub fn import_items(body: YamlNode) -> (r: Result<Vec<YamlNode>, AppError>)
    ensures
        match spec_import_items(body@) {
            Some(items) => r matches Ok(v) && list_view(v@) == items,
            None => r matches Err(AppError::BadRequest(m)) && m@ == "无效的导入数据格式"@,
        },
{
    match body {
        YamlNode::List(l) => {
            proof {
                lemma_list_view(l@);
                assert(list_view(l@) =~= list_view(l@));
            }
            Ok(l)
        },
        YamlNode::Mapping(m) => {
            let b = YamlNode::Mapping(m);
            let v = vec![b];
            proof {
                lemma_list_view(v@);
                assert(list_view(v@) =~= seq![v@[0]@]);
            }
            Ok(v)
        },
        _ => Err(AppError::BadRequest(String::from_str("无效的导入数据格式"))),
    }
}

/// A string member's value.
pub open spec fn str_member(item: Yaml, key: Seq<char>) -> Option<Seq<char>> {
    match get(item, key) {
        Some(Yaml::Str(t)) => Some(t),
        _ => None,
    }
}

/// One line of a preset as the JSON form of a line reads it: an object
/// with a string `content` and, where given, a string `type` (`me` when it
/// is missing), or a two-element list of type and content.
pub open spec fn text_line_of(v: Yaml) -> Option<(Seq<char>, Seq<char>)> {
    match v {
        Yaml::Mapping(_) => match str_member(v, "content"@) {
            Some(c) => match get(v, "type"@) {
                None => Some(("me"@, c)),
                Some(Yaml::Str(t)) => Some((t, c)),
                _ => None,
            },
            None => None,
        },
        Yaml::List(l) => if l.len() == 2 {
            match (l[0], l[1]) {
                (Yaml::Str(t), Yaml::Str(c)) => Some((t, c)),
                _ => None,
            }
        } else {
            None
        },
        _ => None,
    }
}

/// The lines of an item's `texts`: all of them when it is a list of
/// lines, none when it is anything else or any element is not a line.
pub open spec fn texts_of(v: Option<Yaml>) -> Seq<(Seq<char>, Seq<char>)> {
    match v {
        Some(Yaml::List(l)) => if forall|i: int| 0 <= i < l.len() ==> (#[trigger] text_line_of(l[i])) is Some {
            l.map_values(|x: Yaml| text_line_of(x)->0)
        } else {
            Seq::empty()
        },
        _ => Seq::empty(),
    }
}

/// The string elements of a list, in order.
pub open spec fn str_items(l: Seq<Yaml>) -> Seq<Seq<char>>
    decreases l.len(),
{
    if l.len() == 0 {
        Seq::empty()
    } else {
        let r = str_items(l.drop_last());
        match l.last() {
            Yaml::Str(t) => r.push(t),
            _ => r,
        }
    }
}

pub open spec fn tags_of(v: Option<Yaml>) -> Seq<Seq<char>> {
    match v {
        Some(Yaml::List(l)) => str_items(l),
        _ => Seq::empty(),
    }
}

/// A number as a signed 64-bit integer, where it is one.
pub open spec fn i64_of(v: Option<Yaml>) -> Option<i64> {
    match v {
        Some(Yaml::PosInt(n)) => if n <= i64::MAX { Some(n as i64) } else { None },
        Some(Yaml::NegInt(i)) => Some(i),
        _ => None,
    }
}

/// Law (sort orders read back): every 64-bit sort order, written as the
/// JSON number it is (non-negative or negative), reads back as itself; a
/// whole number beyond the 64-bit range, a string or a missing member reads
/// as no order.
pub proof fn law_sort_order_read_back(x: i64, n: u64, t: Seq<char>)
    ensures
        i64_of(Some(crate::gui::int_yaml(x))) == Some(x),
        n > i64::MAX ==> i64_of(Some(Yaml::PosInt(n))) is None,
        i64_of(Some(Yaml::Str(t))) is None,
        i64_of(None) is None,
{
}

pub open spec fn opt_str(o: Option<String>) -> Option<Seq<char>> {
    match o {
        Some(s) => Some(s@),
        None => None,
    }
}

fn str_member_exec(item: &YamlNode, key: &str) -> (r: Option<String>)
    ensures
        opt_str(r) == str_member(item@, key@),
{
    match get_node(item, key) {
        Some(YamlNode::Str(t)) => Some(t.clone()),
        _ => None,
    }
}

fn text_line_exec(v: &YamlNode) -> (r: Option<TextLine>)
    ensures
        match r {
            Some(t) => text_line_of(v@) == Some((t.text_type@, t.content@)),
            None => text_line_of(v@) is None,
        },
{
    proof {
        reveal_strlit("me");
    }
    match v {
        YamlNode::Mapping(_) => match str_member_exec(v, "content") {
            Some(c) => match get_node(v, "type") {
                None => Some(TextLine { text_type: String::from_str("me"), content: c }),
                Some(YamlNode::Str(t)) => Some(TextLine { text_type: t.clone(), content: c }),
                _ => None,
            },
            None => None,
        },
        YamlNode::List(l) => {
            proof {
                lemma_list_view(l@);
            }
            if l.len() == 2 {
                match (&l[0], &l[1]) {
                    (YamlNode::Str(t), YamlNode::Str(c)) => Some(TextLine { text_type: t.clone(), content: c.clone() }),
                    _ => None,
                }
            } else {
                None
            }
        },
        _ => None,
    }
}

fn texts_exec(v: Option<&YamlNode>) -> (r: Vec<TextLine>)
    ensures
        lines_view(r@) == texts_of(match v {
            Some(n) => Some(n@),
            None => None,
        }),
{
    match v {
        Some(YamlNode::List(l)) => {
            proof {
                lemma_list_view(l@);
            }
            let ghost lv = list_view(l@);
            assert(v->0@ == Yaml::List(lv));
            let mut out: Vec<TextLine> = Vec::new();
            let mut i: usize = 0;
            while i < l.len()
                invariant
                    0 <= i <= l.len(),
                    lv.len() == l@.len(),
                    forall|k: int| 0 <= k < l@.len() ==> #[trigger] lv[k] == l@[k]@,
                    forall|k: int| 0 <= k < i ==> (#[trigger] text_line_of(lv[k])) is Some,
                    texts_of(match v {
                        Some(n) => Some(n@),
                        None => None,
                    }) == texts_of(Some(Yaml::List(lv))),
                    lines_view(out@) =~= lv.subrange(0, i as int).map_values(|x: Yaml| text_line_of(x)->0),
                decreases l.len() - i,
            {
                match text_line_exec(&l[i]) {
                    Some(t) => {
                        let ghost before = out@;
                        proof {
                            assert(lv[i as int] == l@[i as int]@);
                        }
                        out.push(t);
                        proof {
                            assert(lines_view(out@) =~= lines_view(before).push((t.text_type@, t.content@)));
                            assert(lv.subrange(0, i + 1) =~= lv.subrange(0, i as int).push(lv[i as int]));
                        }
                    },
                    None => {
                        proof {
                            assert(lv[i as int] == l@[i as int]@);
                            assert(text_line_of(lv[i as int]) is None);
                            assert(!(forall|k: int| 0 <= k < lv.len() ==> (#[trigger] text_line_of(lv[k])) is Some));
                            assert(texts_of(Some(Yaml::List(lv))) == Seq::<(Seq<char>, Seq<char>)>::empty());
                        }
                        let empty: Vec<TextLine> = Vec::new();
                        proof {
                            assert(lines_view(empty@) =~= Seq::<(Seq<char>, Seq<char>)>::empty());
                        }
                        return empty;
                    },
                }
                i = i + 1;
            }
            proof {
                assert(lv.subrange(0, lv.len() as int) =~= lv);
            }
            out
        },
        _ => {
            let empty: Vec<TextLine> = Vec::new();
            proof {
                assert(lines_view(empty@) =~= Seq::<(Seq<char>, Seq<char>)>::empty());
            }
            empty
        },
    }
}

fn tags_exec(v: Option<&YamlNode>) -> (r: Vec<String>)
    ensures
        r@.map_values(|s: String| s@) == tags_of(match v {
            Some(n) => Some(n@),
            None => None,
        }),
{
    let mut out: Vec<String> = Vec::new();
    match v {
        Some(YamlNode::List(l)) => {
            proof {
                lemma_list_view(l@);
            }
            let ghost lv = list_view(l@);
            let mut i: usize = 0;
            assert(lv.subrange(0, 0) =~= Seq::<Yaml>::empty());
            while i < l.len()
                invariant
                    0 <= i <= l.len(),
                    lv.len() == l@.len(),
                    forall|k: int| 0 <= k < l@.len() ==> #[trigger] lv[k] == l@[k]@,
                    out@.map_values(|s: String| s@) =~= str_items(lv.subrange(0, i as int)),
                decreases l.len() - i,
            {
                let ghost before = out@;
                proof {
                    assert(lv.subrange(0, i + 1).drop_last() =~= lv.subrange(0, i as int));
                }
                match &l[i] {
                    YamlNode::Str(t) => {
                        out.push(t.clone());
                        proof {
                            assert(out@.map_values(|s: String| s@) =~= before.map_values(|s: String| s@).push(t@));
                        }
                    },
                    _ => {},
                }
                i = i + 1;
            }
            proof {
                assert(lv.subrange(0, lv.len() as int) =~= lv);
            }
            out
        },
        _ => {
            assert(out@.map_values(|s: String| s@) =~= Seq::<Seq<char>>::empty());
            out
        },
    }
}

/// What an import item holds, read as the JSON form of a preset: string
/// `name`, `id` and `created_at`, the lines of `texts`, the string
/// elements of `tags`, and `sort_order` where it is a 64-bit integer.
pub fn import_item_of(item: &YamlNode) -> (r: ImportItem)
    ensures
        opt_str(r.name) == str_member(item@, "name"@),
        opt_str(r.id) == str_member(item@, "id"@),
        lines_view(r.texts@) == texts_of(get(item@, "texts"@)),
        r.tags@.map_values(|s: String| s@) == tags_of(get(item@, "tags"@)),
        r.sort_order == i64_of(get(item@, "sort_order"@)),
        opt_str(r.created_at) == str_member(item@, "created_at"@),
{
    let texts_node = get_node(item, "texts");
    let tags_node = get_node(item, "tags");
    let sort_order = match get_node(item, "sort_order") {
        Some(YamlNode::PosInt(n)) => if *n <= 0x7fff_ffff_ffff_ffffu64 {
            Some(*n as i64)
        } else {
            None
        },
        Some(YamlNode::NegInt(i)) => Some(*i),
        _ => None,
    };
    ImportItem {
        name: str_member_exec(item, "name"),
        id: str_member_exec(item, "id"),
        texts: texts_exec(texts_node),
        tags: tags_exec(tags_node),
        sort_order,
        created_at: str_member_exec(item, "created_at"),
    }
}

} // verus!
