//! The built-in configuration: every setting with its default value, in
//! the order the configuration file lists them.
use vstd::prelude::*;

use crate::yaml::{YamlNode, Yaml, ym, map_view, list_view, lemma_map_view};

verus! {

fn key(k: &str) -> (r: YamlNode)
    ensures
        r@ == Yaml::Str(k@),
{
    YamlNode::Str(String::from_str(k))
}

pub open spec fn default_server() -> Yaml {
    Yaml::Mapping(seq![
        (Yaml::Str("host"@), Yaml::Str("127.0.0.1"@)),
        (Yaml::Str("port"@), Yaml::PosInt(8730)),
        (Yaml::Str("lan_access"@), Yaml::Bool(false)),
        (Yaml::Str("token"@), Yaml::Str(""@)),
    ])
}

pub open spec fn default_launch() -> Yaml {
    Yaml::Mapping(seq![
        (Yaml::Str("open_webui_on_start"@), Yaml::Bool(false)),
        (Yaml::Str("open_intro_on_first_start"@), Yaml::Bool(false)),
        (Yaml::Str("onboarding_done"@), Yaml::Bool(false)),
        (Yaml::Str("show_console_on_start"@), Yaml::Bool(false)),
        (Yaml::Str("enable_tray_on_start"@), Yaml::Bool(true)),
        (Yaml::Str("close_action"@), Yaml::Str("ask"@)),
        (Yaml::Str("intro_seen"@), Yaml::Bool(false)),
    ])
}

pub open spec fn default_sender() -> Yaml {
    Yaml::Mapping(seq![
        (Yaml::Str("method"@), Yaml::Str("clipboard"@)),
        (Yaml::Str("chat_open_key"@), Yaml::Str("t"@)),
        (Yaml::Str("delay_open_chat"@), Yaml::PosInt(450)),
        (Yaml::Str("delay_after_paste"@), Yaml::PosInt(160)),
        (Yaml::Str("delay_after_send"@), Yaml::PosInt(260)),
        (Yaml::Str("delay_between_lines"@), Yaml::PosInt(1800)),
        (Yaml::Str("focus_timeout"@), Yaml::PosInt(8000)),
        (Yaml::Str("retry_count"@), Yaml::PosInt(3)),
        (Yaml::Str("retry_interval"@), Yaml::PosInt(450)),
        (Yaml::Str("typing_char_delay"@), Yaml::PosInt(18)),
    ])
}

pub open spec fn default_theme() -> Yaml {
    Yaml::Mapping(seq![
        (Yaml::Str("bg_opacity"@), Yaml::Float("0.92"@)),
        (Yaml::Str("accent_color"@), Yaml::Str("#7c5cff"@)),
        (Yaml::Str("font_size"@), Yaml::PosInt(12)),
    ])
}

pub open spec fn default_quick_overlay() -> Yaml {
    Yaml::Mapping(seq![
        (Yaml::Str("enabled"@), Yaml::Bool(true)),
        (Yaml::Str("show_webui_send_status"@), Yaml::Bool(true)),
        (Yaml::Str("compact_mode"@), Yaml::Bool(false)),
        (Yaml::Str("trigger_hotkey"@), Yaml::Str("f7"@)),
        (Yaml::Str("mouse_side_button"@), Yaml::Str(""@)),
        (Yaml::Str("poll_interval_ms"@), Yaml::PosInt(40)),
        (Yaml::Str("theme"@), default_theme()),
    ])
}

pub open spec fn default_public_config() -> Yaml {
    Yaml::Mapping(seq![
        (Yaml::Str("source_url"@), Yaml::Str(""@)),
        (Yaml::Str("timeout_seconds"@), Yaml::PosInt(5)),
        (Yaml::Str("cache_ttl_seconds"@), Yaml::PosInt(120)),
    ])
}

pub open spec fn default_ai() -> Yaml {
    Yaml::Mapping(seq![
        (Yaml::Str("providers"@), Yaml::List(Seq::empty())),
        (Yaml::Str("default_provider"@), Yaml::Str(""@)),
        (Yaml::Str("system_prompt"@), Yaml::Str(""@)),
        (Yaml::Str("custom_headers"@), Yaml::Mapping(Seq::empty())),
    ])
}

/// The built-in configuration.
pub open spec fn spec_default_config() -> Yaml {
    Yaml::Mapping(seq![
        (Yaml::Str("server"@), default_server()),
        (Yaml::Str("launch"@), default_launch()),
        (Yaml::Str("sender"@), default_sender()),
        (Yaml::Str("quick_overlay"@), default_quick_overlay()),
        (Yaml::Str("public_config"@), default_public_config()),
        (Yaml::Str("ai"@), default_ai()),
    ])
}

fn server_section() -> (r: YamlNode)
    ensures
        r@ == default_server(),
{
    let mut m: Vec<(YamlNode, YamlNode)> = Vec::new();
    let v0 = YamlNode::Str(String::from_str("127.0.0.1"));
    m.push((key("host"), v0));
    let v1 = YamlNode::PosInt(8730);
    m.push((key("port"), v1));
    let v2 = YamlNode::Bool(false);
    m.push((key("lan_access"), v2));
    let v3 = YamlNode::Str(String::from_str(""));
    m.push((key("token"), v3));
    proof {
        lemma_map_view(m@);
        assert(list_view(Seq::<YamlNode>::empty()) =~= Seq::<Yaml>::empty());
        assert(map_view(Seq::<(YamlNode, YamlNode)>::empty()) =~= Seq::<(Yaml, Yaml)>::empty());
        assert(map_view(m@) =~= seq![
            (Yaml::Str("host"@), Yaml::Str("127.0.0.1"@)),
            (Yaml::Str("port"@), Yaml::PosInt(8730)),
            (Yaml::Str("lan_access"@), Yaml::Bool(false)),
            (Yaml::Str("token"@), Yaml::Str(""@)),
        ]);
    }
    YamlNode::Mapping(m)
}

fn launch_section() -> (r: YamlNode)
    ensures
        r@ == default_launch(),
{
    let mut m: Vec<(YamlNode, YamlNode)> = Vec::new();
    let v0 = YamlNode::Bool(false);
    m.push((key("open_webui_on_start"), v0));
    let v1 = YamlNode::Bool(false);
    m.push((key("open_intro_on_first_start"), v1));
    let v2 = YamlNode::Bool(false);
    m.push((key("onboarding_done"), v2));
    let v3 = YamlNode::Bool(false);
    m.push((key("show_console_on_start"), v3));
    let v4 = YamlNode::Bool(true);
    m.push((key("enable_tray_on_start"), v4));
    let v5 = YamlNode::Str(String::from_str("ask"));
    m.push((key("close_action"), v5));
    let v6 = YamlNode::Bool(false);
    m.push((key("intro_seen"), v6));
    proof {
        lemma_map_view(m@);
        assert(list_view(Seq::<YamlNode>::empty()) =~= Seq::<Yaml>::empty());
        assert(map_view(Seq::<(YamlNode, YamlNode)>::empty()) =~= Seq::<(Yaml, Yaml)>::empty());
        assert(map_view(m@) =~= seq![
            (Yaml::Str("open_webui_on_start"@), Yaml::Bool(false)),
            (Yaml::Str("open_intro_on_first_start"@), Yaml::Bool(false)),
            (Yaml::Str("onboarding_done"@), Yaml::Bool(false)),
            (Yaml::Str("show_console_on_start"@), Yaml::Bool(false)),
            (Yaml::Str("enable_tray_on_start"@), Yaml::Bool(true)),
            (Yaml::Str("close_action"@), Yaml::Str("ask"@)),
            (Yaml::Str("intro_seen"@), Yaml::Bool(false)),
        ]);
    }
    YamlNode::Mapping(m)
}

fn sender_section() -> (r: YamlNode)
    ensures
        r@ == default_sender(),
{
    let mut m: Vec<(YamlNode, YamlNode)> = Vec::new();
    let v0 = YamlNode::Str(String::from_str("clipboard"));
    m.push((key("method"), v0));
    let v1 = YamlNode::Str(String::from_str("t"));
    m.push((key("chat_open_key"), v1));
    let v2 = YamlNode::PosInt(450);
    m.push((key("delay_open_chat"), v2));
    let v3 = YamlNode::PosInt(160);
    m.push((key("delay_after_paste"), v3));
    let v4 = YamlNode::PosInt(260);
    m.push((key("delay_after_send"), v4));
    let v5 = YamlNode::PosInt(1800);
    m.push((key("delay_between_lines"), v5));
    let v6 = YamlNode::PosInt(8000);
    m.push((key("focus_timeout"), v6));
    let v7 = YamlNode::PosInt(3);
    m.push((key("retry_count"), v7));
    let v8 = YamlNode::PosInt(450);
    m.push((key("retry_interval"), v8));
    let v9 = YamlNode::PosInt(18);
    m.push((key("typing_char_delay"), v9));
    proof {
        lemma_map_view(m@);
        assert(list_view(Seq::<YamlNode>::empty()) =~= Seq::<Yaml>::empty());
        assert(map_view(Seq::<(YamlNode, YamlNode)>::empty()) =~= Seq::<(Yaml, Yaml)>::empty());
        assert(map_view(m@) =~= seq![
            (Yaml::Str("method"@), Yaml::Str("clipboard"@)),
            (Yaml::Str("chat_open_key"@), Yaml::Str("t"@)),
            (Yaml::Str("delay_open_chat"@), Yaml::PosInt(450)),
            (Yaml::Str("delay_after_paste"@), Yaml::PosInt(160)),
            (Yaml::Str("delay_after_send"@), Yaml::PosInt(260)),
            (Yaml::Str("delay_between_lines"@), Yaml::PosInt(1800)),
            (Yaml::Str("focus_timeout"@), Yaml::PosInt(8000)),
            (Yaml::Str("retry_count"@), Yaml::PosInt(3)),
            (Yaml::Str("retry_interval"@), Yaml::PosInt(450)),
            (Yaml::Str("typing_char_delay"@), Yaml::PosInt(18)),
        ]);
    }
    YamlNode::Mapping(m)
}

fn theme_section() -> (r: YamlNode)
    ensures
        r@ == default_theme(),
{
    let mut m: Vec<(YamlNode, YamlNode)> = Vec::new();
    let v0 = YamlNode::Float(String::from_str("0.92"));
    m.push((key("bg_opacity"), v0));
    let v1 = YamlNode::Str(String::from_str("#7c5cff"));
    m.push((key("accent_color"), v1));
    let v2 = YamlNode::PosInt(12);
    m.push((key("font_size"), v2));
    proof {
        lemma_map_view(m@);
        assert(list_view(Seq::<YamlNode>::empty()) =~= Seq::<Yaml>::empty());
        assert(map_view(Seq::<(YamlNode, YamlNode)>::empty()) =~= Seq::<(Yaml, Yaml)>::empty());
        assert(map_view(m@) =~= seq![
            (Yaml::Str("bg_opacity"@), Yaml::Float("0.92"@)),
            (Yaml::Str("accent_color"@), Yaml::Str("#7c5cff"@)),
            (Yaml::Str("font_size"@), Yaml::PosInt(12)),
        ]);
    }
    YamlNode::Mapping(m)
}

fn quick_overlay_section() -> (r: YamlNode)
    ensures
        r@ == default_quick_overlay(),
{
    let mut m: Vec<(YamlNode, YamlNode)> = Vec::new();
    let v0 = YamlNode::Bool(true);
    m.push((key("enabled"), v0));
    let v1 = YamlNode::Bool(true);
    m.push((key("show_webui_send_status"), v1));
    let v2 = YamlNode::Bool(false);
    m.push((key("compact_mode"), v2));
    let v3 = YamlNode::Str(String::from_str("f7"));
    m.push((key("trigger_hotkey"), v3));
    let v4 = YamlNode::Str(String::from_str(""));
    m.push((key("mouse_side_button"), v4));
    let v5 = YamlNode::PosInt(40);
    m.push((key("poll_interval_ms"), v5));
    let v6 = theme_section();
    m.push((key("theme"), v6));
    proof {
        lemma_map_view(m@);
        assert(list_view(Seq::<YamlNode>::empty()) =~= Seq::<Yaml>::empty());
        assert(map_view(Seq::<(YamlNode, YamlNode)>::empty()) =~= Seq::<(Yaml, Yaml)>::empty());
        assert(map_view(m@) =~= seq![
            (Yaml::Str("enabled"@), Yaml::Bool(true)),
            (Yaml::Str("show_webui_send_status"@), Yaml::Bool(true)),
            (Yaml::Str("compact_mode"@), Yaml::Bool(false)),
            (Yaml::Str("trigger_hotkey"@), Yaml::Str("f7"@)),
            (Yaml::Str("mouse_side_button"@), Yaml::Str(""@)),
            (Yaml::Str("poll_interval_ms"@), Yaml::PosInt(40)),
            (Yaml::Str("theme"@), default_theme()),
        ]);
    }
    YamlNode::Mapping(m)
}

fn public_config_section() -> (r: YamlNode)
    ensures
        r@ == default_public_config(),
{
    let mut m: Vec<(YamlNode, YamlNode)> = Vec::new();
    let v0 = YamlNode::Str(String::from_str(""));
    m.push((key("source_url"), v0));
    let v1 = YamlNode::PosInt(5);
    m.push((key("timeout_seconds"), v1));
    let v2 = YamlNode::PosInt(120);
    m.push((key("cache_ttl_seconds"), v2));
    proof {
        lemma_map_view(m@);
        assert(list_view(Seq::<YamlNode>::empty()) =~= Seq::<Yaml>::empty());
        assert(map_view(Seq::<(YamlNode, YamlNode)>::empty()) =~= Seq::<(Yaml, Yaml)>::empty());
        assert(map_view(m@) =~= seq![
            (Yaml::Str("source_url"@), Yaml::Str(""@)),
            (Yaml::Str("timeout_seconds"@), Yaml::PosInt(5)),
            (Yaml::Str("cache_ttl_seconds"@), Yaml::PosInt(120)),
        ]);
    }
    YamlNode::Mapping(m)
}

fn ai_section() -> (r: YamlNode)
    ensures
        r@ == default_ai(),
{
    let mut m: Vec<(YamlNode, YamlNode)> = Vec::new();
    let v0 = YamlNode::List(Vec::new());
    m.push((key("providers"), v0));
    let v1 = YamlNode::Str(String::from_str(""));
    m.push((key("default_provider"), v1));
    let v2 = YamlNode::Str(String::from_str(""));
    m.push((key("system_prompt"), v2));
    let v3 = YamlNode::Mapping(Vec::new());
    m.push((key("custom_headers"), v3));
    proof {
        lemma_map_view(m@);
        assert(list_view(Seq::<YamlNode>::empty()) =~= Seq::<Yaml>::empty());
        assert(map_view(Seq::<(YamlNode, YamlNode)>::empty()) =~= Seq::<(Yaml, Yaml)>::empty());
        assert(map_view(m@) =~= seq![
            (Yaml::Str("providers"@), Yaml::List(Seq::empty())),
            (Yaml::Str("default_provider"@), Yaml::Str(""@)),
            (Yaml::Str("system_prompt"@), Yaml::Str(""@)),
            (Yaml::Str("custom_headers"@), Yaml::Mapping(Seq::empty())),
        ]);
    }
    YamlNode::Mapping(m)
}

/// The built-in configuration, as a tree.
pub fn default_config() -> (r: YamlNode)
    ensures
        r@ == spec_default_config(),
{
    let mut m: Vec<(YamlNode, YamlNode)> = Vec::new();
    let v0 = server_section();
    m.push((key("server"), v0));
    let v1 = launch_section();
    m.push((key("launch"), v1));
    let v2 = sender_section();
    m.push((key("sender"), v2));
    let v3 = quick_overlay_section();
    m.push((key("quick_overlay"), v3));
    let v4 = public_config_section();
    m.push((key("public_config"), v4));
    let v5 = ai_section();
    m.push((key("ai"), v5));
    proof {
        lemma_map_view(m@);
        assert(map_view(m@) =~= seq![
            (Yaml::Str("server"@), default_server()),
            (Yaml::Str("launch"@), default_launch()),
            (Yaml::Str("sender"@), default_sender()),
            (Yaml::Str("quick_overlay"@), default_quick_overlay()),
            (Yaml::Str("public_config"@), default_public_config()),
            (Yaml::Str("ai"@), default_ai()),
        ]);
    }
    YamlNode::Mapping(m)
}

} // verus!
