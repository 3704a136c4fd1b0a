use omarchy_mic::commands::{
    first_known_name, menu_lines, parse_on_off, plan_selection, plan_setup, status_lines,
    waybar_mic, waybar_output, SelectPlan, SetupPlan, MV7_NODE_NAME,
};
use omarchy_mic::pipewire::Source;

fn src(id: u32, name: &str, node: Option<&str>, is_default: bool) -> Source {
    Source { id, name: name.to_string(), node_name: node.map(|n| n.to_string()), is_default }
}

fn some(s: &str) -> Option<String> {
    Some(s.to_string())
}

#[test]
fn on_off_words() {
    for w in ["on", "ON", "true", "True", "1", "yes", "YES"] {
        assert_eq!(parse_on_off(w), Some(true), "{w}");
    }
    for w in ["off", "Off", "false", "FALSE", "0", "no", "No"] {
        assert_eq!(parse_on_off(w), Some(false), "{w}");
    }
    for w in ["", "2", "enable", " on", "nope"] {
        assert_eq!(parse_on_off(w), None, "{w}");
    }
}

#[test]
fn first_known_name_falls_back() {
    assert_eq!(first_known_name(some("a"), some("b"), "c"), "a");
    assert_eq!(first_known_name(None, some("b"), "c"), "b");
    assert_eq!(first_known_name(None, None, "c"), "c");
}

#[test]
fn waybar_mic_label() {
    assert_eq!(waybar_mic(true, some("MV7"), some("Sel"), some("Def")), "MV7");
    assert_eq!(waybar_mic(true, None, some("Sel"), some("Def")), "Sel");
    assert_eq!(waybar_mic(true, None, None, some("Def")), "default");
    assert_eq!(waybar_mic(false, some("MV7"), some("Sel"), some("Def")), "Def");
    assert_eq!(waybar_mic(false, some("MV7"), None, None), "No mic");
}

#[test]
fn waybar_module_output() {
    let o = waybar_output(false, true, "MV7", true);
    assert_eq!(o.text, "\u{f130}");
    assert_eq!(o.tooltip, "Mic: MV7\nNoise suppression: on\nMV7: connected");
    assert_eq!(o.class, "active");
    let o = waybar_output(true, true, "MV7", false);
    assert_eq!(o.text, "\u{f131}");
    assert_eq!(o.tooltip, "Mic: MV7\nNoise suppression: muted\nMV7: disconnected");
    assert_eq!(o.class, "muted");
    let o = waybar_output(false, false, "No mic", false);
    assert_eq!(o.text, "\u{f130}");
    assert_eq!(o.tooltip, "Mic: No mic\nNoise suppression: off\nMV7: disconnected");
    assert_eq!(o.class, "inactive");
}

#[test]
fn status_report_lines() {
    let s = vec![src(56, "Built-in", Some("alsa_input.pci"), false), src(80, "Noise Cancelling Source", None, true)];
    let lines = status_lines(&s, true, false, false, true, "Built-in");
    assert_eq!(
        lines,
        vec![
            "Microphone Status",
            "─────────────────",
            "Default source: Noise Cancelling Source (ID 80)",
            "",
            "Noise suppression: enabled (not active)",
            "Input mic:         Built-in",
            "  (plugin not installed — run: omarchy-pkg-add noise-suppression-for-voice)",
            "Shure MV7: connected",
            "",
            "Sources:",
            "   Built-in (ID 56)",
            " * Noise Cancelling Source (ID 80)",
        ]
    );
    let lines = status_lines(&Vec::new(), false, false, true, false, "ignored");
    assert_eq!(
        lines,
        vec![
            "Microphone Status",
            "─────────────────",
            "Default source: none",
            "",
            "Noise suppression: disabled",
            "Shure MV7: not found",
            "",
            "Sources:",
        ]
    );
    let lines = status_lines(&Vec::new(), false, true, true, false, "auto (default)");
    assert_eq!(lines[4], "Noise suppression: active");
    assert_eq!(lines[5], "Input mic:         auto (default)");
}

#[test]
fn setup_configures_a_connected_mv7() {
    let s = vec![src(56, "Built-in", Some("alsa_input.pci"), false), src(70, "Shure MV7", Some(MV7_NODE_NAME), false)];
    assert!(matches!(plan_setup(&s, &None), SetupPlan::ConfigureMv7));
    assert!(matches!(plan_setup(&s, &some("other")), SetupPlan::ConfigureMv7));
}

#[test]
fn setup_falls_back_without_the_mv7() {
    let s = vec![
        src(79, "capture.deepfilter_source", Some("capture.deepfilter_source"), false),
        src(56, "Family Digital Microphone", Some("alsa_input.pci"), false),
        src(57, "Headset", None, false),
        src(58, "USB Headset", Some("alsa_input.usb-headset"), false),
    ];
    match plan_setup(&s, &None) {
        SetupPlan::UseFallback { node_name, name } => {
            assert_eq!(node_name, "alsa_input.usb-headset");
            assert_eq!(name, "USB Headset");
        },
        _ => panic!("expected a fallback"),
    }
    let builtin_only = vec![s[0].clone_for_test(), s[1].clone_for_test()];
    match plan_setup(&builtin_only, &some(MV7_NODE_NAME)) {
        SetupPlan::UseFallback { node_name, .. } => assert_eq!(node_name, "alsa_input.pci"),
        _ => panic!("expected the built-in microphone"),
    }
    assert!(matches!(plan_setup(&vec![], &None), SetupPlan::NoFallback));
    assert!(matches!(plan_setup(&s, &some("alsa_input.pci")), SetupPlan::KeepCurrent));
}

trait CloneForTest {
    fn clone_for_test(&self) -> Source;
}

impl CloneForTest for Source {
    fn clone_for_test(&self) -> Source {
        Source { id: self.id, name: self.name.clone(), node_name: self.node_name.clone(), is_default: self.is_default }
    }
}

fn menu_sources() -> Vec<Source> {
    vec![
        src(56, "Built-in", Some("alsa_input.pci"), false),
        src(79, "capture.deepfilter_source", Some("capture.deepfilter_source"), false),
        src(80, "deepfilter_source", Some("deepfilter_source"), true),
        src(70, "Shure MV7", Some(MV7_NODE_NAME), false),
        src(71, "Nameless", None, false),
    ]
}

#[test]
fn menu_marks_the_active_mic() {
    let s = menu_sources();
    assert_eq!(
        menu_lines(&s, &some(MV7_NODE_NAME)),
        vec!["  Built-in", "* Shure MV7", "  Nameless"]
    );
    assert_eq!(menu_lines(&s, &None), vec!["  Built-in", "  Shure MV7", "  Nameless"]);
    assert!(menu_lines(&vec![], &None).is_empty());
}

#[test]
fn selection_is_matched_back() {
    let s = menu_sources();
    assert!(matches!(plan_selection(&s, "  \n", true), SelectPlan::Cancelled));
    match plan_selection(&s, "* Shure MV7\n", true) {
        SelectPlan::SwitchFilterInput { node_name, name } => {
            assert_eq!(node_name, MV7_NODE_NAME);
            assert_eq!(name, "Shure MV7");
        },
        _ => panic!("expected a switch"),
    }
    match plan_selection(&s, "  Built-in", false) {
        SelectPlan::UseDirectly { node_name, id, name } => {
            assert_eq!(node_name, "alsa_input.pci");
            assert_eq!(id, 56);
            assert_eq!(name, "Built-in");
        },
        _ => panic!("expected direct use"),
    }
    match plan_selection(&s, "Nameless", false) {
        SelectPlan::NoNodeName { name } => assert_eq!(name, "Nameless"),
        _ => panic!("expected a missing node name"),
    }
    match plan_selection(&s, "deepfilter_source", false) {
        SelectPlan::NoMatch { display_name } => assert_eq!(display_name, "deepfilter_source"),
        _ => panic!("filter nodes are not offered"),
    }
}
