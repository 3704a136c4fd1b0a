use omarchy_mic::noise::{
    capture_port, disable, enable, enabled_state_text, feeding_ports, filter_config,
    filter_input_port, find_filter_node_id, get_selected_mic, has_output_port, is_active,
    is_enabled, set_input, status_ids, toggle, NoiseAction, NoiseEvent, NoiseFlow,
};

const WPCTL_STATUS: &str = "Audio
 ├─ Sources:
 │      56. Built-in Digital Microphone [vol: 1.00]
 │  *   80. Noise Cancelling Source             [vol: 1.00]
 ├─ Filters:
 │    - deepfilter_source
 │      79. capture.deepfilter_source           [Stream/Input/Audio/Internal]
 │  *   80. deepfilter_source                   [Audio/Source]
";

#[test]
fn filter_config_embeds_the_plugin_path() {
    let c = filter_config("/home/me/.ladspa/libdeep_filter_ladspa.so");
    assert!(c.starts_with("context.modules = [\n    {   name = libpipewire-module-filter-chain\n"));
    assert!(c.contains("                        plugin = /home/me/.ladspa/libdeep_filter_ladspa.so\n                        label  = deep_filter_mono\n"));
    assert!(c.contains("\"Attenuation Limit (dB)\" 12"));
    assert!(c.contains("node.name    = \"deepfilter_source\""));
    assert!(c.ends_with("    }\n]\n"));
}

#[test]
fn enabled_state_round_trip() {
    for b in [true, false] {
        assert_eq!(is_enabled(&Some(enabled_state_text(b).to_string())), b);
    }
    assert!(is_enabled(&Some(" true\n".to_string())));
    assert!(!is_enabled(&Some("TRUE".to_string())));
    assert!(!is_enabled(&None));
}

#[test]
fn selected_mic_round_trip() {
    let n = "alsa_input.usb-Shure_Inc_Shure_MV7-00.mono-fallback";
    assert_eq!(get_selected_mic(&Some(n.to_string())), Some(n.to_string()));
    assert_eq!(get_selected_mic(&Some(format!("  {n}\n"))), Some(n.to_string()));
    assert_eq!(get_selected_mic(&Some(" \n".to_string())), None);
    assert_eq!(get_selected_mic(&None), None);
}

#[test]
fn filter_is_active_when_wpctl_shows_it() {
    assert!(is_active(WPCTL_STATUS));
    assert!(!is_active("Audio\n Sources:\n  56. Mic\n"));
}

#[test]
fn filter_node_id_skips_capture_node() {
    assert_eq!(find_filter_node_id(WPCTL_STATUS), Some(80));
    assert_eq!(find_filter_node_id("79. capture.deepfilter_source\n"), None);
    assert_eq!(find_filter_node_id(""), None);
}

#[test]
fn status_ids_are_listed_in_order() {
    assert_eq!(status_ids(WPCTL_STATUS), vec![56, 80, 79, 80]);
    assert_eq!(status_ids("no ids here\n"), Vec::<u32>::new());
}

#[test]
fn output_ports_are_found_by_node() {
    let outs = "alsa_input.usb-Shure:capture_MONO\nalsa_output.pci:monitor_FL\n";
    assert!(has_output_port(outs, "alsa_input.usb-Shure"));
    assert!(!has_output_port(outs, "alsa_input.pci"));
    assert_eq!(
        capture_port(outs, "alsa_input.usb-Shure"),
        Some("alsa_input.usb-Shure:capture_MONO".to_string())
    );
    assert_eq!(capture_port(outs, "alsa_output.pci"), None);
}

#[test]
fn filter_input_port_defaults_to_mono() {
    assert_eq!(
        filter_input_port("x:y\ncapture.deepfilter_source:input_FL\n"),
        "capture.deepfilter_source:input_FL"
    );
    assert_eq!(filter_input_port("x:y\n"), "capture.deepfilter_source:input_MONO");
}

#[test]
fn feeding_ports_take_the_first_link_of_each_filter_port() {
    let links = "capture.deepfilter_source:input_MONO
  |<- mic:capture_FL
  |<- other:capture_FL
mic:capture_FL
  |-> capture.deepfilter_source:input_MONO
";
    assert_eq!(feeding_ports(links), vec!["mic:capture_FL".to_string()]);
    assert!(feeding_ports("").is_empty());
}

fn action_name(a: &NoiseAction) -> String {
    match a {
        NoiseAction::CheckPluginInstalled => "plugin?".into(),
        NoiseAction::CheckConfigExists => "config?".into(),
        NoiseAction::WriteConfig => "write config".into(),
        NoiseAction::SaveEnabled(b) => format!("save enabled {b}"),
        NoiseAction::SaveSelectedMic(n) => format!("save mic {n}"),
        NoiseAction::LoadSelectedMic => "load mic".into(),
        NoiseAction::WpctlStatus => "wpctl status".into(),
        NoiseAction::ListOutputPorts => "pw-link -o".into(),
        NoiseAction::ListInputPorts => "pw-link -i".into(),
        NoiseAction::ListLinks => "pw-link -l".into(),
        NoiseAction::NodeInfo(id) => format!("pw-cli info {id}"),
        NoiseAction::SetDefault(id) => format!("set-default {id}"),
        NoiseAction::Unlink(a, b) => format!("unlink {a} {b}"),
        NoiseAction::Link(a, b) => format!("link {a} {b}"),
        NoiseAction::Finish(Ok(())) => "ok".into(),
        NoiseAction::Finish(Err(e)) => format!("error: {e}"),
    }
}

/// Runs a procedure against scripted answers, returning what it asked for.
fn run(mut flow: NoiseFlow, mut answers: Vec<NoiseEvent>) -> Vec<String> {
    let mut asked = Vec::new();
    answers.reverse();
    loop {
        let a = flow.action();
        asked.push(action_name(&a));
        if let NoiseAction::Finish(_) = a {
            return asked;
        }
        let ev = answers.pop().expect("an answer for every request");
        flow = flow.step(ev);
    }
}

fn out(s: &str) -> NoiseEvent {
    NoiseEvent::Output(Ok(s.to_string()))
}

fn done() -> NoiseEvent {
    NoiseEvent::Done(Ok(()))
}

#[test]
fn enable_sets_the_filter_as_default() {
    let asked = run(
        enable(),
        vec![NoiseEvent::Checked(true), NoiseEvent::Checked(false), done(), done(), out(WPCTL_STATUS), out(WPCTL_STATUS), done()],
    );
    assert_eq!(
        asked,
        vec![
            "plugin?", "config?", "write config", "save enabled true", "wpctl status",
            "wpctl status", "set-default 80", "ok"
        ]
    );
}

#[test]
fn enable_errors() {
    assert_eq!(
        run(enable(), vec![NoiseEvent::Checked(false)]),
        vec![
            "plugin?",
            "error: DeepFilterNet not installed. Download from: https://github.com/Rikorose/DeepFilterNet/releases"
        ]
    );
    assert_eq!(
        run(enable(), vec![NoiseEvent::Checked(true), NoiseEvent::Checked(true), done(), out("Audio\n")]),
        vec![
            "plugin?", "config?", "save enabled true", "wpctl status",
            "error: Filter not loaded. Please restart PipeWire once: systemctl --user restart pipewire pipewire-pulse"
        ]
    );
    assert_eq!(
        run(
            enable(),
            vec![NoiseEvent::Checked(true), NoiseEvent::Checked(true), done(), out("deepfilter_source"), out("deepfilter_source")]
        ),
        vec!["plugin?", "config?", "save enabled true", "wpctl status", "wpctl status", "error: Filter node not found"]
    );
    assert_eq!(
        run(
            enable(),
            vec![NoiseEvent::Checked(true), NoiseEvent::Checked(false), NoiseEvent::Done(Err("Failed to write config: denied".into()))]
        ),
        vec!["plugin?", "config?", "write config", "error: Failed to write config: denied"]
    );
}

#[test]
fn disable_without_selection_only_saves() {
    assert_eq!(
        run(disable(), vec![done(), NoiseEvent::Loaded(None)]),
        vec!["save enabled false", "load mic", "ok"]
    );
}

#[test]
fn disable_restores_the_selected_mic() {
    let asked = run(
        disable(),
        vec![
            done(),
            NoiseEvent::Loaded(Some("mic\n".into())),
            out(WPCTL_STATUS),
            out("mic:capture_MONO\n"),
            out("node.name = \"other\""),
            NoiseEvent::Output(Err("pw-cli: not found".into())),
            out("node.name = \"mic\""),
            done(),
        ],
    );
    assert_eq!(
        asked,
        vec![
            "save enabled false", "load mic", "wpctl status", "pw-link -o", "pw-cli info 56",
            "pw-cli info 80", "pw-cli info 79", "set-default 79", "ok"
        ]
    );
}

#[test]
fn disable_errors() {
    assert_eq!(
        run(disable(), vec![done(), NoiseEvent::Loaded(Some("mic".into())), out(WPCTL_STATUS), out("x:y\n")]),
        vec!["save enabled false", "load mic", "wpctl status", "pw-link -o", "error: Node 'mic' not found"]
    );
    assert_eq!(
        run(disable(), vec![done(), NoiseEvent::Loaded(Some("mic".into())), out("none\n"), out("mic:y\n")]),
        vec!["save enabled false", "load mic", "wpctl status", "pw-link -o", "error: Could not find wpctl ID for 'mic'"]
    );
    assert_eq!(
        run(disable(), vec![done(), NoiseEvent::Loaded(Some("mic".into())), NoiseEvent::Output(Err("wpctl error: gone".into()))]),
        vec!["save enabled false", "load mic", "wpctl status", "error: wpctl error: gone"]
    );
}

#[test]
fn set_input_relinks_the_filter() {
    let links = "capture.deepfilter_source:input_MONO\n  |<- old:capture_FL\n";
    let asked = run(
        set_input("mv7"),
        vec![
            done(),
            out(WPCTL_STATUS),
            out(links),
            done(),
            done(),
            out("mv7:capture_MONO\n"),
            out("capture.deepfilter_source:input_MONO\n"),
            done(),
        ],
    );
    assert_eq!(
        asked,
        vec![
            "save mic mv7",
            "wpctl status",
            "pw-link -l",
            "unlink old:capture_FL capture.deepfilter_source:input_MONO",
            "unlink old:capture_FL capture.deepfilter_source:input_FL",
            "pw-link -o",
            "pw-link -i",
            "link mv7:capture_MONO capture.deepfilter_source:input_MONO",
            "ok"
        ]
    );
}

#[test]
fn set_input_without_filter_only_saves() {
    assert_eq!(run(set_input("mv7"), vec![done(), out("Audio\n")]), vec!["save mic mv7", "wpctl status", "ok"]);
    assert_eq!(
        run(set_input("mv7"), vec![done(), NoiseEvent::Output(Err("no wpctl".into()))]),
        vec!["save mic mv7", "wpctl status", "ok"]
    );
}

#[test]
fn set_input_without_capture_port_fails() {
    assert_eq!(
        run(set_input("mv7"), vec![done(), out(WPCTL_STATUS), out(""), out("other:capture_FL\n"), out("")]),
        vec!["save mic mv7", "wpctl status", "pw-link -l", "pw-link -o", "pw-link -i", "error: No capture port found for 'mv7'"]
    );
}

#[test]
fn toggle_flips_the_state() {
    assert_eq!(action_name(&toggle(true).action()), "save enabled false");
    assert_eq!(action_name(&toggle(false).action()), "plugin?");
}

#[test]
fn unanswered_requests_are_repeated() {
    let f = enable().step(done());
    assert_eq!(action_name(&f.action()), "plugin?");
}
