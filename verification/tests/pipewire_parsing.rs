use omarchy_mic::pipewire::{
    get_default_source_name, get_node_name, get_rnnoise_input, get_rnnoise_input_node_name,
    list_sources, resolve_display_name, strip_box_drawing, Source,
};

pub const WPCTL_STATUS: &str = "PipeWire 'pipewire-0' [1.2.7, me@laptop, cookie:1234]
 └─ Clients:
        31. WirePlumber                         [1.2.7, me@laptop, pid:1200]

Audio
 ├─ Devices:
 │      46. Family 17h/19h HD Audio Controller  [alsa]
 │  
 ├─ Sinks:
 │  *   55. Family 17h/19h HD Audio Controller Speaker [vol: 0.50]
 │  
 ├─ Sources:
 │      56. Family 17h/19h HD Audio Controller Digital Microphone [vol: 1.00]
 │  *   80. Noise Cancelling Source             [vol: 1.00]
 │  
 ├─ Filters:
 │    - deepfilter_source
 │      79. capture.deepfilter_source           [Stream/Input/Audio/Internal]
 │  *   80. deepfilter_source                   [Audio/Source]
 │  
 └─ Streams:

Video
 ├─ Devices:
 │      60. Integrated Camera                   [v4l2]
 ├─ Sources:
 │  *   62. Integrated Camera (V4L2)
";

fn src(id: u32, name: &str, node: Option<&str>, is_default: bool) -> Source {
    Source { id, name: name.to_string(), node_name: node.map(|n| n.to_string()), is_default }
}

#[test]
fn box_drawing_becomes_spaces() {
    assert_eq!(strip_box_drawing(" ├─ Sources:"), "    Sources:");
    assert_eq!(strip_box_drawing("│├└─┬┤┘┐┌┼x"), "          x");
    assert_eq!(strip_box_drawing("plain"), "plain");
}

#[test]
fn sources_and_filters_of_the_audio_part_are_listed() {
    let s = list_sources(WPCTL_STATUS);
    let got: Vec<(u32, &str, bool)> =
        s.iter().map(|s| (s.id, s.name.as_str(), s.is_default)).collect();
    assert_eq!(
        got,
        vec![
            (56, "Family 17h/19h HD Audio Controller Digital Microphone", false),
            (80, "Noise Cancelling Source", true),
            (79, "capture.deepfilter_source", false),
            (80, "deepfilter_source", true),
        ]
    );
    assert!(s.iter().all(|s| s.node_name.is_none()));
}

#[test]
fn nothing_is_listed_outside_the_audio_sources() {
    assert!(list_sources("").is_empty());
    assert!(list_sources("Video\n ├─ Sources:\n │  *   62. Camera\n").is_empty());
    assert!(list_sources("Audio\n ├─ Sinks:\n │  *   55. Speaker\n").is_empty());
    // An entry without a name, or whose ID is not a number, is skipped.
    assert!(list_sources("Audio\n Sources:\n  12. [vol: 1]\n  x. Mic\n").is_empty());
}

#[test]
fn default_source_name_is_the_first_default() {
    let s = list_sources(WPCTL_STATUS);
    assert_eq!(get_default_source_name(&s), Some("Noise Cancelling Source".to_string()));
    assert_eq!(get_default_source_name(&Vec::new()), None);
    assert_eq!(get_default_source_name(&vec![src(1, "a", None, false)]), None);
}

#[test]
fn display_names_are_resolved_by_node_name() {
    let s = vec![
        src(56, "Built-in", Some("alsa_input.pci"), false),
        src(70, "MV7", Some("alsa_input.usb-Shure"), false),
        src(71, "MV7 again", Some("alsa_input.usb-Shure"), false),
    ];
    assert_eq!(resolve_display_name(&s, "alsa_input.usb-Shure"), Some("MV7".to_string()));
    assert_eq!(resolve_display_name(&s, "alsa_input.usb"), None);
}

pub const PW_CLI_INFO: &str = "\tid: 56
\tpermissions: r-xm
\ttype: PipeWire:Interface:Node/3
*\tproperties:
*\t\tobject.serial = \"57\"
*\t\tnode.nick = \"Digital Microphone\"
*\t\tnode.name = \"alsa_input.pci-0000_c1_00.6.analog-stereo\"
*\t\tnode.description = \"Family 17h/19h HD Audio Controller Digital Microphone\"
";

#[test]
fn node_name_is_read_from_pw_cli_info() {
    assert_eq!(
        get_node_name(PW_CLI_INFO),
        Some("alsa_input.pci-0000_c1_00.6.analog-stereo".to_string())
    );
    assert_eq!(get_node_name("node.name"), None);
    assert_eq!(get_node_name("node.name = a = b"), Some("a".to_string()));
    assert_eq!(get_node_name(""), None);
}

pub const PW_LINK_LIST: &str = "alsa_input.pci-0000_c1_00.6.analog-stereo:capture_FL
  |-> capture.deepfilter_source:input_MONO
capture.deepfilter_source:input_MONO
  |<- alsa_input.pci-0000_c1_00.6.analog-stereo:capture_FL
deepfilter_source:capture_MONO
  |-> firefox:input_MONO
";

#[test]
fn filter_input_is_read_from_pw_link() {
    assert_eq!(
        get_rnnoise_input_node_name(PW_LINK_LIST),
        Some("alsa_input.pci-0000_c1_00.6.analog-stereo".to_string())
    );
    assert_eq!(get_rnnoise_input_node_name("a:b\n  |<- c:d\n"), None);
    assert_eq!(get_rnnoise_input_node_name(""), None);
    // A link without a node and port is passed over.
    assert_eq!(
        get_rnnoise_input_node_name(
            "capture.deepfilter_source:input_MONO\n  |<- broken\n  |<- mic:capture_MONO\n"
        ),
        Some("mic".to_string())
    );
    // Another port's links end the filter's list.
    assert_eq!(
        get_rnnoise_input_node_name("capture.deepfilter_source:input_MONO\nother:port\n  |<- mic:x\n"),
        None
    );
}

#[test]
fn filter_input_is_named_as_wpctl_names_it() {
    let s = vec![src(56, "Built-in Mic", Some("alsa_input.pci-0000_c1_00.6.analog-stereo"), false)];
    assert_eq!(get_rnnoise_input(PW_LINK_LIST, &s), Some("Built-in Mic".to_string()));
    assert_eq!(
        get_rnnoise_input(PW_LINK_LIST, &Vec::new()),
        Some("alsa_input.pci-0000_c1_00.6.analog-stereo".to_string())
    );
    assert_eq!(get_rnnoise_input("", &s), None);
}
