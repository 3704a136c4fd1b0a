//! The decisions behind the command-line commands: what the status report
//! and the Waybar module show, which microphone `setup` picks, how the
//! microphone menu is built and read back, and how on/off words are read.
use vstd::prelude::*;
use crate::text::{
    ascii_ci_eq, chars_of, contains, decimal, lower_equals, push_decimal, push_str, starts_with,
    str_contains, strip_leading, trim, trim_str,
};
use crate::pipewire::{Source, SourceView, sources_view};

verus! {

// ---------------------------------------------------------------------------
// On/off words
// ---------------------------------------------------------------------------

pub const ON_WORDS: [&'static str; 4] = ["on", "true", "1", "yes"];

pub const OFF_WORDS: [&'static str; 4] = ["off", "false", "0", "no"];

pub open spec fn is_one_of(s: Seq<char>, words: [&'static str; 4]) -> bool {
    exists|i: int| 0 <= i < 4 && ascii_ci_eq(s, #[trigger] words@[i]@)
}

/// What an on/off argument says: one of the on words or off words, in any
/// ASCII letter case. (No character outside ASCII lowers to a letter of
/// these words.)
pub open spec fn on_off_spec(s: Seq<char>) -> Option<bool> {
    if is_one_of(s, ON_WORDS) {
        Some(true)
    } else if is_one_of(s, OFF_WORDS) {
        Some(false)
    } else {
        None
    }
}

fn one_of(v: &Vec<char>, words: [&'static str; 4]) -> (res: bool)
    ensures
        res == exists|i: int| 0 <= i < 4 && ascii_ci_eq(v@, #[trigger] words@[i]@),
{
    let mut i: usize = 0;
    while i < 4
        invariant
            i <= 4,
            forall|k: int| 0 <= k < i ==> !ascii_ci_eq(v@, #[trigger] words@[k]@),
        decreases 4 - i,
    {
        if lower_equals(v, &chars_of(words[i])) {
            return true;
        }
        i = i + 1;
    }
    false
}

/// Reads an on/off argument; `None` for any other word.
pub fn parse_on_off(s: &str) -> (res: Option<bool>)
    ensures
        res == on_off_spec(s@),
{
    let v = chars_of(s);
    if one_of(&v, ON_WORDS) {
        Some(true)
    } else if one_of(&v, OFF_WORDS) {
        Some(false)
    } else {
        None
    }
}

// ---------------------------------------------------------------------------
// Names shown for the microphone in use
// ---------------------------------------------------------------------------

/// The first name that is known, or `fallback`.
pub open spec fn first_known(
    a: Option<Seq<char>>,
    b: Option<Seq<char>>,
    fallback: Seq<char>,
) -> Seq<char> {
    match a {
        Some(x) => x,
        None => match b {
            Some(y) => y,
            None => fallback,
        },
    }
}

/// The first name that is known, or `fallback`.
pub fn first_known_name(a: Option<String>, b: Option<String>, fallback: &str) -> (res: String)
    ensures
        res@ == first_known(a.deep_view(), b.deep_view(), fallback@),
{
    match a {
        Some(x) => x,
        None => match b {
            Some(y) => y,
            None => {
                let mut out = String::new();
                push_str(&mut out, fallback);
                out
            },
        },
    }
}

pub const LABEL_DEFAULT: &'static str = "default";

pub const LABEL_NO_MIC: &'static str = "No mic";

/// The microphone the Waybar module names: while noise suppression is on,
/// the one feeding the filter (else the selected one, else "default");
/// otherwise the default source (else "No mic").
pub open spec fn waybar_mic_label(
    noise_on: bool,
    filter_input: Option<Seq<char>>,
    selected: Option<Seq<char>>,
    default_source: Option<Seq<char>>,
) -> Seq<char> {
    if noise_on {
        first_known(filter_input, selected, LABEL_DEFAULT@)
    } else {
        first_known(default_source, None, LABEL_NO_MIC@)
    }
}

pub fn waybar_mic(
    noise_on: bool,
    filter_input: Option<String>,
    selected: Option<String>,
    default_source: Option<String>,
) -> (res: String)
    ensures
        res@ == waybar_mic_label(
            noise_on,
            filter_input.deep_view(),
            selected.deep_view(),
            default_source.deep_view(),
        ),
{
    if noise_on {
        first_known_name(filter_input, selected, LABEL_DEFAULT)
    } else {
        first_known_name(default_source, None, LABEL_NO_MIC)
    }
}

// ---------------------------------------------------------------------------
// The Waybar module
// ---------------------------------------------------------------------------

pub const MUTED_MARK: &'static str = "MUTED";

/// Whether `wpctl get-volume` says the source is muted.
pub fn is_muted(volume: &str) -> (res: bool)
    ensures
        res == contains(volume@, MUTED_MARK@),
{
    str_contains(volume, MUTED_MARK)
}

pub const ICON_MIC: &'static str = "\u{f130}";

pub const ICON_MIC_MUTED: &'static str = "\u{f131}";

pub const STATE_MUTED: &'static str = "muted";

pub const STATE_ON: &'static str = "on";

pub const STATE_OFF: &'static str = "off";

pub const CLASS_ACTIVE: &'static str = "active";

pub const CLASS_INACTIVE: &'static str = "inactive";

pub const TIP_MIC: &'static str = "Mic: ";

pub const TIP_NOISE: &'static str = "\nNoise suppression: ";

pub const TIP_MV7: &'static str = "\nMV7: ";

pub const MV7_CONNECTED: &'static str = "connected";

pub const MV7_DISCONNECTED: &'static str = "disconnected";

/// What the Waybar module shows.
pub struct WaybarOutput {
    pub text: String,
    pub tooltip: String,
    pub class: String,
}

pub open spec fn waybar_icon(muted: bool) -> Seq<char> {
    if muted {
        ICON_MIC_MUTED@
    } else {
        ICON_MIC@
    }
}

pub open spec fn noise_state_word(muted: bool, noise_enabled: bool) -> Seq<char> {
    if muted {
        STATE_MUTED@
    } else if noise_enabled {
        STATE_ON@
    } else {
        STATE_OFF@
    }
}

pub open spec fn waybar_class(muted: bool, noise_enabled: bool) -> Seq<char> {
    if muted {
        STATE_MUTED@
    } else if noise_enabled {
        CLASS_ACTIVE@
    } else {
        CLASS_INACTIVE@
    }
}

pub open spec fn waybar_tooltip(
    mic: Seq<char>,
    muted: bool,
    noise_enabled: bool,
    mv7_available: bool,
) -> Seq<char> {
    TIP_MIC@ + mic + TIP_NOISE@ + noise_state_word(muted, noise_enabled) + TIP_MV7@ + (
    if mv7_available {
        MV7_CONNECTED@
    } else {
        MV7_DISCONNECTED@
    })
}

fn owned(s: &str) -> (res: String)
    ensures
        res@ == s@,
{
    let mut out = String::new();
    push_str(&mut out, s);
    out
}

/// What the Waybar module shows, given whether the default source is
/// muted, whether noise suppression is enabled, the microphone to name and
/// whether the MV7 is connected.
pub fn waybar_output(muted: bool, noise_enabled: bool, mic: &str, mv7_available: bool) -> (res:
    WaybarOutput)
    ensures
        res.text@ == waybar_icon(muted),
        res.tooltip@ == waybar_tooltip(mic@, muted, noise_enabled, mv7_available),
        res.class@ == waybar_class(muted, noise_enabled),
{
    let icon = if muted {
        ICON_MIC_MUTED
    } else {
        ICON_MIC
    };
    let state = if muted {
        STATE_MUTED
    } else if noise_enabled {
        STATE_ON
    } else {
        STATE_OFF
    };
    let class = if muted {
        STATE_MUTED
    } else if noise_enabled {
        CLASS_ACTIVE
    } else {
        CLASS_INACTIVE
    };
    let mut tooltip = String::new();
    push_str(&mut tooltip, TIP_MIC);
    push_str(&mut tooltip, mic);
    push_str(&mut tooltip, TIP_NOISE);
    push_str(&mut tooltip, state);
    push_str(&mut tooltip, TIP_MV7);
    push_str(
        &mut tooltip,
        if mv7_available {
            MV7_CONNECTED
        } else {
            MV7_DISCONNECTED
        },
    );
    WaybarOutput { text: owned(icon), tooltip, class: owned(class) }
}


// ---------------------------------------------------------------------------
// The status report
// ---------------------------------------------------------------------------

pub const TITLE: &'static str = "Microphone Status";

pub const TITLE_RULE: &'static str = "─────────────────";

pub const DEFAULT_SOURCE: &'static str = "Default source: ";

pub const DEFAULT_SOURCE_NONE: &'static str = "Default source: none";

pub const ID_OPEN: &'static str = " (ID ";

pub const ID_CLOSE: &'static str = ")";

pub const NOISE_LABEL: &'static str = "Noise suppression: ";

pub const NOISE_ACTIVE: &'static str = "active";

pub const NOISE_ENABLED_ONLY: &'static str = "enabled (not active)";

pub const NOISE_DISABLED: &'static str = "disabled";

pub const INPUT_LABEL: &'static str = "Input mic:         ";

pub const LABEL_AUTO: &'static str = "auto (default)";

pub const PLUGIN_MISSING: &'static str =
    "  (plugin not installed — run: omarchy-pkg-add noise-suppression-for-voice)";

pub const MV7_LABEL: &'static str = "Shure MV7: ";

pub const MV7_NOT_FOUND: &'static str = "not found";

pub const SOURCES_HEADING: &'static str = "Sources:";

pub const MARK_DEFAULT: &'static str = " *";

pub const MARK_OTHER: &'static str = "  ";

pub const SPACE: &'static str = " ";

/// The first source marked default.
pub open spec fn first_default(ss: Seq<SourceView>) -> Option<SourceView>
    decreases ss.len(),
{
    if ss.len() == 0 {
        None
    } else if ss[0].is_default {
        Some(ss[0])
    } else {
        first_default(ss.drop_first())
    }
}

pub open spec fn with_id(name: Seq<char>, id: u32) -> Seq<char> {
    name + ID_OPEN@ + decimal(id as nat) + ID_CLOSE@
}

pub open spec fn default_source_line(ss: Seq<SourceView>) -> Seq<char> {
    match first_default(ss) {
        Some(s) => DEFAULT_SOURCE@ + with_id(s.name, s.id),
        None => DEFAULT_SOURCE_NONE@,
    }
}

pub open spec fn noise_state_line(noise_enabled: bool, noise_active: bool) -> Seq<char> {
    NOISE_LABEL@ + if noise_active {
        NOISE_ACTIVE@
    } else if noise_enabled {
        NOISE_ENABLED_ONLY@
    } else {
        NOISE_DISABLED@
    }
}

pub open spec fn source_line(s: SourceView) -> Seq<char> {
    (if s.is_default {
        MARK_DEFAULT@
    } else {
        MARK_OTHER@
    }) + SPACE@ + with_id(s.name, s.id)
}

/// The lines of the status report.
pub open spec fn status_report(
    ss: Seq<SourceView>,
    noise_enabled: bool,
    noise_active: bool,
    plugin_installed: bool,
    mv7_available: bool,
    input_mic: Seq<char>,
) -> Seq<Seq<char>> {
    seq![
        TITLE@,
        TITLE_RULE@,
        default_source_line(ss),
        Seq::<char>::empty(),
        noise_state_line(noise_enabled, noise_active),
    ] + (if noise_active || noise_enabled {
        seq![INPUT_LABEL@ + input_mic]
    } else {
        Seq::empty()
    }) + (if !plugin_installed {
        seq![PLUGIN_MISSING@]
    } else {
        Seq::empty()
    }) + seq![
        MV7_LABEL@ + (if mv7_available {
            MV7_CONNECTED@
        } else {
            MV7_NOT_FOUND@
        }),
        Seq::<char>::empty(),
        SOURCES_HEADING@,
    ] + ss.map_values(|s: SourceView| source_line(s))
}

fn push_with_id(out: &mut String, name: &str, id: u32)
    ensures
        final(out)@ == old(out)@ + with_id(name@, id),
{
    push_str(out, name);
    push_str(out, ID_OPEN);
    push_decimal(out, id);
    push_str(out, ID_CLOSE);
    assert(final(out)@ =~= old(out)@ + with_id(name@, id));
}

fn default_source_line_of(sources: &Vec<Source>) -> (res: String)
    ensures
        res@ == default_source_line(sources_view(sources@)),
{
    let ghost ss = sources_view(sources@);
    let mut i: usize = 0;
    assert(ss.skip(0) =~= ss);
    while i < sources.len()
        invariant
            i <= sources@.len(),
            ss == sources_view(sources@),
            first_default(ss) == first_default(ss.skip(i as int)),
        decreases sources@.len() - i,
    {
        assert(ss.skip(i as int)[0] == sources@[i as int]@);
        assert(ss.skip(i as int).drop_first() =~= ss.skip(i + 1));
        if sources[i].is_default {
            let mut out = String::new();
            push_str(&mut out, DEFAULT_SOURCE);
            push_with_id(&mut out, sources[i].name.as_str(), sources[i].id);
            return out;
        }
        i = i + 1;
    }
    assert(ss.skip(i as int) =~= Seq::<SourceView>::empty());
    owned(DEFAULT_SOURCE_NONE)
}

/// The lines of the status report: the default source, the state of noise
/// suppression (with the microphone in use, `input_mic`, while it is on),
/// whether the plugin is installed, whether the MV7 is connected, and every
/// source.
pub fn status_lines(
    sources: &Vec<Source>,
    noise_enabled: bool,
    noise_active: bool,
    plugin_installed: bool,
    mv7_available: bool,
    input_mic: &str,
) -> (res: Vec<String>)
    ensures
        res.deep_view() == status_report(
            sources_view(sources@),
            noise_enabled,
            noise_active,
            plugin_installed,
            mv7_available,
            input_mic@,
        ),
{
    let ghost ss = sources_view(sources@);
    let mut out: Vec<String> = Vec::new();
    out.push(owned(TITLE));
    out.push(owned(TITLE_RULE));
    out.push(default_source_line_of(sources));
    out.push(String::new());
    let mut noise = owned(NOISE_LABEL);
    push_str(
        &mut noise,
        if noise_active {
            NOISE_ACTIVE
        } else if noise_enabled {
            NOISE_ENABLED_ONLY
        } else {
            NOISE_DISABLED
        },
    );
    out.push(noise);
    let ghost head = out.deep_view();
    assert(head =~= seq![
        TITLE@,
        TITLE_RULE@,
        default_source_line(ss),
        Seq::<char>::empty(),
        noise_state_line(noise_enabled, noise_active),
    ]);
    if noise_active || noise_enabled {
        let mut line = owned(INPUT_LABEL);
        push_str(&mut line, input_mic);
        out.push(line);
    }
    if !plugin_installed {
        out.push(owned(PLUGIN_MISSING));
    }
    let mut mv7 = owned(MV7_LABEL);
    push_str(
        &mut mv7,
        if mv7_available {
            MV7_CONNECTED
        } else {
            MV7_NOT_FOUND
        },
    );
    out.push(mv7);
    out.push(String::new());
    out.push(owned(SOURCES_HEADING));
    let ghost fixed = out.deep_view();
    assert(fixed =~= head + (if noise_active || noise_enabled {
        seq![INPUT_LABEL@ + input_mic@]
    } else {
        Seq::empty()
    }) + (if !plugin_installed {
        seq![PLUGIN_MISSING@]
    } else {
        Seq::empty()
    }) + seq![
        MV7_LABEL@ + (if mv7_available {
            MV7_CONNECTED@
        } else {
            MV7_NOT_FOUND@
        }),
        Seq::<char>::empty(),
        SOURCES_HEADING@,
    ]);
    let mut i: usize = 0;
    while i < sources.len()
        invariant
            i <= sources@.len(),
            ss == sources_view(sources@),
            out.deep_view() =~= fixed + ss.take(i as int).map_values(
                |s: SourceView| source_line(s),
            ),
        decreases sources@.len() - i,
    {
        let mut line = owned(
            if sources[i].is_default {
                MARK_DEFAULT
            } else {
                MARK_OTHER
            },
        );
        push_str(&mut line, SPACE);
        push_with_id(&mut line, sources[i].name.as_str(), sources[i].id);
        let ghost before = out.deep_view();
        let ghost lv = line@;
        assert(lv == source_line(sources@[i as int]@));
        out.push(line);
        assert(out.deep_view() =~= before.push(lv));
        assert(ss.take(i + 1) =~= ss.take(i as int).push(sources@[i as int]@));
        i = i + 1;
    }
    assert(ss.take(i as int) =~= ss);
    out
}


// ---------------------------------------------------------------------------
// `setup`: picking the microphone
// ---------------------------------------------------------------------------

/// The PipeWire node of the Shure MV7's microphone.
pub const MV7_NODE_NAME: &'static str = "alsa_input.usb-Shure_Inc_Shure_MV7-00.mono-fallback";

pub const FILTER_CAPTURE_NAME: &'static str = "capture.deepfilter";

pub const FILTER_SOURCE_NAME: &'static str = "deepfilter_source";

/// The name under which a laptop's built-in microphone shows.
pub const BUILTIN_MIC_NAME: &'static str = "Digital Microphone";

/// Whether a source is one of the noise filter's own nodes.
pub open spec fn is_filter_source(name: Seq<char>) -> bool {
    starts_with(name, FILTER_CAPTURE_NAME@) || starts_with(name, FILTER_SOURCE_NAME@)
}

/// A real microphone with a known `node.name`.
pub open spec fn usable_mic(s: SourceView) -> bool {
    s.node_name is Some && !is_filter_source(s.name)
}

/// A usable microphone that is not the built-in one.
pub open spec fn preferred_mic(s: SourceView) -> bool {
    usable_mic(s) && !contains(s.name, BUILTIN_MIC_NAME@)
}

pub open spec fn first_preferred(ss: Seq<SourceView>) -> Option<SourceView>
    decreases ss.len(),
{
    if ss.len() == 0 {
        None
    } else if preferred_mic(ss[0]) {
        Some(ss[0])
    } else {
        first_preferred(ss.drop_first())
    }
}

pub open spec fn first_usable(ss: Seq<SourceView>) -> Option<SourceView>
    decreases ss.len(),
{
    if ss.len() == 0 {
        None
    } else if usable_mic(ss[0]) {
        Some(ss[0])
    } else {
        first_usable(ss.drop_first())
    }
}

/// The microphone to fall back to: the first preferred one, else the first
/// usable one.
pub open spec fn fallback_mic(ss: Seq<SourceView>) -> Option<SourceView> {
    match first_preferred(ss) {
        Some(s) => Some(s),
        None => first_usable(ss),
    }
}

/// What `setup` does.
pub enum SetupPlan {
    /// The MV7 is connected: select it and apply its voice preset.
    ConfigureMv7,
    /// Select this microphone instead.
    UseFallback { node_name: String, name: String },
    /// There is no microphone to fall back to.
    NoFallback,
    /// Another microphone is selected; keep it.
    KeepCurrent,
}

pub enum SetupPlanModel {
    ConfigureMv7,
    UseFallback { node_name: Seq<char>, name: Seq<char> },
    NoFallback,
    KeepCurrent,
}

impl View for SetupPlan {
    type V = SetupPlanModel;

    open spec fn view(&self) -> SetupPlanModel {
        match self {
            SetupPlan::ConfigureMv7 => SetupPlanModel::ConfigureMv7,
            SetupPlan::UseFallback { node_name, name } => SetupPlanModel::UseFallback {
                node_name: node_name@,
                name: name@,
            },
            SetupPlan::NoFallback => SetupPlanModel::NoFallback,
            SetupPlan::KeepCurrent => SetupPlanModel::KeepCurrent,
        }
    }
}

pub open spec fn mv7_listed(ss: Seq<SourceView>) -> bool {
    exists|k: int| 0 <= k < ss.len() && (#[trigger] ss[k]).node_name == Some(MV7_NODE_NAME@)
}

/// What `setup` does, given the sources and the selected microphone: the
/// MV7 if it is connected; otherwise, while the MV7 or nothing is selected,
/// the fallback microphone; otherwise nothing.
pub open spec fn setup_plan(ss: Seq<SourceView>, selected: Option<Seq<char>>) -> SetupPlanModel {
    if mv7_listed(ss) {
        SetupPlanModel::ConfigureMv7
    } else if selected == Some(MV7_NODE_NAME@) || selected is None {
        match fallback_mic(ss) {
            Some(s) => SetupPlanModel::UseFallback { node_name: s.node_name->0, name: s.name },
            None => SetupPlanModel::NoFallback,
        }
    } else {
        SetupPlanModel::KeepCurrent
    }
}

fn opt_is_str(o: &Option<String>, w: &str) -> (res: bool)
    ensures
        res == (o.deep_view() == Some(w@)),
{
    match o {
        Some(x) => crate::text::str_eq(x.as_str(), w),
        None => false,
    }
}

fn is_filter_source_name(name: &String) -> (res: bool)
    ensures
        res == is_filter_source(name@),
{
    let v = chars_of(name.as_str());
    assert(v@.subrange(0, v@.len() as int) =~= v@);
    crate::text::starts_with_str_at(&v, 0, v.len(), FILTER_CAPTURE_NAME)
        || crate::text::starts_with_str_at(&v, 0, v.len(), FILTER_SOURCE_NAME)
}

fn is_usable(s: &Source) -> (res: bool)
    ensures
        res == usable_mic(s@),
{
    s.node_name.is_some() && !is_filter_source_name(&s.name)
}

fn is_preferred(s: &Source) -> (res: bool)
    ensures
        res == preferred_mic(s@),
{
    is_usable(s) && !str_contains(s.name.as_str(), BUILTIN_MIC_NAME)
}

fn fallback_plan(sources: &Vec<Source>) -> (res: SetupPlan)
    ensures
        res@ == (match fallback_mic(sources_view(sources@)) {
            Some(s) => SetupPlanModel::UseFallback { node_name: s.node_name->0, name: s.name },
            None => SetupPlanModel::NoFallback,
        }),
{
    let ghost ss = sources_view(sources@);
    let mut i: usize = 0;
    assert(ss.skip(0) =~= ss);
    while i < sources.len()
        invariant
            i <= sources@.len(),
            ss == sources_view(sources@),
            first_preferred(ss) == first_preferred(ss.skip(i as int)),
        decreases sources@.len() - i,
    {
        assert(ss.skip(i as int)[0] == sources@[i as int]@);
        assert(ss.skip(i as int).drop_first() =~= ss.skip(i + 1));
        if is_preferred(&sources[i]) {
            match &sources[i].node_name {
                Some(n) => {
                    return SetupPlan::UseFallback {
                        node_name: n.clone(),
                        name: sources[i].name.clone(),
                    };
                },
                None => {},
            }
        }
        i = i + 1;
    }
    assert(ss.skip(i as int) =~= Seq::<SourceView>::empty());
    let mut j: usize = 0;
    assert(ss.skip(0) =~= ss);
    while j < sources.len()
        invariant
            j <= sources@.len(),
            ss == sources_view(sources@),
            first_preferred(ss) is None,
            first_usable(ss) == first_usable(ss.skip(j as int)),
        decreases sources@.len() - j,
    {
        assert(ss.skip(j as int)[0] == sources@[j as int]@);
        assert(ss.skip(j as int).drop_first() =~= ss.skip(j + 1));
        if is_usable(&sources[j]) {
            match &sources[j].node_name {
                Some(n) => {
                    return SetupPlan::UseFallback {
                        node_name: n.clone(),
                        name: sources[j].name.clone(),
                    };
                },
                None => {},
            }
        }
        j = j + 1;
    }
    assert(ss.skip(j as int) =~= Seq::<SourceView>::empty());
    SetupPlan::NoFallback
}

/// What `setup` does, given the listed sources and the saved selection.
pub fn plan_setup(sources: &Vec<Source>, selected: &Option<String>) -> (res: SetupPlan)
    ensures
        res@ == setup_plan(sources_view(sources@), selected.deep_view()),
{
    let ghost ss = sources_view(sources@);
    let mut i: usize = 0;
    while i < sources.len()
        invariant
            i <= sources@.len(),
            ss == sources_view(sources@),
            forall|k: int| 0 <= k < i ==> (#[trigger] ss[k]).node_name != Some(MV7_NODE_NAME@),
        decreases sources@.len() - i,
    {
        if opt_is_str(&sources[i].node_name, MV7_NODE_NAME) {
            assert(ss[i as int].node_name == Some(MV7_NODE_NAME@));
            return SetupPlan::ConfigureMv7;
        }
        i = i + 1;
    }
    if opt_is_str(selected, MV7_NODE_NAME) || selected.is_none() {
        fallback_plan(sources)
    } else {
        SetupPlan::KeepCurrent
    }
}

// ---------------------------------------------------------------------------
// `select`: the microphone menu
// ---------------------------------------------------------------------------

pub const MENU_MARK_ACTIVE: &'static str = "* ";

pub const MENU_MARK_OTHER: &'static str = "  ";

/// The sources the menu offers: all but the noise filter's own nodes.
pub open spec fn menu_sources(ss: Seq<SourceView>) -> Seq<SourceView>
    decreases ss.len(),
{
    if ss.len() == 0 {
        Seq::empty()
    } else if is_filter_source(ss.last().name) {
        menu_sources(ss.drop_last())
    } else {
        menu_sources(ss.drop_last()).push(ss.last())
    }
}

/// A menu line: the source's name, marked when it is the active input.
pub open spec fn menu_line(s: SourceView, active: Option<Seq<char>>) -> Seq<char> {
    (if s.node_name is Some && s.node_name == active {
        MENU_MARK_ACTIVE@
    } else {
        MENU_MARK_OTHER@
    }) + s.name
}

/// The menu's lines, given the microphone currently in use (`active`, by
/// `node.name`).
pub fn menu_lines(sources: &Vec<Source>, active: &Option<String>) -> (res: Vec<String>)
    ensures
        res.deep_view() == menu_sources(sources_view(sources@)).map_values(
            |s: SourceView| menu_line(s, active.deep_view()),
        ),
{
    let ghost ss = sources_view(sources@);
    let ghost act = active.deep_view();
    let mut out: Vec<String> = Vec::new();
    let mut i: usize = 0;
    while i < sources.len()
        invariant
            i <= sources@.len(),
            ss == sources_view(sources@),
            act == active.deep_view(),
            out.deep_view() =~= menu_sources(ss.take(i as int)).map_values(
                |s: SourceView| menu_line(s, act),
            ),
        decreases sources@.len() - i,
    {
        let ghost before = out.deep_view();
        assert(ss.take(i + 1).drop_last() =~= ss.take(i as int));
        assert(ss.take(i + 1).last() == ss[i as int]);
        assert(ss[i as int] == sources@[i as int]@);
        if !is_filter_source_name(&sources[i].name) {
            let marked = match (&sources[i].node_name, active) {
                (Some(n), Some(a)) => crate::text::str_eq(n.as_str(), a.as_str()),
                _ => false,
            };
            let mut line = owned(
                if marked {
                    MENU_MARK_ACTIVE
                } else {
                    MENU_MARK_OTHER
                },
            );
            push_str(&mut line, sources[i].name.as_str());
            let ghost lv = line@;
            assert(lv == menu_line(ss[i as int], act));
            out.push(line);
            assert(out.deep_view() =~= before.push(lv));
            assert(menu_sources(ss.take(i + 1)) =~= menu_sources(ss.take(i as int)).push(
                ss[i as int],
            ));
        } else {
            assert(menu_sources(ss.take(i + 1)) =~= menu_sources(ss.take(i as int)));
        }
        i = i + 1;
    }
    assert(ss.take(i as int) =~= ss);
    out
}

/// What `select` does with the menu's answer.
pub enum SelectPlan {
    /// Nothing was chosen.
    Cancelled,
    /// No offered source has the chosen name.
    NoMatch { display_name: String },
    /// The chosen source's `node.name` is unknown.
    NoNodeName { name: String },
    /// Noise suppression is on: move the filter's input to this microphone.
    SwitchFilterInput { node_name: String, name: String },
    /// Noise suppression is off: save this microphone as selected and make
    /// the node `id` the default source.
    UseDirectly { node_name: String, id: u32, name: String },
}

pub enum SelectPlanModel {
    Cancelled,
    NoMatch { display_name: Seq<char> },
    NoNodeName { name: Seq<char> },
    SwitchFilterInput { node_name: Seq<char>, name: Seq<char> },
    UseDirectly { node_name: Seq<char>, id: u32, name: Seq<char> },
}

impl View for SelectPlan {
    type V = SelectPlanModel;

    open spec fn view(&self) -> SelectPlanModel {
        match self {
            SelectPlan::Cancelled => SelectPlanModel::Cancelled,
            SelectPlan::NoMatch { display_name } => SelectPlanModel::NoMatch {
                display_name: display_name@,
            },
            SelectPlan::NoNodeName { name } => SelectPlanModel::NoNodeName { name: name@ },
            SelectPlan::SwitchFilterInput { node_name, name } => SelectPlanModel::SwitchFilterInput {
                node_name: node_name@,
                name: name@,
            },
            SelectPlan::UseDirectly { node_name, id, name } => SelectPlanModel::UseDirectly {
                node_name: node_name@,
                id: *id,
                name: name@,
            },
        }
    }
}

/// The first offered source named `name`.
pub open spec fn offered_named(ss: Seq<SourceView>, name: Seq<char>) -> Option<SourceView>
    decreases ss.len(),
{
    if ss.len() == 0 {
        None
    } else if !is_filter_source(ss[0].name) && ss[0].name == name {
        Some(ss[0])
    } else {
        offered_named(ss.drop_first(), name)
    }
}

/// The name in a menu answer: the answer trimmed, without its `*` marker.
pub open spec fn answer_name(answer: Seq<char>) -> Seq<char> {
    trim(strip_leading(trim(answer), '*'))
}

/// What `select` does, given the sources, the menu's answer and whether
/// noise suppression is enabled.
pub open spec fn select_plan(ss: Seq<SourceView>, answer: Seq<char>, noise_enabled: bool) -> SelectPlanModel {
    if trim(answer).len() == 0 {
        SelectPlanModel::Cancelled
    } else {
        match offered_named(ss, answer_name(answer)) {
            None => SelectPlanModel::NoMatch { display_name: answer_name(answer) },
            Some(s) => match s.node_name {
                None => SelectPlanModel::NoNodeName { name: s.name },
                Some(n) => if noise_enabled {
                    SelectPlanModel::SwitchFilterInput { node_name: n, name: s.name }
                } else {
                    SelectPlanModel::UseDirectly { node_name: n, id: s.id, name: s.name }
                },
            },
        }
    }
}

fn plan_for(s: &Source, noise_enabled: bool) -> (res: SelectPlan)
    ensures
        res@ == (match s@.node_name {
            None => SelectPlanModel::NoNodeName { name: s@.name },
            Some(n) => if noise_enabled {
                SelectPlanModel::SwitchFilterInput { node_name: n, name: s@.name }
            } else {
                SelectPlanModel::UseDirectly { node_name: n, id: s@.id, name: s@.name }
            },
        }),
{
    let name = s.name.clone();
    match &s.node_name {
        None => SelectPlan::NoNodeName { name },
        Some(n) => if noise_enabled {
            SelectPlan::SwitchFilterInput { node_name: n.clone(), name }
        } else {
            SelectPlan::UseDirectly { node_name: n.clone(), id: s.id, name }
        },
    }
}

/// What `select` does with the menu's answer.
pub fn plan_selection(sources: &Vec<Source>, answer: &str, noise_enabled: bool) -> (res:
    SelectPlan)
    ensures
        res@ == select_plan(sources_view(sources@), answer@, noise_enabled),
{
    let ghost ss = sources_view(sources@);
    let t = trim_str(answer);
    let tv = chars_of(t.as_str());
    if tv.len() == 0 {
        return SelectPlan::Cancelled;
    }
    let p = crate::text::strip_leading_bound(&tv, 0, tv.len(), '*');
    let (a, b) = crate::text::trim_bounds(&tv, p, tv.len());
    assert(tv@.subrange(0, tv@.len() as int) =~= tv@);
    let display = crate::text::string_of(&tv, a, b);
    assert(display@ == answer_name(answer@));
    let mut i: usize = 0;
    assert(ss.skip(0) =~= ss);
    while i < sources.len()
        invariant
            i <= sources@.len(),
            ss == sources_view(sources@),
            offered_named(ss, display@) == offered_named(ss.skip(i as int), display@),
            trim(answer@).len() > 0,
            display@ == answer_name(answer@),
        decreases sources@.len() - i,
    {
        assert(ss.skip(i as int)[0] == sources@[i as int]@);
        assert(ss.skip(i as int).drop_first() =~= ss.skip(i + 1));
        if !is_filter_source_name(&sources[i].name) && crate::text::str_eq(
            sources[i].name.as_str(),
            display.as_str(),
        ) {
            return plan_for(&sources[i], noise_enabled);
        }
        i = i + 1;
    }
    assert(ss.skip(i as int) =~= Seq::<SourceView>::empty());
    SelectPlan::NoMatch { display_name: display }
}


// ---------------------------------------------------------------------------
// Laws
// ---------------------------------------------------------------------------

proof fn lemma_ci_eq_self(w: Seq<char>)
    ensures
        ascii_ci_eq(w, w),
{
}

/// Each on word reads as on and each off word as off.
pub proof fn lemma_on_off_words(i: int)
    requires
        0 <= i < 4,
    ensures
        on_off_spec(ON_WORDS@[i]@) == Some(true),
        on_off_spec(OFF_WORDS@[i]@) == Some(false),
{
    reveal_strlit("on");
    reveal_strlit("true");
    reveal_strlit("1");
    reveal_strlit("yes");
    reveal_strlit("off");
    reveal_strlit("false");
    reveal_strlit("0");
    reveal_strlit("no");
    lemma_ci_eq_self(ON_WORDS@[i]@);
    lemma_ci_eq_self(OFF_WORDS@[i]@);
    let w = OFF_WORDS@[i]@;
    assert forall|j: int| 0 <= j < 4 implies !ascii_ci_eq(w, #[trigger] ON_WORDS@[j]@) by {
        let o = ON_WORDS@[j]@;
        if w.len() == o.len() {
            if i == 0 {
                assert(j == 3 || j == 1 || j == 2 || j == 0);
                assert(!crate::text::lower_char_matches(w[0], o[0]) || !crate::text::lower_char_matches(w[1], o[1]));
            } else if i == 1 {
                assert(!crate::text::lower_char_matches(w[0], o[0]));
            } else if i == 2 {
                assert(!crate::text::lower_char_matches(w[0], o[0]));
            } else {
                assert(!crate::text::lower_char_matches(w[1], o[1]));
            }
        }
    }
}

proof fn lemma_first_preferred_listed(ss: Seq<SourceView>)
    ensures
        first_preferred(ss) matches Some(s) ==> preferred_mic(s) && exists|k: int|
            0 <= k < ss.len() && #[trigger] ss[k] == s,
    decreases ss.len(),
{
    if ss.len() > 0 {
        lemma_first_preferred_listed(ss.drop_first());
        if let Some(s) = first_preferred(ss) {
            if !preferred_mic(ss[0]) {
                let k = choose|k: int| 0 <= k < ss.drop_first().len() && #[trigger] ss.drop_first()[k] == s;
                assert(ss[k + 1] == s);
            } else {
                assert(ss[0] == s);
            }
        }
    }
}

proof fn lemma_first_usable_listed(ss: Seq<SourceView>)
    ensures
        first_usable(ss) matches Some(s) ==> usable_mic(s) && exists|k: int|
            0 <= k < ss.len() && #[trigger] ss[k] == s,
    decreases ss.len(),
{
    if ss.len() > 0 {
        lemma_first_usable_listed(ss.drop_first());
        if let Some(s) = first_usable(ss) {
            if !usable_mic(ss[0]) {
                let k = choose|k: int| 0 <= k < ss.drop_first().len() && #[trigger] ss.drop_first()[k] == s;
                assert(ss[k + 1] == s);
            } else {
                assert(ss[0] == s);
            }
        }
    }
}

/// `setup` falls back only to a listed microphone with a known `node.name`
/// that is not one of the noise filter's own nodes, and only while the MV7
/// is not listed.
pub proof fn lemma_setup_fallback_is_real_mic(ss: Seq<SourceView>, selected: Option<Seq<char>>)
    ensures
        setup_plan(ss, selected) matches SetupPlanModel::UseFallback { node_name, name } ==> {
            &&& !mv7_listed(ss)
            &&& !is_filter_source(name)
            &&& exists|k: int|
                0 <= k < ss.len() && (#[trigger] ss[k]).node_name == Some(node_name)
                    && ss[k].name == name
        },
{
    lemma_first_preferred_listed(ss);
    lemma_first_usable_listed(ss);
}

proof fn lemma_offered_named_listed(ss: Seq<SourceView>, name: Seq<char>)
    ensures
        offered_named(ss, name) matches Some(s) ==> s.name == name && !is_filter_source(s.name)
            && exists|k: int| 0 <= k < ss.len() && #[trigger] ss[k] == s,
    decreases ss.len(),
{
    if ss.len() > 0 {
        lemma_offered_named_listed(ss.drop_first(), name);
        if let Some(s) = offered_named(ss, name) {
            if !(!is_filter_source(ss[0].name) && ss[0].name == name) {
                let k = choose|k: int| 0 <= k < ss.drop_first().len() && #[trigger] ss.drop_first()[k] == s;
                assert(ss[k + 1] == s);
            } else {
                assert(ss[0] == s);
            }
        }
    }
}

/// The microphone that `select` switches to is a listed source, not one of
/// the noise filter's own nodes, whose name is the menu's answer.
pub proof fn lemma_selection_names_listed_mic(
    ss: Seq<SourceView>,
    answer: Seq<char>,
    noise_enabled: bool,
)
    ensures
        select_plan(ss, answer, noise_enabled) matches SelectPlanModel::UseDirectly {
            node_name,
            id,
            name,
        } ==> name == answer_name(answer) && !is_filter_source(name) && exists|k: int|
            0 <= k < ss.len() && (#[trigger] ss[k]).id == id && ss[k].node_name == Some(node_name),
        select_plan(ss, answer, noise_enabled) matches SelectPlanModel::SwitchFilterInput {
            node_name,
            name,
        } ==> name == answer_name(answer) && !is_filter_source(name) && exists|k: int|
            0 <= k < ss.len() && (#[trigger] ss[k]).node_name == Some(node_name),
{
    lemma_offered_named_listed(ss, answer_name(answer));
}

/// The Waybar module shows the muted state in its icon and class exactly
/// when the default source is muted.
pub proof fn lemma_waybar_shows_mute(muted: bool, noise_enabled: bool)
    ensures
        (waybar_icon(muted) == ICON_MIC_MUTED@) == muted,
        (waybar_class(muted, noise_enabled) == STATE_MUTED@) == muted,
{
    reveal_strlit("\u{f130}");
    reveal_strlit("\u{f131}");
    reveal_strlit("muted");
    reveal_strlit("active");
    reveal_strlit("inactive");
    if !muted {
        assert(ICON_MIC@[0] != ICON_MIC_MUTED@[0]);
        if noise_enabled {
            assert(CLASS_ACTIVE@.len() != STATE_MUTED@.len());
        } else {
            assert(CLASS_INACTIVE@.len() != STATE_MUTED@.len());
        }
    }
}

/// The status report's noise line says `active` whenever the filter runs,
/// whether or not it is switched on; `enabled (not active)` only when it is
/// switched on but not running; `disabled` otherwise. While it is switched
/// on or running, the next line names the microphone in use.
pub proof fn lemma_status_shows_noise_state(
    ss: Seq<SourceView>,
    noise_enabled: bool,
    noise_active: bool,
    plugin_installed: bool,
    mv7_available: bool,
    input_mic: Seq<char>,
)
    ensures
        ({
            let r = status_report(
                ss,
                noise_enabled,
                noise_active,
                plugin_installed,
                mv7_available,
                input_mic,
            );
            &&& r.len() > 5
            &&& noise_active ==> r[4] == NOISE_LABEL@ + NOISE_ACTIVE@
            &&& noise_enabled && !noise_active ==> r[4] == NOISE_LABEL@ + NOISE_ENABLED_ONLY@
            &&& !noise_enabled && !noise_active ==> r[4] == NOISE_LABEL@ + NOISE_DISABLED@
            &&& noise_enabled || noise_active ==> r[5] == INPUT_LABEL@ + input_mic
        }),
{
}

/// Whether a source has a line in the `select` menu.
pub open spec fn offered_in_menu(s: SourceView) -> bool {
    !is_filter_source(s.name)
}

proof fn lemma_menu_sources_filter(ss: Seq<SourceView>, pred: spec_fn(SourceView) -> bool)
    requires
        forall|s: SourceView| #[trigger] pred(s) == offered_in_menu(s),
    ensures
        menu_sources(ss) == ss.filter(pred),
    decreases ss.len(),
{
    reveal(Seq::filter);
    if ss.len() > 0 {
        lemma_menu_sources_filter(ss.drop_last(), pred);
        assert(pred(ss.last()) == offered_in_menu(ss.last()));
    } else {
        assert(menu_sources(ss) =~= ss);
    }
}

/// The menu has one line per source that is not a node of the noise filter,
/// in the sources' order, whichever is the default or in use.
pub proof fn lemma_menu_lists_every_real_source(ss: Seq<SourceView>, active: Option<Seq<char>>)
    ensures
        menu_sources(ss) == ss.filter(|s: SourceView| offered_in_menu(s)),
        menu_sources(ss).map_values(|s: SourceView| menu_line(s, active)).len() == ss.filter(
            |s: SourceView| offered_in_menu(s),
        ).len(),
{
    let pred = |s: SourceView| offered_in_menu(s);
    lemma_menu_sources_filter(ss, pred);
}

} // verus!
