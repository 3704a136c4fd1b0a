//! Noise suppression through the DeepFilterNet filter chain: the filter's
//! configuration, the saved settings, what the PipeWire tools' output says
//! about the filter, and the procedures that turn it on, off, or onto
//! another microphone.
use vstd::prelude::*;
use crate::text::{
    chars_of, contains, contains_str_at, is_whitespace, line_bounds, lines, push_str,
    starts_with, starts_with_at, starts_with_str_at, str_contains, string_of, strip_leading_pat,
    strip_leading_pat_bound, trim, trim_bounds, trim_end, trim_start, trim_str,
};
use crate::pipewire::{
    line_id, opt_seq, wpctl_line_id, FILTER_CAPTURE_PORTS, LINKED_FROM, LINK_BAR,
};

verus! {

/// The filter's output node: the noise-suppressed microphone.
pub const FILTER_SOURCE: &'static str = "deepfilter_source";

/// The filter's capture node is named with this prefix.
pub const FILTER_CAPTURE_NODE: &'static str = "capture.deepfilter";

pub const FILTER_INPUT_PORTS: &'static str = "capture.deepfilter_source:input_";

pub const FILTER_INPUT_MONO: &'static str = "capture.deepfilter_source:input_MONO";

pub const FILTER_INPUT_FL: &'static str = "capture.deepfilter_source:input_FL";

pub const CAPTURE_PORT_MARK: &'static str = ":capture_";

pub const WORD_TRUE: &'static str = "true";

pub const WORD_FALSE: &'static str = "false";

// ---------------------------------------------------------------------------
// The filter-chain configuration
// ---------------------------------------------------------------------------

pub const FILTER_CONFIG_HEAD: &'static str = "context.modules = [
    {   name = libpipewire-module-filter-chain
        args = {
            node.description = \"Noise Cancelling Source\"
            media.name        = \"Noise Cancelling Source\"
            filter.graph = {
                nodes = [
                    {
                        type   = ladspa
                        name   = deepfilter
                        plugin = ";

pub const FILTER_CONFIG_TAIL: &'static str = "
                        label  = deep_filter_mono
                        control = {
                            \"Attenuation Limit (dB)\" 12
                        }
                    }
                ]
            }
            audio.rate = 48000
            audio.position = [MONO]
            capture.props = {
                node.name      = \"capture.deepfilter_source\"
                node.passive   = true
            }
            playback.props = {
                node.name    = \"deepfilter_source\"
                media.class  = Audio/Source
            }
        }
    }
]
";

/// The PipeWire configuration that loads DeepFilterNet, from the plugin at
/// `plugin_path`, as a filter-chain source.
pub fn filter_config(plugin_path: &str) -> (res: String)
    ensures
        res@ == FILTER_CONFIG_HEAD@ + plugin_path@ + FILTER_CONFIG_TAIL@,
{
    let mut out = String::new();
    push_str(&mut out, FILTER_CONFIG_HEAD);
    push_str(&mut out, plugin_path);
    push_str(&mut out, FILTER_CONFIG_TAIL);
    out
}

// ---------------------------------------------------------------------------
// Saved settings
// ---------------------------------------------------------------------------

/// Whether the saved enabled-state says the user wants noise suppression.
pub open spec fn enabled_in(contents: Option<Seq<char>>) -> bool {
    contents matches Some(s) && trim(s) == WORD_TRUE@
}

/// Whether noise suppression is enabled, given the contents of the saved
/// enabled-state (`None` where it could not be read).
pub fn is_enabled(contents: &Option<String>) -> (res: bool)
    ensures
        res == enabled_in(contents.deep_view()),
{
    match contents {
        Some(s) => {
            let t = trim_str(s.as_str());
            crate::text::str_eq(t.as_str(), WORD_TRUE)
        },
        None => false,
    }
}

pub open spec fn enabled_text(enabled: bool) -> Seq<char> {
    if enabled {
        WORD_TRUE@
    } else {
        WORD_FALSE@
    }
}

/// What is saved as the enabled-state.
pub fn enabled_state_text(enabled: bool) -> (res: &'static str)
    ensures
        res@ == enabled_text(enabled),
{
    if enabled {
        WORD_TRUE
    } else {
        WORD_FALSE
    }
}

/// The saved microphone: the saved text trimmed, if anything remains.
pub open spec fn selected_in(contents: Option<Seq<char>>) -> Option<Seq<char>> {
    match contents {
        Some(s) => if trim(s).len() > 0 {
            Some(trim(s))
        } else {
            None
        },
        None => None,
    }
}

/// The `node.name` of the microphone the user selected, given the contents
/// of the saved selection (`None` where it could not be read).
pub fn get_selected_mic(contents: &Option<String>) -> (res: Option<String>)
    ensures
        res.deep_view() == selected_in(contents.deep_view()),
{
    match contents {
        Some(s) => {
            let t = trim_str(s.as_str());
            let v = chars_of(t.as_str());
            if v.len() > 0 {
                Some(t)
            } else {
                None
            }
        },
        None => None,
    }
}

// ---------------------------------------------------------------------------
// What the PipeWire tools print
// ---------------------------------------------------------------------------

/// Whether `wpctl status` shows the filter's source.
pub open spec fn active_in(status: Seq<char>) -> bool {
    contains(status, FILTER_SOURCE@)
}

/// Whether the filter is running, given what `wpctl status` printed.
pub fn is_active(status: &str) -> (res: bool)
    ensures
        res == active_in(status@),
{
    str_contains(status, FILTER_SOURCE)
}

/// The ID of the first line that names the filter's source (and not its
/// capture node) and has an ID.
pub open spec fn filter_node_in(ls: Seq<Seq<char>>) -> Option<u32>
    decreases ls.len(),
{
    if ls.len() == 0 {
        None
    } else if contains(ls[0], FILTER_SOURCE@) && !contains(ls[0], FILTER_CAPTURE_NODE@)
        && line_id(ls[0]) is Some {
        line_id(ls[0])
    } else {
        filter_node_in(ls.drop_first())
    }
}

/// The node ID of the filter's source in what `wpctl status` printed.
pub fn find_filter_node_id(status: &str) -> (res: Option<u32>)
    ensures
        res == filter_node_in(lines(status@)),
{
    let v = chars_of(status);
    let bounds = line_bounds(&v);
    let ghost ls = lines(v@);
    let mut i: usize = 0;
    assert(ls.skip(0) =~= ls);
    while i < bounds.len()
        invariant
            i <= bounds@.len(),
            ls == lines(v@),
            v@ == status@,
            bounds@.len() == ls.len(),
            forall|k: int|
                0 <= k < bounds@.len() ==> {
                    &&& (#[trigger] bounds@[k]).0 <= bounds@[k].1 <= v@.len()
                    &&& v@.subrange(bounds@[k].0 as int, bounds@[k].1 as int) == ls[k]
                },
            filter_node_in(ls) == filter_node_in(ls.skip(i as int)),
        decreases bounds@.len() - i,
    {
        let (lo, hi) = bounds[i];
        assert(ls.skip(i as int)[0] == ls[i as int]);
        assert(ls.skip(i as int).drop_first() =~= ls.skip(i + 1));
        if contains_str_at(&v, lo, hi, FILTER_SOURCE) && !contains_str_at(
            &v,
            lo,
            hi,
            FILTER_CAPTURE_NODE,
        ) {
            let id = wpctl_line_id(&v, lo, hi);
            if id.is_some() {
                return id;
            }
        }
        i = i + 1;
    }
    assert(ls.skip(i as int) =~= Seq::<Seq<char>>::empty());
    None
}

/// The IDs that the lines give, in order, skipping lines without one.
pub open spec fn ids_in(ls: Seq<Seq<char>>) -> Seq<u32>
    decreases ls.len(),
{
    if ls.len() == 0 {
        Seq::empty()
    } else {
        opt_seq(line_id(ls[0])) + ids_in(ls.drop_first())
    }
}

/// Every node ID in what `wpctl status` printed, in order.
pub fn status_ids(status: &str) -> (res: Vec<u32>)
    ensures
        res@ == ids_in(lines(status@)),
{
    let v = chars_of(status);
    let bounds = line_bounds(&v);
    let ghost ls = lines(v@);
    let mut out: Vec<u32> = Vec::new();
    let mut i: usize = 0;
    assert(ls.skip(0) =~= ls);
    assert(out@ + ids_in(ls) =~= ids_in(ls));
    while i < bounds.len()
        invariant
            i <= bounds@.len(),
            ls == lines(v@),
            v@ == status@,
            bounds@.len() == ls.len(),
            forall|k: int|
                0 <= k < bounds@.len() ==> {
                    &&& (#[trigger] bounds@[k]).0 <= bounds@[k].1 <= v@.len()
                    &&& v@.subrange(bounds@[k].0 as int, bounds@[k].1 as int) == ls[k]
                },
            ids_in(lines(status@)) == out@ + ids_in(ls.skip(i as int)),
        decreases bounds@.len() - i,
    {
        let (lo, hi) = bounds[i];
        let ghost before = out@;
        assert(ls.skip(i as int)[0] == ls[i as int]);
        assert(ls.skip(i as int).drop_first() =~= ls.skip(i + 1));
        match wpctl_line_id(&v, lo, hi) {
            Some(id) => {
                out.push(id);
            },
            None => {},
        }
        assert(out@ + ids_in(ls.skip(i + 1)) =~= before + ids_in(ls.skip(i as int)));
        i = i + 1;
    }
    assert(ls.skip(i as int) =~= Seq::<Seq<char>>::empty());
    assert(out@ + Seq::<u32>::empty() =~= out@);
    out
}

/// Whether some line starts with `p`.
pub open spec fn some_line_starts(ls: Seq<Seq<char>>, p: Seq<char>) -> bool {
    exists|k: int| 0 <= k < ls.len() && starts_with(#[trigger] ls[k], p)
}

/// Whether `pw-link -o` lists an output port of the node `node_name`.
pub fn has_output_port(outputs: &str, node_name: &str) -> (res: bool)
    ensures
        res == some_line_starts(lines(outputs@), node_name@),
{
    let v = chars_of(outputs);
    let bounds = line_bounds(&v);
    let ghost ls = lines(v@);
    let p = chars_of(node_name);
    let mut i: usize = 0;
    while i < bounds.len()
        invariant
            i <= bounds@.len(),
            ls == lines(v@),
            v@ == outputs@,
            p@ == node_name@,
            bounds@.len() == ls.len(),
            forall|k: int|
                0 <= k < bounds@.len() ==> {
                    &&& (#[trigger] bounds@[k]).0 <= bounds@[k].1 <= v@.len()
                    &&& v@.subrange(bounds@[k].0 as int, bounds@[k].1 as int) == ls[k]
                },
            forall|k: int| 0 <= k < i ==> !starts_with(#[trigger] ls[k], p@),
        decreases bounds@.len() - i,
    {
        let (lo, hi) = bounds[i];
        if starts_with_at(&v, lo, hi, &p) {
            assert(starts_with(ls[i as int], p@));
            return true;
        }
        i = i + 1;
    }
    false
}

/// The first line that starts with `p` and contains `q`.
pub open spec fn first_line_with(ls: Seq<Seq<char>>, p: Seq<char>, q: Seq<char>) -> Option<
    Seq<char>,
>
    decreases ls.len(),
{
    if ls.len() == 0 {
        None
    } else if starts_with(ls[0], p) && contains(ls[0], q) {
        Some(ls[0])
    } else {
        first_line_with(ls.drop_first(), p, q)
    }
}

fn find_line_with(text: &str, p: &str, q: &str) -> (res: Option<String>)
    ensures
        res.deep_view() == first_line_with(lines(text@), p@, q@),
{
    let v = chars_of(text);
    let bounds = line_bounds(&v);
    let ghost ls = lines(v@);
    let pv = chars_of(p);
    let qv = chars_of(q);
    let mut i: usize = 0;
    assert(ls.skip(0) =~= ls);
    while i < bounds.len()
        invariant
            i <= bounds@.len(),
            ls == lines(v@),
            v@ == text@,
            pv@ == p@,
            qv@ == q@,
            bounds@.len() == ls.len(),
            forall|k: int|
                0 <= k < bounds@.len() ==> {
                    &&& (#[trigger] bounds@[k]).0 <= bounds@[k].1 <= v@.len()
                    &&& v@.subrange(bounds@[k].0 as int, bounds@[k].1 as int) == ls[k]
                },
            first_line_with(ls, p@, q@) == first_line_with(ls.skip(i as int), p@, q@),
        decreases bounds@.len() - i,
    {
        let (lo, hi) = bounds[i];
        assert(ls.skip(i as int)[0] == ls[i as int]);
        assert(ls.skip(i as int).drop_first() =~= ls.skip(i + 1));
        if starts_with_at(&v, lo, hi, &pv) && crate::text::contains_at(&v, lo, hi, &qv) {
            return Some(string_of(&v, lo, hi));
        }
        i = i + 1;
    }
    assert(ls.skip(i as int) =~= Seq::<Seq<char>>::empty());
    None
}

/// The first capture port of the node `node_name` that `pw-link -o` lists.
pub fn capture_port(outputs: &str, node_name: &str) -> (res: Option<String>)
    ensures
        res.deep_view() == first_line_with(lines(outputs@), node_name@, CAPTURE_PORT_MARK@),
{
    find_line_with(outputs, node_name, CAPTURE_PORT_MARK)
}

/// The filter's input port that `pw-link -i` lists first, or its mono
/// input where it lists none.
pub open spec fn filter_input_port_in(inputs: Seq<char>) -> Seq<char> {
    match first_line_with(lines(inputs), FILTER_INPUT_PORTS@, Seq::empty()) {
        Some(l) => l,
        None => FILTER_INPUT_MONO@,
    }
}

/// The filter's input port to link a microphone to, given `pw-link -i`.
pub fn filter_input_port(inputs: &str) -> (res: String)
    ensures
        res@ == filter_input_port_in(inputs@),
{
    proof {
        reveal_strlit("");
    }
    assert(""@ =~= Seq::<char>::empty());
    match find_line_with(inputs, FILTER_INPUT_PORTS, "") {
        Some(l) => l,
        None => {
            let mut out = String::new();
            push_str(&mut out, FILTER_INPUT_MONO);
            out
        },
    }
}

/// The ports that `pw-link -l` shows feeding a port of the filter's capture
/// node: after each such port, its first link only.
pub open spec fn feeding_ports_in(ls: Seq<Seq<char>>, under: bool) -> Seq<Seq<char>>
    decreases ls.len(),
{
    if ls.len() == 0 {
        Seq::empty()
    } else {
        let t = trim(ls[0]);
        if starts_with(t, FILTER_CAPTURE_PORTS@) {
            feeding_ports_in(ls.drop_first(), true)
        } else if under && starts_with(t, LINKED_FROM@) {
            seq![trim(strip_leading_pat(t, LINKED_FROM@))] + feeding_ports_in(
                ls.drop_first(),
                false,
            )
        } else {
            feeding_ports_in(ls.drop_first(), under && starts_with(t, LINK_BAR@))
        }
    }
}

/// The ports to unlink from the filter's input, given `pw-link -l`.
pub fn feeding_ports(links: &str) -> (res: Vec<String>)
    ensures
        res.deep_view() == feeding_ports_in(lines(links@), false),
{
    let v = chars_of(links);
    let bounds = line_bounds(&v);
    let ghost ls = lines(v@);
    let arrow = chars_of(LINKED_FROM);
    proof {
        reveal_strlit("|<-");
    }
    let mut out: Vec<String> = Vec::new();
    let mut under = false;
    let mut i: usize = 0;
    assert(ls.skip(0) =~= ls);
    assert(out.deep_view() + feeding_ports_in(ls, false) =~= feeding_ports_in(ls, false));
    while i < bounds.len()
        invariant
            i <= bounds@.len(),
            ls == lines(v@),
            v@ == links@,
            arrow@ == LINKED_FROM@,
            arrow@.len() > 0,
            bounds@.len() == ls.len(),
            forall|k: int|
                0 <= k < bounds@.len() ==> {
                    &&& (#[trigger] bounds@[k]).0 <= bounds@[k].1 <= v@.len()
                    &&& v@.subrange(bounds@[k].0 as int, bounds@[k].1 as int) == ls[k]
                },
            feeding_ports_in(lines(links@), false) == out.deep_view() + feeding_ports_in(
                ls.skip(i as int),
                under,
            ),
        decreases bounds@.len() - i,
    {
        let (lo, hi) = bounds[i];
        let ghost before = out.deep_view();
        let ghost was_under = under;
        assert(ls.skip(i as int)[0] == ls[i as int]);
        assert(ls.skip(i as int).drop_first() =~= ls.skip(i + 1));
        let (t0, t1) = trim_bounds(&v, lo, hi);
        if starts_with_str_at(&v, t0, t1, FILTER_CAPTURE_PORTS) {
            under = true;
        } else if under && starts_with_str_at(&v, t0, t1, LINKED_FROM) {
            let s0 = strip_leading_pat_bound(&v, t0, t1, &arrow);
            let (p0, p1) = trim_bounds(&v, s0, t1);
            out.push(string_of(&v, p0, p1));
            under = false;
            assert(out.deep_view() =~= before.push(v@.subrange(p0 as int, p1 as int)));
        } else {
            under = under && starts_with_str_at(&v, t0, t1, LINK_BAR);
        }
        assert(out.deep_view() + feeding_ports_in(ls.skip(i + 1), under) =~= before
            + feeding_ports_in(ls.skip(i as int), was_under));
        i = i + 1;
    }
    assert(ls.skip(i as int) =~= Seq::<Seq<char>>::empty());
    assert(out.deep_view() + Seq::<Seq<char>>::empty() =~= out.deep_view());
    out
}


// ---------------------------------------------------------------------------
// Enabling, disabling and switching the filter's input
// ---------------------------------------------------------------------------

pub const ERR_NOT_INSTALLED: &'static str =
    "DeepFilterNet not installed. Download from: https://github.com/Rikorose/DeepFilterNet/releases";

pub const ERR_NOT_LOADED: &'static str =
    "Filter not loaded. Please restart PipeWire once: systemctl --user restart pipewire pipewire-pulse";

pub const ERR_FILTER_NODE: &'static str = "Filter node not found";

pub const NODE_QUOTE_OPEN: &'static str = "Node '";

pub const NOT_FOUND_CLOSE: &'static str = "' not found";

pub const NO_WPCTL_ID: &'static str = "Could not find wpctl ID for '";

pub const NO_CAPTURE_PORT: &'static str = "No capture port found for '";

pub const QUOTE_CLOSE: &'static str = "'";

pub open spec fn err_node_not_found(node: Seq<char>) -> Seq<char> {
    NODE_QUOTE_OPEN@ + node + NOT_FOUND_CLOSE@
}

pub open spec fn err_no_wpctl_id(node: Seq<char>) -> Seq<char> {
    NO_WPCTL_ID@ + node + QUOTE_CLOSE@
}

pub open spec fn err_no_capture_port(node: Seq<char>) -> Seq<char> {
    NO_CAPTURE_PORT@ + node + QUOTE_CLOSE@
}

/// What a procedure asks the caller to do next.
pub enum NoiseAction {
    /// Whether the DeepFilterNet plugin is installed.
    CheckPluginInstalled,
    /// Whether the filter configuration file exists.
    CheckConfigExists,
    /// Write `filter_config` for the installed plugin to the configuration file.
    WriteConfig,
    /// Save `enabled_state_text` of this as the enabled-state.
    SaveEnabled(bool),
    /// Save this `node.name` as the selected microphone.
    SaveSelectedMic(String),
    /// Read the saved selected microphone.
    LoadSelectedMic,
    /// Run `wpctl status`.
    WpctlStatus,
    /// Run `pw-link -o`.
    ListOutputPorts,
    /// Run `pw-link -i`.
    ListInputPorts,
    /// Run `pw-link -l`.
    ListLinks,
    /// Run `pw-cli info` on this node ID.
    NodeInfo(u32),
    /// Run `wpctl set-default` on this node ID.
    SetDefault(u32),
    /// Run `pw-link -d` on this output port and input port.
    Unlink(String, String),
    /// Run `pw-link` on this output port and input port.
    Link(String, String),
    /// The procedure is over, with this result.
    Finish(Result<(), String>),
}

/// What came of the caller's work.
pub enum NoiseEvent {
    /// The answer to a check.
    Checked(bool),
    /// A write or a command that prints nothing: whether it succeeded, or
    /// its error message.
    Done(Result<(), String>),
    /// What was read, `None` where reading failed.
    Loaded(Option<String>),
    /// What a command printed, or the error message if it could not run.
    Output(Result<String, String>),
}

/// Where a procedure stands.
pub enum NoiseFlow {
    CheckPlugin,
    CheckConfig,
    WriteConfig,
    SaveEnabled,
    CheckActive,
    FindFilterNode,
    SaveDisabled,
    LoadSelected,
    SourceStatus { node: String },
    SourcePorts { node: String, status: String },
    ProbeSource { node: String, ids: Vec<u32>, next: usize },
    SaveSelected { node: String },
    CheckInputActive { node: String },
    ListLinks { node: String },
    Unlinking { node: String, unlinks: Vec<(String, String)>, next: usize },
    ListOutputs { node: String },
    ListInputs { node: String, capture: Option<String> },
    SetDefault(u32),
    Link { port: String, input: String },
    Finished(Result<(), String>),
}

pub enum NoiseActionModel {
    CheckPluginInstalled,
    CheckConfigExists,
    WriteConfig,
    SaveEnabled(bool),
    SaveSelectedMic(Seq<char>),
    LoadSelectedMic,
    WpctlStatus,
    ListOutputPorts,
    ListInputPorts,
    ListLinks,
    NodeInfo(u32),
    SetDefault(u32),
    Unlink(Seq<char>, Seq<char>),
    Link(Seq<char>, Seq<char>),
    Finish(Result<(), Seq<char>>),
}

pub enum NoiseEventModel {
    Checked(bool),
    Done(Result<(), Seq<char>>),
    Loaded(Option<Seq<char>>),
    Output(Result<Seq<char>, Seq<char>>),
}

pub enum NoiseFlowModel {
    CheckPlugin,
    CheckConfig,
    WriteConfig,
    SaveEnabled,
    CheckActive,
    FindFilterNode,
    SaveDisabled,
    LoadSelected,
    SourceStatus { node: Seq<char> },
    SourcePorts { node: Seq<char>, status: Seq<char> },
    ProbeSource { node: Seq<char>, ids: Seq<u32>, next: int },
    SaveSelected { node: Seq<char> },
    CheckInputActive { node: Seq<char> },
    ListLinks { node: Seq<char> },
    Unlinking { node: Seq<char>, unlinks: Seq<(Seq<char>, Seq<char>)>, next: int },
    ListOutputs { node: Seq<char> },
    ListInputs { node: Seq<char>, capture: Option<Seq<char>> },
    SetDefault(u32),
    Link { port: Seq<char>, input: Seq<char> },
    Finished(Result<(), Seq<char>>),
}

pub open spec fn unit_result_view(r: Result<(), String>) -> Result<(), Seq<char>> {
    match r {
        Ok(()) => Ok(()),
        Err(e) => Err(e@),
    }
}

pub open spec fn pairs_view(v: Seq<(String, String)>) -> Seq<(Seq<char>, Seq<char>)> {
    v.map_values(|p: (String, String)| (p.0@, p.1@))
}

impl View for NoiseAction {
    type V = NoiseActionModel;

    open spec fn view(&self) -> NoiseActionModel {
        match self {
            NoiseAction::CheckPluginInstalled => NoiseActionModel::CheckPluginInstalled,
            NoiseAction::CheckConfigExists => NoiseActionModel::CheckConfigExists,
            NoiseAction::WriteConfig => NoiseActionModel::WriteConfig,
            NoiseAction::SaveEnabled(b) => NoiseActionModel::SaveEnabled(*b),
            NoiseAction::SaveSelectedMic(n) => NoiseActionModel::SaveSelectedMic(n@),
            NoiseAction::LoadSelectedMic => NoiseActionModel::LoadSelectedMic,
            NoiseAction::WpctlStatus => NoiseActionModel::WpctlStatus,
            NoiseAction::ListOutputPorts => NoiseActionModel::ListOutputPorts,
            NoiseAction::ListInputPorts => NoiseActionModel::ListInputPorts,
            NoiseAction::ListLinks => NoiseActionModel::ListLinks,
            NoiseAction::NodeInfo(id) => NoiseActionModel::NodeInfo(*id),
            NoiseAction::SetDefault(id) => NoiseActionModel::SetDefault(*id),
            NoiseAction::Unlink(a, b) => NoiseActionModel::Unlink(a@, b@),
            NoiseAction::Link(a, b) => NoiseActionModel::Link(a@, b@),
            NoiseAction::Finish(r) => NoiseActionModel::Finish(unit_result_view(*r)),
        }
    }
}

impl View for NoiseEvent {
    type V = NoiseEventModel;

    open spec fn view(&self) -> NoiseEventModel {
        match self {
            NoiseEvent::Checked(b) => NoiseEventModel::Checked(*b),
            NoiseEvent::Done(r) => NoiseEventModel::Done(unit_result_view(*r)),
            NoiseEvent::Loaded(c) => NoiseEventModel::Loaded(c.deep_view()),
            NoiseEvent::Output(r) => NoiseEventModel::Output(
                match r {
                    Ok(t) => Ok(t@),
                    Err(e) => Err(e@),
                },
            ),
        }
    }
}

impl View for NoiseFlow {
    type V = NoiseFlowModel;

    open spec fn view(&self) -> NoiseFlowModel {
        match self {
            NoiseFlow::CheckPlugin => NoiseFlowModel::CheckPlugin,
            NoiseFlow::CheckConfig => NoiseFlowModel::CheckConfig,
            NoiseFlow::WriteConfig => NoiseFlowModel::WriteConfig,
            NoiseFlow::SaveEnabled => NoiseFlowModel::SaveEnabled,
            NoiseFlow::CheckActive => NoiseFlowModel::CheckActive,
            NoiseFlow::FindFilterNode => NoiseFlowModel::FindFilterNode,
            NoiseFlow::SaveDisabled => NoiseFlowModel::SaveDisabled,
            NoiseFlow::LoadSelected => NoiseFlowModel::LoadSelected,
            NoiseFlow::SourceStatus { node } => NoiseFlowModel::SourceStatus { node: node@ },
            NoiseFlow::SourcePorts { node, status } => NoiseFlowModel::SourcePorts {
                node: node@,
                status: status@,
            },
            NoiseFlow::ProbeSource { node, ids, next } => NoiseFlowModel::ProbeSource {
                node: node@,
                ids: ids@,
                next: *next as int,
            },
            NoiseFlow::SaveSelected { node } => NoiseFlowModel::SaveSelected { node: node@ },
            NoiseFlow::CheckInputActive { node } => NoiseFlowModel::CheckInputActive {
                node: node@,
            },
            NoiseFlow::ListLinks { node } => NoiseFlowModel::ListLinks { node: node@ },
            NoiseFlow::Unlinking { node, unlinks, next } => NoiseFlowModel::Unlinking {
                node: node@,
                unlinks: pairs_view(unlinks@),
                next: *next as int,
            },
            NoiseFlow::ListOutputs { node } => NoiseFlowModel::ListOutputs { node: node@ },
            NoiseFlow::ListInputs { node, capture } => NoiseFlowModel::ListInputs {
                node: node@,
                capture: capture.deep_view(),
            },
            NoiseFlow::SetDefault(id) => NoiseFlowModel::SetDefault(*id),
            NoiseFlow::Link { port, input } => NoiseFlowModel::Link {
                port: port@,
                input: input@,
            },
            NoiseFlow::Finished(r) => NoiseFlowModel::Finished(unit_result_view(*r)),
        }
    }
}

/// Each port that feeds the filter is unlinked from its mono input and from
/// its front-left input, in that order.
pub open spec fn unlink_pairs(ports: Seq<Seq<char>>) -> Seq<(Seq<char>, Seq<char>)>
    decreases ports.len(),
{
    if ports.len() == 0 {
        Seq::empty()
    } else {
        seq![(ports[0], FILTER_INPUT_MONO@), (ports[0], FILTER_INPUT_FL@)] + unlink_pairs(
            ports.drop_first(),
        )
    }
}

/// What each stage asks the caller to do.
pub open spec fn flow_pending(s: NoiseFlowModel) -> NoiseActionModel {
    match s {
        NoiseFlowModel::CheckPlugin => NoiseActionModel::CheckPluginInstalled,
        NoiseFlowModel::CheckConfig => NoiseActionModel::CheckConfigExists,
        NoiseFlowModel::WriteConfig => NoiseActionModel::WriteConfig,
        NoiseFlowModel::SaveEnabled => NoiseActionModel::SaveEnabled(true),
        NoiseFlowModel::CheckActive => NoiseActionModel::WpctlStatus,
        NoiseFlowModel::FindFilterNode => NoiseActionModel::WpctlStatus,
        NoiseFlowModel::SaveDisabled => NoiseActionModel::SaveEnabled(false),
        NoiseFlowModel::LoadSelected => NoiseActionModel::LoadSelectedMic,
        NoiseFlowModel::SourceStatus { .. } => NoiseActionModel::WpctlStatus,
        NoiseFlowModel::SourcePorts { .. } => NoiseActionModel::ListOutputPorts,
        NoiseFlowModel::ProbeSource { node, ids, next } => if 0 <= next < ids.len() {
            NoiseActionModel::NodeInfo(ids[next])
        } else {
            NoiseActionModel::Finish(Err(err_no_wpctl_id(node)))
        },
        NoiseFlowModel::SaveSelected { node } => NoiseActionModel::SaveSelectedMic(node),
        NoiseFlowModel::CheckInputActive { .. } => NoiseActionModel::WpctlStatus,
        NoiseFlowModel::ListLinks { .. } => NoiseActionModel::ListLinks,
        NoiseFlowModel::Unlinking { unlinks, next, .. } => if 0 <= next < unlinks.len() {
            NoiseActionModel::Unlink(unlinks[next].0, unlinks[next].1)
        } else {
            NoiseActionModel::ListOutputPorts
        },
        NoiseFlowModel::ListOutputs { .. } => NoiseActionModel::ListOutputPorts,
        NoiseFlowModel::ListInputs { .. } => NoiseActionModel::ListInputPorts,
        NoiseFlowModel::SetDefault(id) => NoiseActionModel::SetDefault(id),
        NoiseFlowModel::Link { port, input } => NoiseActionModel::Link(port, input),
        NoiseFlowModel::Finished(r) => NoiseActionModel::Finish(r),
    }
}

/// A step that succeeded leads on; one that failed ends the procedure with
/// its error.
pub open spec fn on_done(r: Result<(), Seq<char>>, then: NoiseFlowModel) -> NoiseFlowModel {
    match r {
        Ok(()) => then,
        Err(e) => NoiseFlowModel::Finished(Err(e)),
    }
}

/// The stage after the filter's input ports are listed with `o`.
pub open spec fn after_outputs(node: Seq<char>, o: Result<Seq<char>, Seq<char>>) -> NoiseFlowModel {
    match o {
        Ok(outs) => NoiseFlowModel::ListInputs {
            node,
            capture: first_line_with(lines(outs), node, CAPTURE_PORT_MARK@),
        },
        Err(e) => NoiseFlowModel::Finished(Err(e)),
    }
}

/// The next candidate node after the one at `next`, or the end of the search.
pub open spec fn probe_on(node: Seq<char>, ids: Seq<u32>, next: int) -> NoiseFlowModel {
    if next < ids.len() - 1 {
        NoiseFlowModel::ProbeSource { node, ids, next: next + 1 }
    } else {
        NoiseFlowModel::Finished(Err(err_no_wpctl_id(node)))
    }
}

/// The stage after `e` happened in stage `s`. An event that does not answer
/// the stage's request leaves the stage as it was.
pub open spec fn flow_next(s: NoiseFlowModel, e: NoiseEventModel) -> NoiseFlowModel {
    match (s, e) {
        (NoiseFlowModel::CheckPlugin, NoiseEventModel::Checked(installed)) => if installed {
            NoiseFlowModel::CheckConfig
        } else {
            NoiseFlowModel::Finished(Err(ERR_NOT_INSTALLED@))
        },
        (NoiseFlowModel::CheckConfig, NoiseEventModel::Checked(exists)) => if exists {
            NoiseFlowModel::SaveEnabled
        } else {
            NoiseFlowModel::WriteConfig
        },
        (NoiseFlowModel::WriteConfig, NoiseEventModel::Done(r)) => on_done(
            r,
            NoiseFlowModel::SaveEnabled,
        ),
        (NoiseFlowModel::SaveEnabled, NoiseEventModel::Done(r)) => on_done(
            r,
            NoiseFlowModel::CheckActive,
        ),
        (NoiseFlowModel::CheckActive, NoiseEventModel::Output(o)) => match o {
            Ok(status) => if active_in(status) {
                NoiseFlowModel::FindFilterNode
            } else {
                NoiseFlowModel::Finished(Err(ERR_NOT_LOADED@))
            },
            Err(_) => NoiseFlowModel::Finished(Err(ERR_NOT_LOADED@)),
        },
        (NoiseFlowModel::FindFilterNode, NoiseEventModel::Output(o)) => match o {
            Ok(status) => match filter_node_in(lines(status)) {
                Some(id) => NoiseFlowModel::SetDefault(id),
                None => NoiseFlowModel::Finished(Err(ERR_FILTER_NODE@)),
            },
            Err(e) => NoiseFlowModel::Finished(Err(e)),
        },
        (NoiseFlowModel::SaveDisabled, NoiseEventModel::Done(r)) => on_done(
            r,
            NoiseFlowModel::LoadSelected,
        ),
        (NoiseFlowModel::LoadSelected, NoiseEventModel::Loaded(c)) => match selected_in(c) {
            Some(node) => NoiseFlowModel::SourceStatus { node },
            None => NoiseFlowModel::Finished(Ok(())),
        },
        (NoiseFlowModel::SourceStatus { node }, NoiseEventModel::Output(o)) => match o {
            Ok(status) => NoiseFlowModel::SourcePorts { node, status },
            Err(e) => NoiseFlowModel::Finished(Err(e)),
        },
        (NoiseFlowModel::SourcePorts { node, status }, NoiseEventModel::Output(o)) => match o {
            Ok(outs) => if !some_line_starts(lines(outs), node) {
                NoiseFlowModel::Finished(Err(err_node_not_found(node)))
            } else if ids_in(lines(status)).len() == 0 {
                NoiseFlowModel::Finished(Err(err_no_wpctl_id(node)))
            } else {
                NoiseFlowModel::ProbeSource { node, ids: ids_in(lines(status)), next: 0 }
            },
            Err(e) => NoiseFlowModel::Finished(Err(e)),
        },
        (NoiseFlowModel::ProbeSource { node, ids, next }, e) => if !(0 <= next < ids.len()) {
            NoiseFlowModel::Finished(Err(err_no_wpctl_id(node)))
        } else {
            match e {
                NoiseEventModel::Output(Ok(info)) => if contains(info, node) {
                    NoiseFlowModel::SetDefault(ids[next])
                } else {
                    probe_on(node, ids, next)
                },
                NoiseEventModel::Output(Err(_)) => probe_on(node, ids, next),
                _ => s,
            }
        },
        (NoiseFlowModel::SaveSelected { node }, NoiseEventModel::Done(r)) => on_done(
            r,
            NoiseFlowModel::CheckInputActive { node },
        ),
        (NoiseFlowModel::CheckInputActive { node }, NoiseEventModel::Output(o)) => match o {
            Ok(status) => if active_in(status) {
                NoiseFlowModel::ListLinks { node }
            } else {
                NoiseFlowModel::Finished(Ok(()))
            },
            Err(_) => NoiseFlowModel::Finished(Ok(())),
        },
        (NoiseFlowModel::ListLinks { node }, NoiseEventModel::Output(o)) => match o {
            Ok(links) => {
                let u = unlink_pairs(feeding_ports_in(lines(links), false));
                if u.len() > 0 {
                    NoiseFlowModel::Unlinking { node, unlinks: u, next: 0 }
                } else {
                    NoiseFlowModel::ListOutputs { node }
                }
            },
            Err(e) => NoiseFlowModel::Finished(Err(e)),
        },
        (NoiseFlowModel::Unlinking { node, unlinks, next }, e) => if !(0 <= next
            < unlinks.len()) {
            match e {
                NoiseEventModel::Output(o) => after_outputs(node, o),
                _ => s,
            }
        } else {
            match e {
                NoiseEventModel::Done(_) => if next + 1 < unlinks.len() {
                    NoiseFlowModel::Unlinking { node, unlinks, next: next + 1 }
                } else {
                    NoiseFlowModel::ListOutputs { node }
                },
                _ => s,
            }
        },
        (NoiseFlowModel::ListOutputs { node }, NoiseEventModel::Output(o)) => after_outputs(
            node,
            o,
        ),
        (NoiseFlowModel::ListInputs { node, capture }, NoiseEventModel::Output(o)) => match o {
            Ok(inputs) => match capture {
                Some(port) => NoiseFlowModel::Link {
                    port,
                    input: filter_input_port_in(inputs),
                },
                None => NoiseFlowModel::Finished(Err(err_no_capture_port(node))),
            },
            Err(e) => NoiseFlowModel::Finished(Err(e)),
        },
        (NoiseFlowModel::SetDefault(_), NoiseEventModel::Done(r)) => on_done(
            r,
            NoiseFlowModel::Finished(Ok(())),
        ),
        (NoiseFlowModel::Link { .. }, NoiseEventModel::Done(r)) => on_done(
            r,
            NoiseFlowModel::Finished(Ok(())),
        ),
        _ => s,
    }
}


fn quoted_error(open: &str, node: &str, close: &str) -> (res: String)
    ensures
        res@ == open@ + node@ + close@,
{
    let mut out = String::new();
    push_str(&mut out, open);
    push_str(&mut out, node);
    push_str(&mut out, close);
    out
}

fn error_text(s: &str) -> (res: String)
    ensures
        res@ == s@,
{
    let mut out = String::new();
    push_str(&mut out, s);
    out
}

fn unlink_pairs_of(ports: Vec<String>) -> (res: Vec<(String, String)>)
    ensures
        pairs_view(res@) == unlink_pairs(ports.deep_view()),
{
    let mut out: Vec<(String, String)> = Vec::new();
    let mut i: usize = 0;
    let ghost pv = ports.deep_view();
    assert(pv.skip(0) =~= pv);
    assert(pairs_view(out@) + unlink_pairs(pv) =~= unlink_pairs(pv));
    while i < ports.len()
        invariant
            i <= ports@.len(),
            pv == ports.deep_view(),
            unlink_pairs(pv) == pairs_view(out@) + unlink_pairs(pv.skip(i as int)),
        decreases ports@.len() - i,
    {
        let ghost before = pairs_view(out@);
        assert(pv.skip(i as int)[0] == ports@[i as int]@);
        assert(pv.skip(i as int).drop_first() =~= pv.skip(i + 1));
        out.push((ports[i].clone(), error_text(FILTER_INPUT_MONO)));
        out.push((ports[i].clone(), error_text(FILTER_INPUT_FL)));
        assert(pairs_view(out@) =~= before + seq![
            (ports@[i as int]@, FILTER_INPUT_MONO@),
            (ports@[i as int]@, FILTER_INPUT_FL@),
        ]);
        assert(pairs_view(out@) + unlink_pairs(pv.skip(i + 1)) =~= before + unlink_pairs(
            pv.skip(i as int),
        ));
        i = i + 1;
    }
    assert(pv.skip(i as int) =~= Seq::<Seq<char>>::empty());
    assert(pairs_view(out@) + Seq::<(Seq<char>, Seq<char>)>::empty() =~= pairs_view(out@));
    out
}

fn result_clone(r: &Result<(), String>) -> (res: Result<(), String>)
    ensures
        unit_result_view(res) == unit_result_view(*r),
{
    match r {
        Ok(()) => Ok(()),
        Err(e) => Err(e.clone()),
    }
}

fn on_done_exec(r: Result<(), String>, then: NoiseFlow) -> (res: NoiseFlow)
    ensures
        res@ == on_done(unit_result_view(r), then@),
{
    match r {
        Ok(()) => then,
        Err(e) => NoiseFlow::Finished(Err(e)),
    }
}

fn after_outputs_exec(node: String, o: Result<String, String>) -> (res: NoiseFlow)
    ensures
        res@ == after_outputs(
            node@,
            match o {
                Ok(t) => Ok(t@),
                Err(e) => Err(e@),
            },
        ),
{
    match o {
        Ok(outs) => {
            let capture = capture_port(outs.as_str(), node.as_str());
            NoiseFlow::ListInputs { node, capture }
        },
        Err(e) => NoiseFlow::Finished(Err(e)),
    }
}

fn probe_on_exec(node: String, ids: Vec<u32>, next: usize) -> (res: NoiseFlow)
    requires
        next < ids@.len(),
    ensures
        res@ == probe_on(node@, ids@, next as int),
{
    if next < ids.len() - 1 {
        NoiseFlow::ProbeSource { node, ids, next: next + 1 }
    } else {
        let e = quoted_error(NO_WPCTL_ID, node.as_str(), QUOTE_CLOSE);
        NoiseFlow::Finished(Err(e))
    }
}

/// Turns noise suppression on: installs the filter's configuration if it is
/// missing, saves the enabled-state, and makes the running filter's source
/// the default source.
pub fn enable() -> (res: NoiseFlow)
    ensures
        res@ == NoiseFlowModel::CheckPlugin,
{
    NoiseFlow::CheckPlugin
}

/// Turns noise suppression off: saves the enabled-state and makes the
/// selected microphone, if one is saved, the default source again.
pub fn disable() -> (res: NoiseFlow)
    ensures
        res@ == NoiseFlowModel::SaveDisabled,
{
    NoiseFlow::SaveDisabled
}

/// Selects the microphone `node_name`: saves the selection and, while the
/// filter runs, moves the filter's input to that microphone.
pub fn set_input(node_name: &str) -> (res: NoiseFlow)
    ensures
        res@ == (NoiseFlowModel::SaveSelected { node: node_name@ }),
{
    let mut node = String::new();
    push_str(&mut node, node_name);
    NoiseFlow::SaveSelected { node }
}

/// Toggles noise suppression: turns it off while it is enabled, on
/// otherwise.
pub fn toggle(enabled: bool) -> (res: NoiseFlow)
    ensures
        res@ == if enabled {
            NoiseFlowModel::SaveDisabled
        } else {
            NoiseFlowModel::CheckPlugin
        },
{
    if enabled {
        disable()
    } else {
        enable()
    }
}

impl NoiseFlow {
    /// What this stage asks the caller to do.
    pub fn action(&self) -> (res: NoiseAction)
        ensures
            res@ == flow_pending(self@),
    {
        match self {
            NoiseFlow::CheckPlugin => NoiseAction::CheckPluginInstalled,
            NoiseFlow::CheckConfig => NoiseAction::CheckConfigExists,
            NoiseFlow::WriteConfig => NoiseAction::WriteConfig,
            NoiseFlow::SaveEnabled => NoiseAction::SaveEnabled(true),
            NoiseFlow::CheckActive => NoiseAction::WpctlStatus,
            NoiseFlow::FindFilterNode => NoiseAction::WpctlStatus,
            NoiseFlow::SaveDisabled => NoiseAction::SaveEnabled(false),
            NoiseFlow::LoadSelected => NoiseAction::LoadSelectedMic,
            NoiseFlow::SourceStatus { .. } => NoiseAction::WpctlStatus,
            NoiseFlow::SourcePorts { .. } => NoiseAction::ListOutputPorts,
            NoiseFlow::ProbeSource { node, ids, next } => {
                if *next < ids.len() {
                    NoiseAction::NodeInfo(ids[*next])
                } else {
                    NoiseAction::Finish(Err(quoted_error(NO_WPCTL_ID, node.as_str(), QUOTE_CLOSE)))
                }
            },
            NoiseFlow::SaveSelected { node } => NoiseAction::SaveSelectedMic(node.clone()),
            NoiseFlow::CheckInputActive { .. } => NoiseAction::WpctlStatus,
            NoiseFlow::ListLinks { .. } => NoiseAction::ListLinks,
            NoiseFlow::Unlinking { unlinks, next, .. } => {
                if *next < unlinks.len() {
                    let (a, b) = &unlinks[*next];
                    NoiseAction::Unlink(a.clone(), b.clone())
                } else {
                    NoiseAction::ListOutputPorts
                }
            },
            NoiseFlow::ListOutputs { .. } => NoiseAction::ListOutputPorts,
            NoiseFlow::ListInputs { .. } => NoiseAction::ListInputPorts,
            NoiseFlow::SetDefault(id) => NoiseAction::SetDefault(*id),
            NoiseFlow::Link { port, input } => NoiseAction::Link(port.clone(), input.clone()),
            NoiseFlow::Finished(r) => NoiseAction::Finish(result_clone(r)),
        }
    }

    /// The stage that follows `event`.
    pub fn step(self, event: NoiseEvent) -> (res: NoiseFlow)
        ensures
            res@ == flow_next(self@, event@),
    {
        match self {
            NoiseFlow::CheckPlugin => match event {
                NoiseEvent::Checked(installed) => {
                    if installed {
                        NoiseFlow::CheckConfig
                    } else {
                        NoiseFlow::Finished(Err(error_text(ERR_NOT_INSTALLED)))
                    }
                },
                _ => NoiseFlow::CheckPlugin,
            },
            NoiseFlow::CheckConfig => match event {
                NoiseEvent::Checked(exists) => {
                    if exists {
                        NoiseFlow::SaveEnabled
                    } else {
                        NoiseFlow::WriteConfig
                    }
                },
                _ => NoiseFlow::CheckConfig,
            },
            NoiseFlow::WriteConfig => match event {
                NoiseEvent::Done(r) => on_done_exec(r, NoiseFlow::SaveEnabled),
                _ => NoiseFlow::WriteConfig,
            },
            NoiseFlow::SaveEnabled => match event {
                NoiseEvent::Done(r) => on_done_exec(r, NoiseFlow::CheckActive),
                _ => NoiseFlow::SaveEnabled,
            },
            NoiseFlow::CheckActive => match event {
                NoiseEvent::Output(Ok(status)) => {
                    if is_active(status.as_str()) {
                        NoiseFlow::FindFilterNode
                    } else {
                        NoiseFlow::Finished(Err(error_text(ERR_NOT_LOADED)))
                    }
                },
                NoiseEvent::Output(Err(_)) => NoiseFlow::Finished(Err(error_text(ERR_NOT_LOADED))),
                _ => NoiseFlow::CheckActive,
            },
            NoiseFlow::FindFilterNode => match event {
                NoiseEvent::Output(Ok(status)) => match find_filter_node_id(status.as_str()) {
                    Some(id) => NoiseFlow::SetDefault(id),
                    None => NoiseFlow::Finished(Err(error_text(ERR_FILTER_NODE))),
                },
                NoiseEvent::Output(Err(e)) => NoiseFlow::Finished(Err(e)),
                _ => NoiseFlow::FindFilterNode,
            },
            NoiseFlow::SaveDisabled => match event {
                NoiseEvent::Done(r) => on_done_exec(r, NoiseFlow::LoadSelected),
                _ => NoiseFlow::SaveDisabled,
            },
            NoiseFlow::LoadSelected => match event {
                NoiseEvent::Loaded(c) => match get_selected_mic(&c) {
                    Some(node) => NoiseFlow::SourceStatus { node },
                    None => NoiseFlow::Finished(Ok(())),
                },
                _ => NoiseFlow::LoadSelected,
            },
            NoiseFlow::SourceStatus { node } => match event {
                NoiseEvent::Output(Ok(status)) => NoiseFlow::SourcePorts { node, status },
                NoiseEvent::Output(Err(e)) => NoiseFlow::Finished(Err(e)),
                _ => NoiseFlow::SourceStatus { node },
            },
            NoiseFlow::SourcePorts { node, status } => match event {
                NoiseEvent::Output(Ok(outs)) => {
                    if !has_output_port(outs.as_str(), node.as_str()) {
                        NoiseFlow::Finished(
                            Err(quoted_error(NODE_QUOTE_OPEN, node.as_str(), NOT_FOUND_CLOSE)),
                        )
                    } else {
                        let ids = status_ids(status.as_str());
                        if ids.len() == 0 {
                            NoiseFlow::Finished(
                                Err(quoted_error(NO_WPCTL_ID, node.as_str(), QUOTE_CLOSE)),
                            )
                        } else {
                            NoiseFlow::ProbeSource { node, ids, next: 0 }
                        }
                    }
                },
                NoiseEvent::Output(Err(e)) => NoiseFlow::Finished(Err(e)),
                _ => NoiseFlow::SourcePorts { node, status },
            },
            NoiseFlow::ProbeSource { node, ids, next } => {
                if next >= ids.len() {
                    NoiseFlow::Finished(Err(quoted_error(NO_WPCTL_ID, node.as_str(), QUOTE_CLOSE)))
                } else {
                    match event {
                        NoiseEvent::Output(Ok(info)) => {
                            if str_contains(info.as_str(), node.as_str()) {
                                NoiseFlow::SetDefault(ids[next])
                            } else {
                                probe_on_exec(node, ids, next)
                            }
                        },
                        NoiseEvent::Output(Err(_)) => probe_on_exec(node, ids, next),
                        _ => NoiseFlow::ProbeSource { node, ids, next },
                    }
                }
            },
            NoiseFlow::SaveSelected { node } => match event {
                NoiseEvent::Done(r) => on_done_exec(r, NoiseFlow::CheckInputActive { node }),
                _ => NoiseFlow::SaveSelected { node },
            },
            NoiseFlow::CheckInputActive { node } => match event {
                NoiseEvent::Output(Ok(status)) => {
                    if is_active(status.as_str()) {
                        NoiseFlow::ListLinks { node }
                    } else {
                        NoiseFlow::Finished(Ok(()))
                    }
                },
                NoiseEvent::Output(Err(_)) => NoiseFlow::Finished(Ok(())),
                _ => NoiseFlow::CheckInputActive { node },
            },
            NoiseFlow::ListLinks { node } => match event {
                NoiseEvent::Output(Ok(links)) => {
                    let unlinks = unlink_pairs_of(feeding_ports(links.as_str()));
                    if unlinks.len() > 0 {
                        NoiseFlow::Unlinking { node, unlinks, next: 0 }
                    } else {
                        NoiseFlow::ListOutputs { node }
                    }
                },
                NoiseEvent::Output(Err(e)) => NoiseFlow::Finished(Err(e)),
                _ => NoiseFlow::ListLinks { node },
            },
            NoiseFlow::Unlinking { node, unlinks, next } => {
                if next >= unlinks.len() {
                    match event {
                        NoiseEvent::Output(o) => after_outputs_exec(node, o),
                        _ => NoiseFlow::Unlinking { node, unlinks, next },
                    }
                } else {
                    match event {
                        NoiseEvent::Done(_) => {
                            if next + 1 < unlinks.len() {
                                NoiseFlow::Unlinking { node, unlinks, next: next + 1 }
                            } else {
                                NoiseFlow::ListOutputs { node }
                            }
                        },
                        _ => NoiseFlow::Unlinking { node, unlinks, next },
                    }
                }
            },
            NoiseFlow::ListOutputs { node } => match event {
                NoiseEvent::Output(o) => after_outputs_exec(node, o),
                _ => NoiseFlow::ListOutputs { node },
            },
            NoiseFlow::ListInputs { node, capture } => match event {
                NoiseEvent::Output(Ok(inputs)) => match capture {
                    Some(port) => NoiseFlow::Link {
                        port,
                        input: filter_input_port(inputs.as_str()),
                    },
                    None => NoiseFlow::Finished(
                        Err(quoted_error(NO_CAPTURE_PORT, node.as_str(), QUOTE_CLOSE)),
                    ),
                },
                NoiseEvent::Output(Err(e)) => NoiseFlow::Finished(Err(e)),
                _ => NoiseFlow::ListInputs { node, capture },
            },
            NoiseFlow::SetDefault(id) => match event {
                NoiseEvent::Done(r) => on_done_exec(r, NoiseFlow::Finished(Ok(()))),
                _ => NoiseFlow::SetDefault(id),
            },
            NoiseFlow::Link { port, input } => match event {
                NoiseEvent::Done(r) => on_done_exec(r, NoiseFlow::Finished(Ok(()))),
                _ => NoiseFlow::Link { port, input },
            },
            NoiseFlow::Finished(r) => NoiseFlow::Finished(r),
        }
    }
}


// ---------------------------------------------------------------------------
// Laws
// ---------------------------------------------------------------------------

/// The enabled-state that is saved reads back as what was saved.
pub proof fn lemma_enabled_state_reads_back(enabled: bool)
    ensures
        enabled_in(Some(enabled_text(enabled))) == enabled,
{
    reveal_strlit("true");
    reveal_strlit("false");
    let t = enabled_text(enabled);
    assert(t.len() > 0 && !is_whitespace(t[0]));
    assert(trim_start(t) == t);
    assert(!is_whitespace(t.last()));
    assert(trim_end(t) == t);
    if !enabled {
        assert(t.len() != WORD_TRUE@.len());
    }
}

proof fn lemma_trim_end_keeps_start(s: Seq<char>)
    requires
        s.len() > 0,
        !is_whitespace(s[0]),
    ensures
        0 < trim_end(s).len() <= s.len(),
        trim_end(s)[0] == s[0],
        trim_end(s) == s.take(trim_end(s).len() as int),
    decreases s.len(),
{
    if is_whitespace(s.last()) {
        assert(s.len() > 1);
        assert(s.drop_last()[0] == s[0]);
        lemma_trim_end_keeps_start(s.drop_last());
        assert(s.drop_last().take(trim_end(s).len() as int) =~= s.take(
            trim_end(s).len() as int,
        ));
    } else {
        assert(s.take(s.len() as int) =~= s);
    }
}

proof fn lemma_trim_end_idempotent(s: Seq<char>)
    ensures
        trim_end(trim_end(s)) == trim_end(s),
    decreases s.len(),
{
    if s.len() > 0 && is_whitespace(s.last()) {
        lemma_trim_end_idempotent(s.drop_last());
    }
}

proof fn lemma_trim_start_no_lead(s: Seq<char>)
    ensures
        trim_start(s).len() == 0 || !is_whitespace(trim_start(s)[0]),
    decreases s.len(),
{
    if s.len() > 0 && is_whitespace(s[0]) {
        lemma_trim_start_no_lead(s.drop_first());
    }
}

/// Trimming twice is trimming once.
pub proof fn lemma_trim_idempotent(s: Seq<char>)
    ensures
        trim(trim(s)) == trim(s),
{
    let x = trim_start(s);
    lemma_trim_start_no_lead(s);
    if x.len() > 0 {
        lemma_trim_end_keeps_start(x);
        assert(!is_whitespace(trim_end(x)[0]));
        assert(trim_start(trim_end(x)) == trim_end(x));
    } else {
        assert(trim_end(x) == x);
        assert(trim_start(trim_end(x)) == trim_end(x));
    }
    lemma_trim_end_idempotent(x);
}

/// A selected microphone is never empty and never has surrounding
/// whitespace; a `node.name` that has neither is read back as saved.
pub proof fn lemma_selected_mic_reads_back(contents: Option<Seq<char>>, node: Seq<char>)
    ensures
        selected_in(contents) matches Some(m) ==> m.len() > 0 && trim(m) == m,
        node.len() > 0 && trim(node) == node ==> selected_in(Some(node)) == Some(node),
{
    if let Some(c) = contents {
        lemma_trim_idempotent(c);
    }
}

/// Whether `e` answers the request `a`.
pub open spec fn answers(a: NoiseActionModel, e: NoiseEventModel) -> bool {
    match a {
        NoiseActionModel::CheckPluginInstalled => e is Checked,
        NoiseActionModel::CheckConfigExists => e is Checked,
        NoiseActionModel::WriteConfig => e is Done,
        NoiseActionModel::SaveEnabled(_) => e is Done,
        NoiseActionModel::SaveSelectedMic(_) => e is Done,
        NoiseActionModel::LoadSelectedMic => e is Loaded,
        NoiseActionModel::WpctlStatus => e is Output,
        NoiseActionModel::ListOutputPorts => e is Output,
        NoiseActionModel::ListInputPorts => e is Output,
        NoiseActionModel::ListLinks => e is Output,
        NoiseActionModel::NodeInfo(_) => e is Output,
        NoiseActionModel::SetDefault(_) => e is Done,
        NoiseActionModel::Unlink(_, _) => e is Done,
        NoiseActionModel::Link(_, _) => e is Done,
        NoiseActionModel::Finish(_) => false,
    }
}

/// How far a stage is from the end: steps left before the last loop, then
/// the rounds left in it.
pub open spec fn flow_rank(s: NoiseFlowModel) -> (nat, nat) {
    match s {
        NoiseFlowModel::Finished(_) => (0, 0),
        NoiseFlowModel::SetDefault(_) => (1, 0),
        NoiseFlowModel::Link { .. } => (1, 0),
        NoiseFlowModel::ProbeSource { ids, next, .. } => (
            2,
            if 0 <= next < ids.len() {
                (ids.len() - next) as nat
            } else {
                0
            },
        ),
        NoiseFlowModel::ListInputs { .. } => (2, 0),
        NoiseFlowModel::FindFilterNode => (2, 0),
        NoiseFlowModel::ListOutputs { .. } => (3, 0),
        NoiseFlowModel::SourcePorts { .. } => (3, 0),
        NoiseFlowModel::CheckActive => (3, 0),
        NoiseFlowModel::Unlinking { unlinks, next, .. } => (
            4,
            if 0 <= next < unlinks.len() {
                (unlinks.len() - next) as nat
            } else {
                0
            },
        ),
        NoiseFlowModel::SourceStatus { .. } => (4, 0),
        NoiseFlowModel::SaveEnabled => (4, 0),
        NoiseFlowModel::ListLinks { .. } => (5, 0),
        NoiseFlowModel::LoadSelected => (5, 0),
        NoiseFlowModel::WriteConfig => (5, 0),
        NoiseFlowModel::CheckInputActive { .. } => (6, 0),
        NoiseFlowModel::SaveDisabled => (6, 0),
        NoiseFlowModel::CheckConfig => (6, 0),
        NoiseFlowModel::SaveSelected { .. } => (7, 0),
        NoiseFlowModel::CheckPlugin => (7, 0),
    }
}

pub open spec fn rank_below(a: (nat, nat), b: (nat, nat)) -> bool {
    a.0 < b.0 || (a.0 == b.0 && a.1 < b.1)
}

/// Every procedure ends: each answered request brings it strictly closer to
/// its end, and only a finished procedure asks for nothing.
pub proof fn lemma_flow_progress(s: NoiseFlowModel, e: NoiseEventModel)
    requires
        answers(flow_pending(s), e),
    ensures
        rank_below(flow_rank(flow_next(s, e)), flow_rank(s)),
{
}

/// Only a finished procedure reports a result.
pub proof fn lemma_finish_only_when_finished(s: NoiseFlowModel)
    ensures
        flow_pending(s) is Finish <==> (s is Finished || (s matches NoiseFlowModel::ProbeSource {
            ids,
            next,
            ..
        } && !(0 <= next < ids.len()))),
{
}

proof fn lemma_filter_node_found(ls: Seq<Seq<char>>)
    ensures
        filter_node_in(ls) matches Some(id) ==> exists|k: int|
            0 <= k < ls.len() && contains(#[trigger] ls[k], FILTER_SOURCE@) && !contains(
                ls[k],
                FILTER_CAPTURE_NODE@,
            ) && line_id(ls[k]) == Some(id),
    decreases ls.len(),
{
    if ls.len() > 0 {
        lemma_filter_node_found(ls.drop_first());
        if let Some(id) = filter_node_in(ls) {
            if !(contains(ls[0], FILTER_SOURCE@) && !contains(ls[0], FILTER_CAPTURE_NODE@)
                && line_id(ls[0]) is Some) {
                let k = choose|k: int|
                    0 <= k < ls.drop_first().len() && contains(
                        #[trigger] ls.drop_first()[k],
                        FILTER_SOURCE@,
                    ) && !contains(ls.drop_first()[k], FILTER_CAPTURE_NODE@) && line_id(
                        ls.drop_first()[k],
                    ) == Some(id);
                assert(ls[k + 1] == ls.drop_first()[k]);
            } else {
                assert(ls[0] == ls[0]);
            }
        }
    }
}

/// Turning noise suppression on makes the default source the node of a
/// `wpctl status` line that names the filter's source.
pub proof fn lemma_enable_defaults_to_filter(status: Seq<char>, id: u32)
    requires
        flow_next(NoiseFlowModel::FindFilterNode, NoiseEventModel::Output(Ok(status)))
            == NoiseFlowModel::SetDefault(id),
    ensures
        exists|k: int|
            0 <= k < lines(status).len() && contains(#[trigger] lines(status)[k], FILTER_SOURCE@)
                && !contains(lines(status)[k], FILTER_CAPTURE_NODE@) && line_id(lines(status)[k])
                == Some(id),
{
    lemma_filter_node_found(lines(status));
}

/// Turning noise suppression off makes the default source a node whose
/// `pw-cli info` names the selected microphone.
pub proof fn lemma_disable_defaults_to_selected(
    node: Seq<char>,
    ids: Seq<u32>,
    next: int,
    info: Seq<char>,
    id: u32,
)
    requires
        flow_next(
            NoiseFlowModel::ProbeSource { node, ids, next },
            NoiseEventModel::Output(Ok(info)),
        ) == NoiseFlowModel::SetDefault(id),
    ensures
        contains(info, node),
        0 <= next < ids.len() && ids[next] == id,
{
}

proof fn lemma_first_line_with_props(ls: Seq<Seq<char>>, p: Seq<char>, q: Seq<char>)
    ensures
        first_line_with(ls, p, q) matches Some(l) ==> starts_with(l, p) && contains(l, q),
    decreases ls.len(),
{
    if ls.len() > 0 {
        lemma_first_line_with_props(ls.drop_first(), p, q);
    }
}

/// Switching the filter's input links a capture port of the selected
/// microphone, and nothing else, to the filter.
pub proof fn lemma_set_input_links_selected_mic(
    node: Seq<char>,
    outs: Seq<char>,
    inputs: Seq<char>,
    port: Seq<char>,
    input: Seq<char>,
)
    requires
        flow_next(
            flow_next(NoiseFlowModel::ListOutputs { node }, NoiseEventModel::Output(Ok(outs))),
            NoiseEventModel::Output(Ok(inputs)),
        ) == (NoiseFlowModel::Link { port, input }),
    ensures
        starts_with(port, node),
        contains(port, CAPTURE_PORT_MARK@),
        input == filter_input_port_in(inputs),
{
    lemma_first_line_with_props(lines(outs), node, CAPTURE_PORT_MARK@);
}


/// A procedure succeeds only when its last command (setting the default
/// source, or linking the microphone to the filter) succeeded, or when
/// there was nothing left to do: no microphone was saved to restore, or the
/// filter is not running to be relinked.
pub proof fn lemma_success_needs_last_command(s: NoiseFlowModel, e: NoiseEventModel)
    requires
        flow_next(s, e) == NoiseFlowModel::Finished(Ok(())),
        s != NoiseFlowModel::Finished(Ok(())),
    ensures
        ({
            ||| (s is SetDefault || s is Link) && e matches NoiseEventModel::Done(Ok(_))
            ||| s is LoadSelected && (e matches NoiseEventModel::Loaded(c) && selected_in(c) is None)
            ||| s is CheckInputActive && (e matches NoiseEventModel::Output(o) && !(o matches Ok(
                status,
            ) && active_in(status)))
        }),
{
}

} // verus!
