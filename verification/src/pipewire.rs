//! Reading PipeWire's state out of the text that `wpctl status`,
//! `pw-cli info` and `pw-link -l` print: the audio sources, a node's
//! `node.name`, and the microphone that feeds the noise filter.
use vstd::prelude::*;
use crate::text::{
    chars_of, equals_str_at, find_char, find_char_at, line_bounds, lines,
    parse_u32, parse_u32_at, rfind_char, rfind_char_at, starts_with, starts_with_str_at,
    string_of, strip_both, strip_leading, strip_leading_bound, strip_leading_pat,
    strip_leading_pat_bound, strip_trailing_bound, trim, trim_bounds,
};

verus! {

/// An audio source (or filter) that `wpctl status` lists.
pub struct Source {
    pub id: u32,
    pub name: String,
    pub node_name: Option<String>,
    pub is_default: bool,
}

pub struct SourceView {
    pub id: u32,
    pub name: Seq<char>,
    pub node_name: Option<Seq<char>>,
    pub is_default: bool,
}

impl View for Source {
    type V = SourceView;

    open spec fn view(&self) -> SourceView {
        SourceView {
            id: self.id,
            name: self.name@,
            node_name: self.node_name.deep_view(),
            is_default: self.is_default,
        }
    }
}

pub open spec fn sources_view(ss: Seq<Source>) -> Seq<SourceView> {
    ss.map_values(|s: Source| s@)
}

// ---------------------------------------------------------------------------
// Box-drawing characters
// ---------------------------------------------------------------------------

/// The box-drawing characters with which `wpctl status` draws its tree.
pub open spec fn is_box_drawing(c: char) -> bool {
    let u = c as u32;
    ||| u == 0x2502
    ||| u == 0x251C
    ||| u == 0x2514
    ||| u == 0x2500
    ||| u == 0x252C
    ||| u == 0x2524
    ||| u == 0x2518
    ||| u == 0x2510
    ||| u == 0x250C
    ||| u == 0x253C
}

pub open spec fn unbox_char(c: char) -> char {
    if is_box_drawing(c) {
        ' '
    } else {
        c
    }
}

/// A line with its box-drawing characters replaced by spaces.
pub open spec fn unbox(s: Seq<char>) -> Seq<char> {
    s.map_values(|c: char| unbox_char(c))
}

fn unbox_char_of(c: char) -> (res: char)
    ensures
        res == unbox_char(c),
{
    let u = c as u32;
    if u == 0x2502 || u == 0x251C || u == 0x2514 || u == 0x2500 || u == 0x252C || u == 0x2524
        || u == 0x2518 || u == 0x2510 || u == 0x250C || u == 0x253C {
        ' '
    } else {
        c
    }
}

/// `unbox(v[lo..hi])`, as a new vector.
pub fn unbox_range(v: &Vec<char>, lo: usize, hi: usize) -> (res: Vec<char>)
    requires
        lo <= hi <= v@.len(),
    ensures
        res@ == unbox(v@.subrange(lo as int, hi as int)),
{
    let mut out: Vec<char> = Vec::new();
    let mut i = lo;
    while i < hi
        invariant
            lo <= i <= hi <= v@.len(),
            out@ =~= unbox(v@.subrange(lo as int, i as int)),
        decreases hi - i,
    {
        out.push(unbox_char_of(v[i]));
        i = i + 1;
    }
    out
}

/// Replaces each box-drawing character of `line` with a space.
pub fn strip_box_drawing(line: &str) -> (res: String)
    ensures
        res@ == unbox(line@),
{
    let v = chars_of(line);
    let u = unbox_range(&v, 0, v.len());
    assert(v@.subrange(0, v@.len() as int) =~= v@);
    string_of(&u, 0, u.len())
}

// ---------------------------------------------------------------------------
// Entries of `wpctl status`
// ---------------------------------------------------------------------------

/// An entry line without its default marker: `ID. NAME [PROPERTIES]`.
pub open spec fn entry_body(t: Seq<char>) -> Seq<char> {
    trim(strip_leading(t, '*'))
}

/// The node ID that an entry line starts with.
pub open spec fn entry_id(t: Seq<char>) -> Option<u32> {
    let c = entry_body(t);
    match find_char(c, '.') {
        Some(d) => parse_u32(trim(c.take(d)), 10),
        None => None,
    }
}

/// The name that an entry line gives after its ID, without the bracketed
/// properties at its end.
pub open spec fn entry_name(t: Seq<char>) -> Seq<char> {
    let c = entry_body(t);
    match find_char(c, '.') {
        Some(d) => {
            let rest = trim(c.skip(d + 1));
            match rfind_char(rest, '[') {
                Some(b) => trim(rest.take(b)),
                None => rest,
            }
        },
        None => Seq::empty(),
    }
}

/// A line of `wpctl status` as it is compared: drawing removed, trimmed.
pub open spec fn line_text(line: Seq<char>) -> Seq<char> {
    trim(unbox(line))
}

/// The node ID that a line of `wpctl status` gives, if any.
pub open spec fn line_id(line: Seq<char>) -> Option<u32> {
    entry_id(line_text(line))
}

/// Reads `v[lo..hi]` as an entry line: its ID, and the bounds of its name
/// within `v`.
pub fn entry_at(v: &Vec<char>, lo: usize, hi: usize) -> (res: Option<(u32, usize, usize)>)
    requires
        lo <= hi <= v@.len(),
    ensures
        match res {
            Some((id, a, b)) => {
                &&& entry_id(v@.subrange(lo as int, hi as int)) == Some(id)
                &&& lo <= a <= b <= hi
                &&& v@.subrange(a as int, b as int) == entry_name(
                    v@.subrange(lo as int, hi as int),
                )
            },
            None => entry_id(v@.subrange(lo as int, hi as int)) is None,
        },
{
    let ghost t = v@.subrange(lo as int, hi as int);
    let p = strip_leading_bound(v, lo, hi, '*');
    let (c0, c1) = trim_bounds(v, p, hi);
    let ghost c = v@.subrange(c0 as int, c1 as int);
    assert(c == entry_body(t));
    match find_char_at(v, c0, c1, '.') {
        None => None,
        Some(d) => {
            assert(c.take(d - c0) =~= v@.subrange(c0 as int, d as int));
            let (i0, i1) = trim_bounds(v, c0, d);
            match parse_u32_at(v, i0, i1, 10) {
                None => None,
                Some(id) => {
                    assert(c.skip(d - c0 + 1) =~= v@.subrange(d + 1, c1 as int));
                    let (r0, r1) = trim_bounds(v, d + 1, c1);
                    let ghost rest = v@.subrange(r0 as int, r1 as int);
                    match rfind_char_at(v, r0, r1, '[') {
                        Some(b) => {
                            assert(rest.take(b - r0) =~= v@.subrange(r0 as int, b as int));
                            let (n0, n1) = trim_bounds(v, r0, b);
                            Some((id, n0, n1))
                        },
                        None => Some((id, r0, r1)),
                    }
                },
            }
        },
    }
}

/// The node ID that a line of `wpctl status` gives, if any.
pub fn wpctl_line_id(v: &Vec<char>, lo: usize, hi: usize) -> (res: Option<u32>)
    requires
        lo <= hi <= v@.len(),
    ensures
        res == line_id(v@.subrange(lo as int, hi as int)),
{
    let u = unbox_range(v, lo, hi);
    let (t0, t1) = trim_bounds(&u, 0, u.len());
    assert(u@.subrange(0, u@.len() as int) =~= u@);
    match entry_at(&u, t0, t1) {
        Some((id, _, _)) => Some(id),
        None => None,
    }
}

// ---------------------------------------------------------------------------
// Listing the sources
// ---------------------------------------------------------------------------

pub const HEADING_AUDIO: &'static str = "Audio";

pub const HEADING_VIDEO: &'static str = "Video";

pub const SECTION_SOURCES: &'static str = "Sources:";

pub const SECTION_FILTERS: &'static str = "Filters:";

pub const SECTION_SINKS: &'static str = "Sinks:";

pub const SECTION_STREAMS: &'static str = "Streams:";

pub const SECTION_DEVICES: &'static str = "Devices:";

pub const DASH: &'static str = "-";

pub const STAR: &'static str = "*";

/// Where the scan of `wpctl status` stands: inside the Audio part, inside
/// its Sources section, inside its Filters section.
pub open spec fn next_sections(st: (bool, bool, bool), t: Seq<char>) -> (bool, bool, bool) {
    if t == HEADING_AUDIO@ {
        (true, st.1, st.2)
    } else if t == HEADING_VIDEO@ {
        (false, false, false)
    } else if !st.0 {
        st
    } else if starts_with(t, SECTION_SOURCES@) {
        (true, true, false)
    } else if starts_with(t, SECTION_FILTERS@) {
        (true, false, true)
    } else if starts_with(t, SECTION_SINKS@) || starts_with(t, SECTION_STREAMS@) || starts_with(
        t,
        SECTION_DEVICES@,
    ) {
        (true, false, false)
    } else {
        st
    }
}

/// The source that a (drawing-free, trimmed) line lists, if any: an entry
/// with an ID and a non-empty name in the Sources or Filters section of the
/// Audio part. A leading `*` marks the default.
pub open spec fn listed_entry(st: (bool, bool, bool), t: Seq<char>) -> Option<SourceView> {
    if t == HEADING_AUDIO@ || t == HEADING_VIDEO@ || !st.0 || starts_with(t, SECTION_SOURCES@)
        || starts_with(t, SECTION_FILTERS@) || starts_with(t, SECTION_SINKS@) || starts_with(
        t,
        SECTION_STREAMS@,
    ) || starts_with(t, SECTION_DEVICES@) || t.len() == 0 || !(st.1 || st.2) || starts_with(
        t,
        DASH@,
    ) {
        None
    } else {
        match entry_id(t) {
            Some(id) => if entry_name(t).len() > 0 {
                Some(
                    SourceView {
                        id,
                        name: entry_name(t),
                        node_name: None,
                        is_default: starts_with(t, STAR@),
                    },
                )
            } else {
                None
            },
            None => None,
        }
    }
}

pub open spec fn opt_seq<A>(o: Option<A>) -> Seq<A> {
    match o {
        Some(a) => seq![a],
        None => Seq::empty(),
    }
}

/// The sources that the lines `ls` list, the scan starting in `st`.
pub open spec fn scan_sources(ls: Seq<Seq<char>>, st: (bool, bool, bool)) -> Seq<SourceView>
    decreases ls.len(),
{
    if ls.len() == 0 {
        Seq::empty()
    } else {
        let t = line_text(ls[0]);
        opt_seq(listed_entry(st, t)) + scan_sources(ls.drop_first(), next_sections(st, t))
    }
}

/// The sources that `wpctl status` lists, in order.
pub open spec fn listed_sources(status: Seq<char>) -> Seq<SourceView> {
    scan_sources(lines(status), (false, false, false))
}

/// Classifies one line of `wpctl status`: the sections after it, and the
/// source it lists, if any.
fn classify_line(v: &Vec<char>, lo: usize, hi: usize, st: (bool, bool, bool)) -> (res: (
    (bool, bool, bool),
    Option<Source>,
))
    requires
        lo <= hi <= v@.len(),
    ensures
        res.0 == next_sections(st, line_text(v@.subrange(lo as int, hi as int))),
        match res.1 {
            Some(s) => listed_entry(st, line_text(v@.subrange(lo as int, hi as int))) == Some(
                s@,
            ),
            None => listed_entry(st, line_text(v@.subrange(lo as int, hi as int))) is None,
        },
{
    let u = unbox_range(v, lo, hi);
    let (t0, t1) = trim_bounds(&u, 0, u.len());
    assert(u@.subrange(0, u@.len() as int) =~= u@);
    let ghost t = u@.subrange(t0 as int, t1 as int);
    assert(t == line_text(v@.subrange(lo as int, hi as int)));
    if equals_str_at(&u, t0, t1, HEADING_AUDIO) {
        return ((true, st.1, st.2), None);
    }
    if equals_str_at(&u, t0, t1, HEADING_VIDEO) {
        return ((false, false, false), None);
    }
    if !st.0 {
        return (st, None);
    }
    if starts_with_str_at(&u, t0, t1, SECTION_SOURCES) {
        return ((true, true, false), None);
    }
    if starts_with_str_at(&u, t0, t1, SECTION_FILTERS) {
        return ((true, false, true), None);
    }
    if starts_with_str_at(&u, t0, t1, SECTION_SINKS) || starts_with_str_at(
        &u,
        t0,
        t1,
        SECTION_STREAMS,
    ) || starts_with_str_at(&u, t0, t1, SECTION_DEVICES) {
        return ((true, false, false), None);
    }
    if t0 == t1 || !(st.1 || st.2) || starts_with_str_at(&u, t0, t1, DASH) {
        return (st, None);
    }
    let is_default = starts_with_str_at(&u, t0, t1, STAR);
    match entry_at(&u, t0, t1) {
        Some((id, a, b)) => {
            if a < b {
                let name = string_of(&u, a, b);
                (st, Some(Source { id, name, node_name: None, is_default }))
            } else {
                (st, None)
            }
        },
        None => (st, None),
    }
}

/// The audio sources and filters that `wpctl status` printed, in order;
/// their `node.name`s are not in that text and are left unknown.
pub fn list_sources(status: &str) -> (res: Vec<Source>)
    ensures
        sources_view(res@) == listed_sources(status@),
{
    let v = chars_of(status);
    let bounds = line_bounds(&v);
    let ghost ls = lines(v@);
    let mut out: Vec<Source> = Vec::new();
    let mut st = (false, false, false);
    let mut i: usize = 0;
    assert(ls.skip(0) =~= ls);
    assert(sources_view(out@) + scan_sources(ls, st) =~= scan_sources(ls, st));
    while i < bounds.len()
        invariant
            i <= bounds@.len(),
            ls == lines(v@),
            v@ == status@,
            bounds@.len() == ls.len(),
            forall|k: int|
                0 <= k < bounds@.len() ==> {
                    &&& (#[trigger] bounds@[k]).0 <= bounds@[k].1 <= v@.len()
                    &&& v@.subrange(bounds@[k].0 as int, bounds@[k].1 as int) == ls[k]
                },
            listed_sources(status@) == sources_view(out@) + scan_sources(ls.skip(i as int), st),
        decreases bounds@.len() - i,
    {
        let (lo, hi) = bounds[i];
        let ghost before = sources_view(out@);
        let ghost rest = ls.skip(i as int);
        assert(rest[0] == ls[i as int]);
        assert(rest.drop_first() =~= ls.skip(i + 1));
        let (st2, entry) = classify_line(&v, lo, hi, st);
        match entry {
            Some(s) => {
                out.push(s);
                assert(sources_view(out@) =~= before.push(s@));
            },
            None => {
                assert(sources_view(out@) =~= before);
            },
        }
        assert(sources_view(out@) + scan_sources(ls.skip(i + 1), st2) =~= before + scan_sources(
            rest,
            st,
        ));
        st = st2;
        i = i + 1;
    }
    assert(ls.skip(i as int) =~= Seq::<Seq<char>>::empty());
    assert(sources_view(out@) + Seq::<SourceView>::empty() =~= sources_view(out@));
    out
}

// ---------------------------------------------------------------------------
// Looking sources up
// ---------------------------------------------------------------------------

/// The name of the first source marked default.
pub open spec fn default_name(ss: Seq<SourceView>) -> Option<Seq<char>>
    decreases ss.len(),
{
    if ss.len() == 0 {
        None
    } else if ss[0].is_default {
        Some(ss[0].name)
    } else {
        default_name(ss.drop_first())
    }
}

/// The name of the first source whose `node.name` is `node`.
pub open spec fn display_name(ss: Seq<SourceView>, node: Seq<char>) -> Option<Seq<char>>
    decreases ss.len(),
{
    if ss.len() == 0 {
        None
    } else if ss[0].node_name == Some(node) {
        Some(ss[0].name)
    } else {
        display_name(ss.drop_first(), node)
    }
}

/// The name of the default source, if one is marked default.
pub fn get_default_source_name(sources: &Vec<Source>) -> (res: Option<String>)
    ensures
        res.deep_view() == default_name(sources_view(sources@)),
{
    let ghost ss = sources_view(sources@);
    let mut i: usize = 0;
    assert(ss.skip(0) =~= ss);
    while i < sources.len()
        invariant
            i <= sources@.len(),
            ss == sources_view(sources@),
            default_name(ss) == default_name(ss.skip(i as int)),
        decreases sources@.len() - i,
    {
        assert(ss.skip(i as int)[0] == sources@[i as int]@);
        assert(ss.skip(i as int).drop_first() =~= ss.skip(i + 1));
        if sources[i].is_default {
            return Some(sources[i].name.clone());
        }
        i = i + 1;
    }
    assert(ss.skip(i as int) =~= Seq::<SourceView>::empty());
    None
}

fn opt_str_eq(o: &Option<String>, s: &str) -> (res: bool)
    ensures
        res == (o.deep_view() == Some(s@)),
{
    match o {
        Some(x) => crate::text::str_eq(x.as_str(), s),
        None => false,
    }
}

/// Resolves a PipeWire `node.name` to the name that `wpctl` shows for it.
pub fn resolve_display_name(sources: &Vec<Source>, node_name: &str) -> (res: Option<String>)
    ensures
        res.deep_view() == display_name(sources_view(sources@), node_name@),
{
    let ghost ss = sources_view(sources@);
    let mut i: usize = 0;
    assert(ss.skip(0) =~= ss);
    while i < sources.len()
        invariant
            i <= sources@.len(),
            ss == sources_view(sources@),
            display_name(ss, node_name@) == display_name(ss.skip(i as int), node_name@),
        decreases sources@.len() - i,
    {
        assert(ss.skip(i as int)[0] == sources@[i as int]@);
        assert(ss.skip(i as int).drop_first() =~= ss.skip(i + 1));
        if opt_str_eq(&sources[i].node_name, node_name) {
            return Some(sources[i].name.clone());
        }
        i = i + 1;
    }
    assert(ss.skip(i as int) =~= Seq::<SourceView>::empty());
    None
}


// ---------------------------------------------------------------------------
// `pw-cli info`: a node's `node.name`
// ---------------------------------------------------------------------------

pub const NODE_NAME_KEY: &'static str = "node.name";

/// A property line of `pw-cli info`, trimmed and without its `*` marker.
pub open spec fn property_text(line: Seq<char>) -> Seq<char> {
    trim(strip_leading(trim(line), '*'))
}

/// The text between the first `=` of `t` and the next `=` (or the end).
pub open spec fn second_field(t: Seq<char>) -> Option<Seq<char>> {
    match find_char(t, '=') {
        Some(i) => {
            let r = t.skip(i + 1);
            match find_char(r, '=') {
                Some(j) => Some(r.take(j)),
                None => Some(r),
            }
        },
        None => None,
    }
}

/// The value of the first `node.name` property line with a `=` in it,
/// trimmed and unquoted.
pub open spec fn node_name_in(ls: Seq<Seq<char>>) -> Option<Seq<char>>
    decreases ls.len(),
{
    if ls.len() == 0 {
        None
    } else {
        let t = property_text(ls[0]);
        if starts_with(t, NODE_NAME_KEY@) && second_field(t) is Some {
            Some(strip_both(trim(second_field(t)->0), '"'))
        } else {
            node_name_in(ls.drop_first())
        }
    }
}

/// The value that one line gives for `node.name`, if it is such a line.
fn node_name_of_line(v: &Vec<char>, lo: usize, hi: usize) -> (res: Option<String>)
    requires
        lo <= hi <= v@.len(),
    ensures
        ({
            let t = property_text(v@.subrange(lo as int, hi as int));
            res.deep_view() == if starts_with(t, NODE_NAME_KEY@) && second_field(t) is Some {
                Some(strip_both(trim(second_field(t)->0), '"'))
            } else {
                None::<Seq<char>>
            }
        }),
{
    let (a0, a1) = trim_bounds(v, lo, hi);
    let b0 = strip_leading_bound(v, a0, a1, '*');
    let (t0, t1) = trim_bounds(v, b0, a1);
    let ghost t = v@.subrange(t0 as int, t1 as int);
    assert(t == property_text(v@.subrange(lo as int, hi as int)));
    if !starts_with_str_at(v, t0, t1, NODE_NAME_KEY) {
        return None;
    }
    match find_char_at(v, t0, t1, '=') {
        None => None,
        Some(e) => {
            assert(t.skip(e - t0 + 1) =~= v@.subrange(e + 1, t1 as int));
            let ghost r = v@.subrange(e + 1, t1 as int);
            let end = match find_char_at(v, e + 1, t1, '=') {
                Some(j) => {
                    assert(r.take(j - (e + 1)) =~= v@.subrange(e + 1, j as int));
                    j
                },
                None => t1,
            };
            let (w0, w1) = trim_bounds(v, e + 1, end);
            let q0 = strip_leading_bound(v, w0, w1, '"');
            let q1 = strip_trailing_bound(v, q0, w1, '"');
            Some(string_of(v, q0, q1))
        },
    }
}

/// The `node.name` that `pw-cli info` printed for a node, if it printed one.
pub fn get_node_name(info: &str) -> (res: Option<String>)
    ensures
        res.deep_view() == node_name_in(lines(info@)),
{
    let v = chars_of(info);
    let bounds = line_bounds(&v);
    let ghost ls = lines(v@);
    let mut i: usize = 0;
    assert(ls.skip(0) =~= ls);
    while i < bounds.len()
        invariant
            i <= bounds@.len(),
            ls == lines(v@),
            v@ == info@,
            bounds@.len() == ls.len(),
            forall|k: int|
                0 <= k < bounds@.len() ==> {
                    &&& (#[trigger] bounds@[k]).0 <= bounds@[k].1 <= v@.len()
                    &&& v@.subrange(bounds@[k].0 as int, bounds@[k].1 as int) == ls[k]
                },
            node_name_in(ls) == node_name_in(ls.skip(i as int)),
        decreases bounds@.len() - i,
    {
        let (lo, hi) = bounds[i];
        assert(ls.skip(i as int)[0] == ls[i as int]);
        assert(ls.skip(i as int).drop_first() =~= ls.skip(i + 1));
        let r = node_name_of_line(&v, lo, hi);
        if r.is_some() {
            return r;
        }
        i = i + 1;
    }
    assert(ls.skip(i as int) =~= Seq::<Seq<char>>::empty());
    None
}

// ---------------------------------------------------------------------------
// `pw-link -l`: the microphone that feeds the noise filter
// ---------------------------------------------------------------------------

/// The ports of the noise filter's capture node start with this.
pub const FILTER_CAPTURE_PORTS: &'static str = "capture.deepfilter_source:";

/// `pw-link -l` marks a port linked into the port above with this.
pub const LINKED_FROM: &'static str = "|<-";

pub const LINK_BAR: &'static str = "|";

/// The node of a linked port: what precedes the first `:` of the port
/// name after the link marker, if there is a `:`.
pub open spec fn linked_node(t: Seq<char>) -> Option<Seq<char>> {
    let port = trim(strip_leading_pat(t, LINKED_FROM@));
    match find_char(port, ':') {
        Some(c) => Some(port.take(c)),
        None => None,
    }
}

/// Scans `pw-link -l` for the first node linked into a port of the noise
/// filter's capture node; `under` tells whether the scan is inside the list
/// of such a port's links.
pub open spec fn filter_input_in(ls: Seq<Seq<char>>, under: bool) -> Option<Seq<char>>
    decreases ls.len(),
{
    if ls.len() == 0 {
        None
    } else {
        let t = trim(ls[0]);
        if starts_with(t, FILTER_CAPTURE_PORTS@) {
            filter_input_in(ls.drop_first(), true)
        } else if under && starts_with(t, LINKED_FROM@) && linked_node(t) is Some {
            linked_node(t)
        } else {
            filter_input_in(ls.drop_first(), under && starts_with(t, LINK_BAR@))
        }
    }
}

fn linked_node_of(v: &Vec<char>, t0: usize, t1: usize) -> (res: Option<String>)
    requires
        t0 <= t1 <= v@.len(),
    ensures
        res.deep_view() == linked_node(v@.subrange(t0 as int, t1 as int)),
{
    let arrow = chars_of(LINKED_FROM);
    proof {
        reveal_strlit("|<-");
    }
    let s0 = strip_leading_pat_bound(v, t0, t1, &arrow);
    let (p0, p1) = trim_bounds(v, s0, t1);
    match find_char_at(v, p0, p1, ':') {
        Some(c) => {
            assert(v@.subrange(p0 as int, p1 as int).take(c - p0) =~= v@.subrange(
                p0 as int,
                c as int,
            ));
            Some(string_of(v, p0, c))
        },
        None => None,
    }
}

/// The `node.name` of the microphone that `pw-link -l` shows linked into
/// the noise filter's input, if one is.
pub fn get_rnnoise_input_node_name(links: &str) -> (res: Option<String>)
    ensures
        res.deep_view() == filter_input_in(lines(links@), false),
{
    let v = chars_of(links);
    let bounds = line_bounds(&v);
    let ghost ls = lines(v@);
    let mut under = false;
    let mut i: usize = 0;
    assert(ls.skip(0) =~= ls);
    while i < bounds.len()
        invariant
            i <= bounds@.len(),
            ls == lines(v@),
            v@ == links@,
            bounds@.len() == ls.len(),
            forall|k: int|
                0 <= k < bounds@.len() ==> {
                    &&& (#[trigger] bounds@[k]).0 <= bounds@[k].1 <= v@.len()
                    &&& v@.subrange(bounds@[k].0 as int, bounds@[k].1 as int) == ls[k]
                },
            filter_input_in(ls, false) == filter_input_in(ls.skip(i as int), under),
        decreases bounds@.len() - i,
    {
        let (lo, hi) = bounds[i];
        assert(ls.skip(i as int)[0] == ls[i as int]);
        assert(ls.skip(i as int).drop_first() =~= ls.skip(i + 1));
        let (t0, t1) = trim_bounds(&v, lo, hi);
        if starts_with_str_at(&v, t0, t1, FILTER_CAPTURE_PORTS) {
            under = true;
        } else {
            if under && starts_with_str_at(&v, t0, t1, LINKED_FROM) {
                let r = linked_node_of(&v, t0, t1);
                if r.is_some() {
                    return r;
                }
            }
            under = under && starts_with_str_at(&v, t0, t1, LINK_BAR);
        }
        i = i + 1;
    }
    assert(ls.skip(i as int) =~= Seq::<Seq<char>>::empty());
    None
}

/// The microphone feeding the noise filter, by the name `wpctl` shows for
/// it among `sources`, or by its `node.name` where none of them has it.
pub open spec fn filter_input_display(links: Seq<char>, ss: Seq<SourceView>) -> Option<
    Seq<char>,
> {
    match filter_input_in(lines(links), false) {
        Some(node) => match display_name(ss, node) {
            Some(name) => Some(name),
            None => Some(node),
        },
        None => None,
    }
}

/// The microphone that feeds the noise filter, as `pw-link -l` shows it,
/// named as `sources` name it.
pub fn get_rnnoise_input(links: &str, sources: &Vec<Source>) -> (res: Option<String>)
    ensures
        res.deep_view() == filter_input_display(links@, sources_view(sources@)),
{
    match get_rnnoise_input_node_name(links) {
        Some(node) => match resolve_display_name(sources, node.as_str()) {
            Some(name) => Some(name),
            None => Some(node),
        },
        None => None,
    }
}


// ---------------------------------------------------------------------------
// Laws
// ---------------------------------------------------------------------------

/// Every source that `wpctl status` lists has a name, and its `node.name`
/// is left to be looked up.
pub proof fn lemma_listed_sources_are_named(ls: Seq<Seq<char>>, st: (bool, bool, bool))
    ensures
        forall|k: int|
            0 <= k < scan_sources(ls, st).len() ==> (#[trigger] scan_sources(ls, st)[k]).name.len()
                > 0 && scan_sources(ls, st)[k].node_name is None,
    decreases ls.len(),
{
    if ls.len() > 0 {
        let t = line_text(ls[0]);
        lemma_listed_sources_are_named(ls.drop_first(), next_sections(st, t));
        let head = opt_seq(listed_entry(st, t));
        let rest = scan_sources(ls.drop_first(), next_sections(st, t));
        assert(scan_sources(ls, st) == head + rest);
        assert forall|k: int| 0 <= k < scan_sources(ls, st).len() implies (#[trigger] scan_sources(
            ls,
            st,
        )[k]).name.len() > 0 && scan_sources(ls, st)[k].node_name is None by {
            if k < head.len() {
                assert(scan_sources(ls, st)[k] == head[k]);
            } else {
                assert(scan_sources(ls, st)[k] == rest[k - head.len()]);
            }
        }
    }
}

/// Box-drawing characters become spaces; every other character is kept.
pub proof fn lemma_unbox_keeps_text(s: Seq<char>)
    ensures
        unbox(s).len() == s.len(),
        forall|i: int| 0 <= i < s.len() && !is_box_drawing(s[i]) ==> #[trigger] unbox(s)[i] == s[i],
        forall|i: int| 0 <= i < s.len() && is_box_drawing(s[i]) ==> #[trigger] unbox(s)[i] == ' ',
{
}

/// A line that opens the Sources or Filters section.
pub open spec fn opens_source_section(t: Seq<char>) -> bool {
    starts_with(t, SECTION_SOURCES@) || starts_with(t, SECTION_FILTERS@)
}

/// A line that closes the Sources and Filters sections.
pub open spec fn closes_source_sections(t: Seq<char>) -> bool {
    starts_with(t, SECTION_SINKS@) || starts_with(t, SECTION_STREAMS@) || starts_with(
        t,
        SECTION_DEVICES@,
    )
}

/// Outside the Sources and Filters sections, lines that open neither list
/// nothing, and the scan stays outside both sections.
proof fn lemma_outside_sections_lists_nothing(ls: Seq<Seq<char>>, st: (bool, bool, bool), k: int)
    requires
        !st.1 && !st.2,
        0 <= k <= ls.len(),
        forall|j: int| 0 <= j < k ==> !opens_source_section(#[trigger] line_text(ls[j])),
    ensures
        scan_sources(ls, st) == scan_sources(ls.skip(k), (true, false, false)) || scan_sources(
            ls,
            st,
        ) == scan_sources(ls.skip(k), (false, false, false)),
    decreases k,
{
    if k == 0 {
        assert(ls.skip(0) =~= ls);
    } else {
        let t = line_text(ls[0]);
        assert(!opens_source_section(t));
        let st2 = next_sections(st, t);
        assert(!st2.1 && !st2.2);
        assert(listed_entry(st, t) is None);
        assert(scan_sources(ls, st) =~= scan_sources(ls.drop_first(), st2));
        assert forall|j: int| 0 <= j < k - 1 implies !opens_source_section(
            #[trigger] line_text(ls.drop_first()[j]),
        ) by {
            assert(ls.drop_first()[j] == ls[j + 1]);
        }
        lemma_outside_sections_lists_nothing(ls.drop_first(), st2, k - 1);
        assert(ls.drop_first().skip(k - 1) =~= ls.skip(k));
    }
}

/// Inside the Audio part, a `Sinks:`, `Streams:` or `Devices:` heading ends
/// the Sources and Filters sections: no line from it up to the next
/// `Sources:` or `Filters:` heading lists a source, and the scan goes on
/// from there outside both sections.
pub proof fn lemma_closing_heading_ends_source_sections(
    ls: Seq<Seq<char>>,
    st: (bool, bool, bool),
    k: int,
)
    requires
        st.0,
        1 <= k <= ls.len(),
        closes_source_sections(line_text(ls[0])),
        forall|j: int| 1 <= j < k ==> !opens_source_section(#[trigger] line_text(ls[j])),
    ensures
        scan_sources(ls, st) == scan_sources(ls.skip(k), (true, false, false)) || scan_sources(
            ls,
            st,
        ) == scan_sources(ls.skip(k), (false, false, false)),
        scan_sources(ls.take(k), st).len() == 0,
{
    reveal_strlit("Audio");
    reveal_strlit("Video");
    reveal_strlit("Sources:");
    reveal_strlit("Filters:");
    reveal_strlit("Sinks:");
    reveal_strlit("Streams:");
    reveal_strlit("Devices:");
    let t = line_text(ls[0]);
    assert(t != HEADING_AUDIO@ && t != HEADING_VIDEO@) by {
        if t == HEADING_AUDIO@ || t == HEADING_VIDEO@ {
            assert(t.len() == 5);
        }
    }
    assert(!starts_with(t, SECTION_SOURCES@) && !starts_with(t, SECTION_FILTERS@)) by {
        if t.len() >= 2 {
            let c0 = t[0];
            let c1 = t[1];
            if starts_with(t, SECTION_SINKS@) {
                assert(c0 == t.subrange(0, 6)[0] && c1 == t.subrange(0, 6)[1]);
                assert(c0 == 'S' && c1 == 'i');
            } else if starts_with(t, SECTION_STREAMS@) {
                assert(c0 == t.subrange(0, 8)[0] && c1 == t.subrange(0, 8)[1]);
                assert(c0 == 'S' && c1 == 't');
            } else {
                assert(c0 == t.subrange(0, 8)[0]);
                assert(c0 == 'D');
            }
            if starts_with(t, SECTION_SOURCES@) {
                assert(c0 == t.subrange(0, 8)[0] && c1 == t.subrange(0, 8)[1]);
                assert(c0 == 'S' && c1 == 'o');
            }
            if starts_with(t, SECTION_FILTERS@) {
                assert(c0 == t.subrange(0, 8)[0]);
                assert(c0 == 'F');
            }
        }
    }
    assert(next_sections(st, t) == (true, false, false));
    assert(listed_entry(st, t) is None);
    assert(scan_sources(ls, st) =~= scan_sources(ls.drop_first(), (true, false, false)));
    assert forall|j: int| 0 <= j < k - 1 implies !opens_source_section(
        #[trigger] line_text(ls.drop_first()[j]),
    ) by {
        assert(ls.drop_first()[j] == ls[j + 1]);
    }
    lemma_outside_sections_lists_nothing(ls.drop_first(), (true, false, false), k - 1);
    assert(ls.drop_first().skip(k - 1) =~= ls.skip(k));
    // The same for the first `k` lines alone.
    let lt = ls.take(k);
    assert(lt[0] == ls[0]);
    assert(scan_sources(lt, st) =~= scan_sources(lt.drop_first(), (true, false, false)));
    assert forall|j: int| 0 <= j < k - 1 implies !opens_source_section(
        #[trigger] line_text(lt.drop_first()[j]),
    ) by {
        assert(lt.drop_first()[j] == ls[j + 1]);
    }
    lemma_outside_sections_lists_nothing(lt.drop_first(), (true, false, false), k - 1);
    assert(lt.drop_first().skip(k - 1) =~= Seq::<Seq<char>>::empty());
}

/// Inside the Audio part, a `Sources:` heading opens the Sources section
/// and a `Filters:` heading the Filters section, neither listing a source
/// itself; a `Video` line leaves the Audio part.
pub proof fn lemma_section_headings(ls: Seq<Seq<char>>, st: (bool, bool, bool))
    requires
        ls.len() > 0,
    ensures
        st.0 && starts_with(line_text(ls[0]), SECTION_SOURCES@) ==> scan_sources(ls, st)
            == scan_sources(ls.drop_first(), (true, true, false)),
        st.0 && starts_with(line_text(ls[0]), SECTION_FILTERS@) ==> scan_sources(ls, st)
            == scan_sources(ls.drop_first(), (true, false, true)),
        line_text(ls[0]) == HEADING_VIDEO@ ==> scan_sources(ls, st) == scan_sources(
            ls.drop_first(),
            (false, false, false),
        ),
{
    reveal_strlit("Audio");
    reveal_strlit("Video");
    reveal_strlit("Sources:");
    reveal_strlit("Filters:");
    let t = line_text(ls[0]);
    if starts_with(t, SECTION_SOURCES@) || starts_with(t, SECTION_FILTERS@) {
        assert(t.len() >= 8);
        assert(t != HEADING_AUDIO@ && t != HEADING_VIDEO@);
        if starts_with(t, SECTION_FILTERS@) {
            assert(t[0] == t.subrange(0, 8)[0]);
            assert(!starts_with(t, SECTION_SOURCES@)) by {
                if starts_with(t, SECTION_SOURCES@) {
                    assert(t[0] == 'S');
                }
            }
        }
    }
    if t == HEADING_VIDEO@ {
        assert(t != HEADING_AUDIO@) by {
            assert(t[0] != HEADING_AUDIO@[0]);
        }
    }
}

} // verus!
