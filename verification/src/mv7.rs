//! The Shure MV7's USB HID control protocol: text commands carried in
//! fixed-size reports, the replies they draw, and the admin handshake that
//! must precede them. Everything here computes; the reports themselves are
//! written and read by the caller.
use vstd::prelude::*;
use vstd::utf8::{
    decode_utf8, encode_scalar, encode_utf8, encode_utf8_decode_utf8, encode_utf8_valid_utf8,
    valid_utf8,
};
use vstd::string::StringSliceAdditionalSpecFns;
use crate::text::{
    all_digits, ascii_ci_eq, chars_of, contains, decimal, digit_char, digit_value,
    digits_value, hex_padded, is_whitespace, lemma_hex_padded_reads_back, lemma_zeros_value,
    lower_char_matches, lower_equals, parse_u32, parse_u32_str, push_decimal, push_hex_padded,
    push_str, push_zero_padded, starts_with, starts_with_at, str_contains, str_eq, string_of,
    strip_trailing_pat, strip_trailing_pat_bound, trim, trim_end, trim_start, trim_str,
    unsigned_digits, zero_padded,
};

verus! {

pub const SHURE_VENDOR_ID: u16 = 0x14ED;

pub const MV7_PRODUCT_ID: u16 = 0x1012;

pub const MV7_DATA_INTERFACE: i32 = 3;

/// Every report to and from the device has this many bytes.
pub const HID_REPORT_SIZE: usize = 64;

/// Whether a HID interface is the MV7's data interface.
pub fn is_mv7_interface(vendor_id: u16, product_id: u16, interface_number: i32) -> (res: bool)
    ensures
        res == (vendor_id == SHURE_VENDOR_ID && product_id == MV7_PRODUCT_ID && interface_number
            == MV7_DATA_INTERFACE),
{
    vendor_id == SHURE_VENDOR_ID && product_id == MV7_PRODUCT_ID && interface_number
        == MV7_DATA_INTERFACE
}

// ---------------------------------------------------------------------------
// Compressor and DSP mode
// ---------------------------------------------------------------------------

pub const WORD_OFF: &'static str = "off";

pub const WORD_LIGHT: &'static str = "light";

pub const WORD_MEDIUM: &'static str = "medium";

pub const WORD_HEAVY: &'static str = "heavy";

pub const DIGIT_0: &'static str = "0";

pub const DIGIT_1: &'static str = "1";

pub const DIGIT_2: &'static str = "2";

pub const DIGIT_3: &'static str = "3";

pub const WORD_MANUAL: &'static str = "manual";

pub const WORD_AUTO: &'static str = "auto";

#[derive(Debug, Clone, Copy, PartialEq, Eq, Structural)]
pub enum Compressor {
    Off,
    Light,
    Medium,
    Heavy,
}

impl Compressor {
    /// The number by which the device knows the setting.
    pub open spec fn code_spec(self) -> u32 {
        match self {
            Compressor::Off => 0,
            Compressor::Light => 1,
            Compressor::Medium => 2,
            Compressor::Heavy => 3,
        }
    }

    pub open spec fn from_code(v: u32) -> Option<Compressor> {
        if v == 0 {
            Some(Compressor::Off)
        } else if v == 1 {
            Some(Compressor::Light)
        } else if v == 2 {
            Some(Compressor::Medium)
        } else if v == 3 {
            Some(Compressor::Heavy)
        } else {
            None
        }
    }

    pub open spec fn name_spec(self) -> Seq<char> {
        match self {
            Compressor::Off => WORD_OFF@,
            Compressor::Light => WORD_LIGHT@,
            Compressor::Medium => WORD_MEDIUM@,
            Compressor::Heavy => WORD_HEAVY@,
        }
    }

    /// What `from_str` accepts: a setting's name in any ASCII letter case,
    /// or its number.
    pub open spec fn parse_spec(s: Seq<char>) -> Option<Compressor> {
        if ascii_ci_eq(s, WORD_OFF@) || ascii_ci_eq(s, DIGIT_0@) {
            Some(Compressor::Off)
        } else if ascii_ci_eq(s, WORD_LIGHT@) || ascii_ci_eq(s, DIGIT_1@) {
            Some(Compressor::Light)
        } else if ascii_ci_eq(s, WORD_MEDIUM@) || ascii_ci_eq(s, DIGIT_2@) {
            Some(Compressor::Medium)
        } else if ascii_ci_eq(s, WORD_HEAVY@) || ascii_ci_eq(s, DIGIT_3@) {
            Some(Compressor::Heavy)
        } else {
            None
        }
    }

    /// What `from_hex` accepts: a hexadecimal number, surrounded by
    /// whitespace or not, that is one of the settings' numbers.
    pub open spec fn from_hex_spec(s: Seq<char>) -> Option<Compressor> {
        match parse_u32(trim(s), 16) {
            Some(v) => Compressor::from_code(v),
            None => None,
        }
    }

    pub fn code(&self) -> (res: u32)
        ensures
            res == self.code_spec(),
    {
        match self {
            Compressor::Off => 0,
            Compressor::Light => 1,
            Compressor::Medium => 2,
            Compressor::Heavy => 3,
        }
    }

    /// The setting's name, as it is shown to users.
    pub fn name(&self) -> (res: String)
        ensures
            res@ == self.name_spec(),
    {
        let w = match self {
            Compressor::Off => WORD_OFF,
            Compressor::Light => WORD_LIGHT,
            Compressor::Medium => WORD_MEDIUM,
            Compressor::Heavy => WORD_HEAVY,
        };
        let mut out = String::new();
        push_str(&mut out, w);
        out
    }

    /// Parses a setting given by name or number; the letter case of a name
    /// does not matter. (No character outside ASCII lowers to a letter of
    /// these names, so comparing ASCII-case-insensitively accepts exactly
    /// the strings whose full lower case is one of them.)
    pub fn from_str(s: &str) -> (res: Option<Self>)
        ensures
            res == Compressor::parse_spec(s@),
    {
        let v = chars_of(s);
        if lower_equals(&v, &chars_of(WORD_OFF)) || lower_equals(&v, &chars_of(DIGIT_0)) {
            Some(Compressor::Off)
        } else if lower_equals(&v, &chars_of(WORD_LIGHT)) || lower_equals(&v, &chars_of(DIGIT_1)) {
            Some(Compressor::Light)
        } else if lower_equals(&v, &chars_of(WORD_MEDIUM)) || lower_equals(
            &v,
            &chars_of(DIGIT_2),
        ) {
            Some(Compressor::Medium)
        } else if lower_equals(&v, &chars_of(WORD_HEAVY)) || lower_equals(&v, &chars_of(DIGIT_3)) {
            Some(Compressor::Heavy)
        } else {
            None
        }
    }

    /// Reads the setting from the hexadecimal value of the device's
    /// compressor block.
    pub fn from_hex(s: &str) -> (res: Option<Self>)
        ensures
            res == Compressor::from_hex_spec(s@),
    {
        let t = trim_str(s);
        match parse_u32_str(t.as_str(), 16) {
            Some(v) => {
                if v == 0 {
                    Some(Compressor::Off)
                } else if v == 1 {
                    Some(Compressor::Light)
                } else if v == 2 {
                    Some(Compressor::Medium)
                } else if v == 3 {
                    Some(Compressor::Heavy)
                } else {
                    None
                }
            },
            None => None,
        }
    }
}

#[derive(Debug, Clone, Copy, PartialEq, Eq, Structural)]
pub enum DspMode {
    Manual,
    Auto,
}

impl DspMode {
    pub open spec fn code_spec(self) -> u32 {
        match self {
            DspMode::Manual => 1,
            DspMode::Auto => 2,
        }
    }

    pub open spec fn name_spec(self) -> Seq<char> {
        match self {
            DspMode::Manual => WORD_MANUAL@,
            DspMode::Auto => WORD_AUTO@,
        }
    }

    pub fn code(&self) -> (res: u32)
        ensures
            res == self.code_spec(),
    {
        match self {
            DspMode::Manual => 1,
            DspMode::Auto => 2,
        }
    }

    /// The mode's name, as it is shown to users.
    pub fn name(&self) -> (res: String)
        ensures
            res@ == self.name_spec(),
    {
        let w = match self {
            DspMode::Manual => WORD_MANUAL,
            DspMode::Auto => WORD_AUTO,
        };
        let mut out = String::new();
        push_str(&mut out, w);
        out
    }

    /// The mode the device reports: `1` is manual, anything else automatic.
    pub fn from_reply(v: &str) -> (res: DspMode)
        ensures
            res == (if v@ == DIGIT_1@ {
                DspMode::Manual
            } else {
                DspMode::Auto
            }),
    {
        if str_eq(v, DIGIT_1) {
            DspMode::Manual
        } else {
            DspMode::Auto
        }
    }
}



// ---------------------------------------------------------------------------
// Reports
// ---------------------------------------------------------------------------

/// The report that carries a command: its bytes, cut to the report size,
/// then zeros.
pub open spec fn report_bytes(cmd: Seq<u8>) -> Seq<u8> {
    Seq::new(
        HID_REPORT_SIZE as nat,
        |i: int|
            if i < cmd.len() {
                cmd[i]
            } else {
                0u8
            },
    )
}

/// Builds the report that sends the command `cmd`.
pub fn encode_report(cmd: &str) -> (res: Vec<u8>)
    ensures
        res@ == report_bytes(cmd.spec_bytes()),
{
    let bytes = cmd.as_bytes();
    let mut buf: Vec<u8> = Vec::new();
    let mut i: usize = 0;
    while i < HID_REPORT_SIZE
        invariant
            i <= HID_REPORT_SIZE,
            bytes@ == cmd.spec_bytes(),
            buf@ =~= report_bytes(bytes@).take(i as int),
        decreases HID_REPORT_SIZE - i,
    {
        if i < bytes.len() {
            buf.push(bytes[i]);
        } else {
            buf.push(0u8);
        }
        i = i + 1;
    }
    buf
}

/// The index of the first zero byte.
pub open spec fn first_zero(b: Seq<u8>) -> Option<int>
    decreases b.len(),
{
    if b.len() == 0 {
        None
    } else if b[0] == 0 {
        Some(0)
    } else {
        match first_zero(b.drop_first()) {
            Some(i) => Some(i + 1),
            None => None,
        }
    }
}

/// Where the text of a received report ends: at its first zero byte, or
/// after the `len` bytes that were read.
pub open spec fn reply_end(buf: Seq<u8>, len: int) -> int {
    match first_zero(buf) {
        Some(i) => i,
        None => len,
    }
}

/// What `String::from_utf8_lossy` makes of bytes that are not valid UTF-8.
pub uninterp spec fn utf8_lossy(bytes: Seq<u8>) -> Seq<char>;

/// The text of bytes decoded as UTF-8, invalid sequences replaced.
pub open spec fn lossy_text(bytes: Seq<u8>) -> Seq<char> {
    if valid_utf8(bytes) {
        decode_utf8(bytes)
    } else {
        utf8_lossy(bytes)
    }
}

/// The text of a received report of which `len` bytes were read: nothing
/// when none were.
pub open spec fn decode_report_spec(buf: Seq<u8>, len: int) -> Option<Seq<char>> {
    if len == 0 {
        None
    } else {
        Some(lossy_text(buf.take(reply_end(buf, len))))
    }
}

/// Calls `String::from_utf8_lossy(bytes)` and takes the result as an owned
/// `String`. Trusted, not proved: the result is what `utf8_lossy` names for
/// these bytes, and for valid UTF-8 it is the decoded text itself (the
/// function's documentation says valid input is returned unchanged). How
/// invalid sequences are replaced is left unsaid.
#[verifier::external_body]
fn utf8_lossy_string(bytes: &[u8]) -> (res: String)
    ensures
        res@ == utf8_lossy(bytes@),
        valid_utf8(bytes@) ==> res@ == decode_utf8(bytes@),
{
    String::from_utf8_lossy(bytes).into_owned()
}

/// The text of a received report of which `len` bytes were read.
pub fn decode_report(buf: &[u8], len: usize) -> (res: Option<String>)
    requires
        len <= buf@.len(),
    ensures
        res.deep_view() == decode_report_spec(buf@, len as int),
{
    if len == 0 {
        return None;
    }
    let mut i: usize = 0;
    assert(buf@.skip(0) =~= buf@);
    while i < buf.len() && buf[i] != 0
        invariant
            i <= buf@.len(),
            len <= buf@.len(),
            first_zero(buf@) == (match first_zero(buf@.skip(i as int)) {
                Some(k) => Some(k + i),
                None => None,
            }),
        decreases buf@.len() - i,
    {
        assert(buf@.skip(i as int).drop_first() =~= buf@.skip(i + 1));
        i = i + 1;
    }
    let end = if i < buf.len() {
        assert(buf@.skip(i as int)[0] == 0);
        i
    } else {
        assert(buf@.skip(i as int) =~= Seq::<u8>::empty());
        len
    };
    assert(end == reply_end(buf@, len as int));
    let mut text: Vec<u8> = Vec::new();
    let mut k: usize = 0;
    while k < end
        invariant
            k <= end <= buf@.len(),
            text@ =~= buf@.take(k as int),
        decreases end - k,
    {
        text.push(buf[k]);
        k = k + 1;
    }
    let s = utf8_lossy_string(text.as_slice());
    Some(s)
}


// ---------------------------------------------------------------------------
// Replies
// ---------------------------------------------------------------------------

pub const BLOCK_PREFIX: &'static str = "block ";

/// The value that one reply gives for `prefix`: the rest of `prefix=value`,
/// or of `block prefix value`.
pub open spec fn reply_value(msg: Seq<char>, prefix: Seq<char>) -> Option<Seq<char>> {
    if starts_with(msg, prefix.push('=')) {
        Some(msg.skip(prefix.len() + 1int))
    } else if starts_with(msg, BLOCK_PREFIX@) && starts_with(
        msg.skip(BLOCK_PREFIX@.len() as int),
        prefix.push(' '),
    ) {
        Some(msg.skip(BLOCK_PREFIX@.len() + prefix.len() + 1int))
    } else {
        None
    }
}

/// The value that the first reply holding one gives for `prefix`.
pub open spec fn find_value_spec(msgs: Seq<Seq<char>>, prefix: Seq<char>) -> Option<Seq<char>>
    decreases msgs.len(),
{
    if msgs.len() == 0 {
        None
    } else {
        match reply_value(msgs[0], prefix) {
            Some(v) => Some(v),
            None => find_value_spec(msgs.drop_first(), prefix),
        }
    }
}

/// The characters of `s` followed by `c`.
fn chars_with(s: &str, c: char) -> (res: Vec<char>)
    ensures
        res@ == s@.push(c),
{
    let mut v = chars_of(s);
    v.push(c);
    v
}

/// The value that one reply gives for `prefix`, if any.
pub fn reply_value_of(msg: &str, prefix: &str) -> (res: Option<String>)
    ensures
        res.deep_view() == reply_value(msg@, prefix@),
{
    let v = chars_of(msg);
    let n = v.len();
    assert(v@.subrange(0, n as int) =~= v@);
    let eq = chars_with(prefix, '=');
    if starts_with_at(&v, 0, n, &eq) {
        let r = string_of(&v, eq.len(), n);
        assert(r@ =~= v@.skip(prefix@.len() + 1int));
        return Some(r);
    }
    let block = chars_of(BLOCK_PREFIX);
    if starts_with_at(&v, 0, n, &block) {
        let b = block.len();
        let sp = chars_with(prefix, ' ');
        assert(v@.subrange(b as int, n as int) =~= v@.skip(b as int));
        if starts_with_at(&v, b, n, &sp) {
            let r = string_of(&v, b + sp.len(), n);
            assert(r@ =~= v@.skip(b + prefix@.len() + 1int));
            return Some(r);
        }
    }
    None
}

/// The value that the first of `messages` that holds one gives for `prefix`.
pub fn find_value(messages: &Vec<String>, prefix: &str) -> (res: Option<String>)
    ensures
        res.deep_view() == find_value_spec(messages.deep_view(), prefix@),
{
    let mut i: usize = 0;
    assert(messages.deep_view().skip(0) =~= messages.deep_view());
    while i < messages.len()
        invariant
            i <= messages@.len(),
            find_value_spec(messages.deep_view(), prefix@) == find_value_spec(
                messages.deep_view().skip(i as int),
                prefix@,
            ),
        decreases messages@.len() - i,
    {
        let r = reply_value_of(messages[i].as_str(), prefix);
        assert(messages.deep_view().skip(i as int)[0] == messages@[i as int]@);
        assert(messages.deep_view().skip(i as int).drop_first() =~= messages.deep_view().skip(
            i + 1,
        ));
        if r.is_some() {
            return r;
        }
        i = i + 1;
    }
    assert(messages.deep_view().skip(i as int) =~= Seq::<Seq<char>>::empty());
    None
}

/// The queries that read the device's state, in the order they are made.
#[derive(Debug, Clone, Copy, PartialEq, Eq, Structural)]
pub enum StateQuery {
    FirmwareVersion,
    SerialNumber,
    Mode,
    InputGain,
    InputMute,
    MonitorVolume,
    MonitorMute,
    CompressorBlock,
    LimiterBlock,
    EqBlock,
}

impl StateQuery {
    pub open spec fn command_spec(self) -> Seq<char> {
        match self {
            StateQuery::FirmwareVersion => "fwVersion"@,
            StateQuery::SerialNumber => "serialNum"@,
            StateQuery::Mode => "dspMode"@,
            StateQuery::InputGain => "inputGain"@,
            StateQuery::InputMute => "micMute"@,
            StateQuery::MonitorVolume => "volume"@,
            StateQuery::MonitorMute => "audioMute"@,
            StateQuery::CompressorBlock => "getBlock 19"@,
            StateQuery::LimiterBlock => "getBlock 1F"@,
            StateQuery::EqBlock => "getBlock 31"@,
        }
    }

    pub open spec fn prefix_spec(self) -> Seq<char> {
        match self {
            StateQuery::FirmwareVersion => "fwVersion"@,
            StateQuery::SerialNumber => "serialNum"@,
            StateQuery::Mode => "dspMode"@,
            StateQuery::InputGain => "inputGain"@,
            StateQuery::InputMute => "micMute"@,
            StateQuery::MonitorVolume => "volume"@,
            StateQuery::MonitorMute => "audioMute"@,
            StateQuery::CompressorBlock => "19"@,
            StateQuery::LimiterBlock => "1F"@,
            StateQuery::EqBlock => "31"@,
        }
    }

    /// The command that asks for this value.
    pub fn command(&self) -> (res: &'static str)
        ensures
            res@ == self.command_spec(),
    {
        match self {
            StateQuery::FirmwareVersion => "fwVersion",
            StateQuery::SerialNumber => "serialNum",
            StateQuery::Mode => "dspMode",
            StateQuery::InputGain => "inputGain",
            StateQuery::InputMute => "micMute",
            StateQuery::MonitorVolume => "volume",
            StateQuery::MonitorMute => "audioMute",
            StateQuery::CompressorBlock => "getBlock 19",
            StateQuery::LimiterBlock => "getBlock 1F",
            StateQuery::EqBlock => "getBlock 31",
        }
    }

    /// The prefix by which the reply to this query is found.
    pub fn prefix(&self) -> (res: &'static str)
        ensures
            res@ == self.prefix_spec(),
    {
        match self {
            StateQuery::FirmwareVersion => "fwVersion",
            StateQuery::SerialNumber => "serialNum",
            StateQuery::Mode => "dspMode",
            StateQuery::InputGain => "inputGain",
            StateQuery::InputMute => "micMute",
            StateQuery::MonitorVolume => "volume",
            StateQuery::MonitorMute => "audioMute",
            StateQuery::CompressorBlock => "19",
            StateQuery::LimiterBlock => "1F",
            StateQuery::EqBlock => "31",
        }
    }
}

/// The value found for each state query; `None` where the query failed or
/// no reply held a value.
pub struct Mv7Replies {
    pub firmware_version: Option<String>,
    pub serial_number: Option<String>,
    pub mode: Option<String>,
    pub input_gain: Option<String>,
    pub input_mute: Option<String>,
    pub monitor_volume: Option<String>,
    pub monitor_mute: Option<String>,
    pub compressor: Option<String>,
    pub limiter: Option<String>,
    pub eq: Option<String>,
}

/// The device's DSP state as far as its replies showed it. Levels in
/// decibels are kept as the text the device gave, without the unit.
#[derive(Debug)]
pub struct Mv7State {
    pub firmware_version: Option<String>,
    pub serial_number: Option<String>,
    pub mode: Option<DspMode>,
    pub input_gain: Option<String>,
    pub input_mute: Option<bool>,
    pub monitor_volume: Option<String>,
    pub monitor_mute: Option<bool>,
    pub compressor: Option<Compressor>,
    pub limiter: Option<bool>,
    pub high_pass_filter: Option<bool>,
    pub presence_filter: Option<bool>,
}

pub const DB_UNIT: &'static str = "dB";

pub const WORD_ON: &'static str = "on";

pub const BLOCK_ON: &'static str = "00000001";

pub const BLOCK_OFF: &'static str = "00000000";

/// A level without its trailing `dB` units.
pub open spec fn level_text(v: Seq<char>) -> Seq<char> {
    strip_trailing_pat(v, DB_UNIT@)
}

/// The EQ block's bits, read as hexadecimal.
pub open spec fn eq_bits_spec(v: Seq<char>) -> Option<u32> {
    parse_u32(trim(v), 16)
}

pub open spec fn opt_map_level(o: Option<Seq<char>>) -> Option<Seq<char>> {
    match o {
        Some(v) => Some(level_text(v)),
        None => None,
    }
}

pub open spec fn opt_is(o: Option<Seq<char>>, w: Seq<char>) -> Option<bool> {
    match o {
        Some(v) => Some(v == w),
        None => None,
    }
}

pub open spec fn opt_eq_bit(o: Option<Seq<char>>, bit: u32) -> Option<bool> {
    match o {
        Some(v) => match eq_bits_spec(v) {
            Some(b) => Some(b & bit != 0),
            None => None,
        },
        None => None,
    }
}

fn level_of(v: &String) -> (res: String)
    ensures
        res@ == level_text(v@),
{
    let c = chars_of(v.as_str());
    let unit = chars_of(DB_UNIT);
    proof {
        reveal_strlit("dB");
    }
    let e = strip_trailing_pat_bound(&c, 0, c.len(), &unit);
    assert(c@.subrange(0, c@.len() as int) =~= c@);
    string_of(&c, 0, e)
}

fn is_word(v: &Option<String>, w: &str) -> (res: Option<bool>)
    ensures
        res == opt_is(v.deep_view(), w@),
{
    match v {
        Some(s) => Some(str_eq(s.as_str(), w)),
        None => None,
    }
}

fn eq_bit(v: &Option<String>, bit: u32) -> (res: Option<bool>)
    ensures
        res == opt_eq_bit(v.deep_view(), bit),
{
    match v {
        Some(s) => {
            let t = trim_str(s.as_str());
            match parse_u32_str(t.as_str(), 16) {
                Some(b) => Some(b & bit != 0),
                None => None,
            }
        },
        None => None,
    }
}

impl Mv7State {
    /// Reads the state out of the replies to the state queries.
    pub fn from_replies(r: &Mv7Replies) -> (res: Mv7State)
        ensures
            res.firmware_version.deep_view() == r.firmware_version.deep_view(),
            res.serial_number.deep_view() == r.serial_number.deep_view(),
            res.mode == (match r.mode {
                Some(v) => Some(
                    if v@ == DIGIT_1@ {
                        DspMode::Manual
                    } else {
                        DspMode::Auto
                    },
                ),
                None => None,
            }),
            res.input_gain.deep_view() == opt_map_level(r.input_gain.deep_view()),
            res.input_mute == opt_is(r.input_mute.deep_view(), WORD_ON@),
            res.monitor_volume.deep_view() == opt_map_level(r.monitor_volume.deep_view()),
            res.monitor_mute == opt_is(r.monitor_mute.deep_view(), WORD_ON@),
            res.compressor == (match r.compressor {
                Some(v) => Compressor::from_hex_spec(v@),
                None => None,
            }),
            res.limiter == opt_is(r.limiter.deep_view(), BLOCK_ON@),
            res.high_pass_filter == opt_eq_bit(r.eq.deep_view(), 1),
            res.presence_filter == opt_eq_bit(r.eq.deep_view(), 2),
    {
        let mode = match &r.mode {
            Some(v) => Some(DspMode::from_reply(v.as_str())),
            None => None,
        };
        let input_gain = match &r.input_gain {
            Some(v) => Some(level_of(v)),
            None => None,
        };
        let monitor_volume = match &r.monitor_volume {
            Some(v) => Some(level_of(v)),
            None => None,
        };
        let compressor = match &r.compressor {
            Some(v) => Compressor::from_hex(v.as_str()),
            None => None,
        };
        Mv7State {
            firmware_version: r.firmware_version.clone(),
            serial_number: r.serial_number.clone(),
            mode,
            input_gain,
            input_mute: is_word(&r.input_mute, WORD_ON),
            monitor_volume,
            monitor_mute: is_word(&r.monitor_mute, WORD_ON),
            compressor,
            limiter: is_word(&r.limiter, BLOCK_ON),
            high_pass_filter: eq_bit(&r.eq, 1),
            presence_filter: eq_bit(&r.eq, 2),
        }
    }
}

// ---------------------------------------------------------------------------
// Commands
// ---------------------------------------------------------------------------

pub const CMD_AUTH: &'static str = "su adm";

pub const REPLY_AUTH: &'static str = "su=adm";

pub const CMD_BOOT_DSP: &'static str = "bootDSP C";

pub const REPLY_DSP_BOOTED: &'static str = "dspBooted";

pub const CMD_IDENTIFY: &'static str = "identify";

pub const SET_COMPRESSOR: &'static str = "setBlock 19 ";

pub const SET_LIMITER: &'static str = "setBlock 1F ";

pub const SET_EQ: &'static str = "setBlock 31 ";

pub const SET_DSP_MODE: &'static str = "dspMode ";

/// The command that sets the compressor.
pub fn compressor_command(state: Compressor) -> (res: String)
    ensures
        res@ == SET_COMPRESSOR@ + zero_padded(state.code_spec() as nat, 8),
{
    let mut out = String::new();
    push_str(&mut out, SET_COMPRESSOR);
    push_zero_padded(&mut out, state.code(), 8);
    out
}

/// The command that turns the limiter on or off.
pub fn limiter_command(on: bool) -> (res: String)
    ensures
        res@ == SET_LIMITER@ + (if on {
            BLOCK_ON@
        } else {
            BLOCK_OFF@
        }),
{
    let mut out = String::new();
    push_str(&mut out, SET_LIMITER);
    push_str(
        &mut out,
        if on {
            BLOCK_ON
        } else {
            BLOCK_OFF
        },
    );
    out
}

/// The EQ bits that the reply to the EQ query gives, zero where there is
/// none or it is not hexadecimal.
pub fn eq_bits(reply: &Option<String>) -> (res: u32)
    ensures
        res == (match reply.deep_view() {
            Some(v) => match eq_bits_spec(v) {
                Some(b) => b,
                None => 0,
            },
            None => 0,
        }),
{
    match reply {
        Some(s) => {
            let t = trim_str(s.as_str());
            match parse_u32_str(t.as_str(), 16) {
                Some(b) => b,
                None => 0,
            }
        },
        None => 0,
    }
}

/// `current` with the bits of `bit` set or cleared.
pub open spec fn with_bits(current: u32, bit: u32, on: bool) -> u32 {
    if on {
        current | bit
    } else {
        current & !bit
    }
}

pub const HIGH_PASS_BIT: u32 = 1;

pub const PRESENCE_BIT: u32 = 2;

/// The command that writes the EQ block with the bits of `bit` set or
/// cleared and the other bits of `current` kept. The block is written as
/// eight hexadecimal digits, the form in which it is read.
pub fn eq_command(current: u32, bit: u32, on: bool) -> (res: String)
    ensures
        res@ == SET_EQ@ + hex_padded(with_bits(current, bit, on) as nat, 8),
{
    let val = if on {
        current | bit
    } else {
        current & !bit
    };
    let mut out = String::new();
    push_str(&mut out, SET_EQ);
    push_hex_padded(&mut out, val, 8);
    out
}

/// The command that turns the high-pass filter on or off.
pub fn high_pass_command(current: u32, on: bool) -> (res: String)
    ensures
        res@ == SET_EQ@ + hex_padded(with_bits(current, HIGH_PASS_BIT, on) as nat, 8),
{
    eq_command(current, HIGH_PASS_BIT, on)
}

/// The command that turns the presence filter on or off.
pub fn presence_command(current: u32, on: bool) -> (res: String)
    ensures
        res@ == SET_EQ@ + hex_padded(with_bits(current, PRESENCE_BIT, on) as nat, 8),
{
    eq_command(current, PRESENCE_BIT, on)
}

/// The command that sets the DSP mode.
pub fn dsp_mode_command(mode: DspMode) -> (res: String)
    ensures
        res@ == SET_DSP_MODE@ + decimal(mode.code_spec() as nat),
{
    let mut out = String::new();
    push_str(&mut out, SET_DSP_MODE);
    push_decimal(&mut out, mode.code());
    out
}


// ---------------------------------------------------------------------------
// The admin handshake
// ---------------------------------------------------------------------------

/// How long the device has to acknowledge the admin login.
pub const AUTH_TIMEOUT_MS: u64 = 3000;

/// How long the DSP has to report that it booted.
pub const BOOT_TIMEOUT_MS: u64 = 5000;

/// How long each single read waits for a report.
pub const READ_TIMEOUT_MS: i32 = 200;

pub const TIMEOUT_WAITING_FOR: &'static str = "Timeout waiting for '";

pub const QUOTE: &'static str = "'";

/// Where the handshake stands: logging in as admin, then booting the DSP,
/// each time sending a command and reading reports until one acknowledges
/// it or the time for it runs out.
pub enum Handshake {
    Authenticating,
    AwaitingAdmin { since_ms: u64 },
    Booting,
    AwaitingBoot { since_ms: u64 },
    Finished(Result<(), String>),
}

/// What the caller did for the handshake, and when (in milliseconds of a
/// monotonic clock).
pub enum HandshakeEvent {
    Sent { result: Result<(), String>, now_ms: u64 },
    Received { message: Option<String>, now_ms: u64 },
}

/// What the handshake asks the caller to do next.
pub enum HandshakeAction {
    Send(&'static str),
    Read { timeout_ms: i32 },
    Finish(Result<(), String>),
}

pub enum HandshakeModel {
    Authenticating,
    AwaitingAdmin { since_ms: u64 },
    Booting,
    AwaitingBoot { since_ms: u64 },
    Finished(Result<(), Seq<char>>),
}

pub enum HandshakeEventModel {
    Sent { result: Result<(), Seq<char>>, now_ms: u64 },
    Received { message: Option<Seq<char>>, now_ms: u64 },
}

pub enum HandshakeActionModel {
    Send(Seq<char>),
    Read { timeout_ms: i32 },
    Finish(Result<(), Seq<char>>),
}

pub open spec fn result_view(r: Result<(), String>) -> Result<(), Seq<char>> {
    match r {
        Ok(()) => Ok(()),
        Err(e) => Err(e@),
    }
}

impl View for Handshake {
    type V = HandshakeModel;

    open spec fn view(&self) -> HandshakeModel {
        match self {
            Handshake::Authenticating => HandshakeModel::Authenticating,
            Handshake::AwaitingAdmin { since_ms } => HandshakeModel::AwaitingAdmin {
                since_ms: *since_ms,
            },
            Handshake::Booting => HandshakeModel::Booting,
            Handshake::AwaitingBoot { since_ms } => HandshakeModel::AwaitingBoot {
                since_ms: *since_ms,
            },
            Handshake::Finished(r) => HandshakeModel::Finished(result_view(*r)),
        }
    }
}

impl View for HandshakeEvent {
    type V = HandshakeEventModel;

    open spec fn view(&self) -> HandshakeEventModel {
        match self {
            HandshakeEvent::Sent { result, now_ms } => HandshakeEventModel::Sent {
                result: result_view(*result),
                now_ms: *now_ms,
            },
            HandshakeEvent::Received { message, now_ms } => HandshakeEventModel::Received {
                message: message.deep_view(),
                now_ms: *now_ms,
            },
        }
    }
}

impl View for HandshakeAction {
    type V = HandshakeActionModel;

    open spec fn view(&self) -> HandshakeActionModel {
        match self {
            HandshakeAction::Send(c) => HandshakeActionModel::Send(c@),
            HandshakeAction::Read { timeout_ms } => HandshakeActionModel::Read {
                timeout_ms: *timeout_ms,
            },
            HandshakeAction::Finish(r) => HandshakeActionModel::Finish(result_view(*r)),
        }
    }
}

/// `Instant::elapsed` between two clock readings; zero if the clock went back.
pub open spec fn elapsed(since_ms: u64, now_ms: u64) -> u64 {
    if now_ms >= since_ms {
        (now_ms - since_ms) as u64
    } else {
        0
    }
}

/// The error when a wait for `needle` timed out.
pub open spec fn timeout_error(needle: Seq<char>) -> Seq<char> {
    TIMEOUT_WAITING_FOR@ + needle + QUOTE@
}

/// What each stage asks for.
pub open spec fn handshake_pending(s: HandshakeModel) -> HandshakeActionModel {
    match s {
        HandshakeModel::Authenticating => HandshakeActionModel::Send(CMD_AUTH@),
        HandshakeModel::AwaitingAdmin { .. } => HandshakeActionModel::Read {
            timeout_ms: READ_TIMEOUT_MS,
        },
        HandshakeModel::Booting => HandshakeActionModel::Send(CMD_BOOT_DSP@),
        HandshakeModel::AwaitingBoot { .. } => HandshakeActionModel::Read {
            timeout_ms: READ_TIMEOUT_MS,
        },
        HandshakeModel::Finished(r) => HandshakeActionModel::Finish(r),
    }
}

/// One wait: a report that contains `needle` ends it; otherwise the wait
/// goes on while less than `timeout_ms` has passed since it began.
pub open spec fn await_next(
    s: HandshakeModel,
    since_ms: u64,
    message: Option<Seq<char>>,
    now_ms: u64,
    needle: Seq<char>,
    timeout_ms: u64,
    done: HandshakeModel,
) -> HandshakeModel {
    if message matches Some(m) && contains(m, needle) {
        done
    } else if elapsed(since_ms, now_ms) < timeout_ms {
        s
    } else {
        HandshakeModel::Finished(Err(timeout_error(needle)))
    }
}

/// The stage after `e` happened in stage `s`. An event that does not answer
/// the stage's request leaves the stage as it was.
pub open spec fn handshake_next(s: HandshakeModel, e: HandshakeEventModel) -> HandshakeModel {
    match (s, e) {
        (HandshakeModel::Authenticating, HandshakeEventModel::Sent { result, now_ms }) => {
            match result {
                Ok(()) => HandshakeModel::AwaitingAdmin { since_ms: now_ms },
                Err(err) => HandshakeModel::Finished(Err(err)),
            }
        },
        (
            HandshakeModel::AwaitingAdmin { since_ms },
            HandshakeEventModel::Received { message, now_ms },
        ) => await_next(
            s,
            since_ms,
            message,
            now_ms,
            REPLY_AUTH@,
            AUTH_TIMEOUT_MS,
            HandshakeModel::Booting,
        ),
        (HandshakeModel::Booting, HandshakeEventModel::Sent { result, now_ms }) => {
            match result {
                Ok(()) => HandshakeModel::AwaitingBoot { since_ms: now_ms },
                Err(err) => HandshakeModel::Finished(Err(err)),
            }
        },
        (
            HandshakeModel::AwaitingBoot { since_ms },
            HandshakeEventModel::Received { message, now_ms },
        ) => await_next(
            s,
            since_ms,
            message,
            now_ms,
            REPLY_DSP_BOOTED@,
            BOOT_TIMEOUT_MS,
            HandshakeModel::Finished(Ok(())),
        ),
        _ => s,
    }
}

fn timeout_message(needle: &str) -> (res: String)
    ensures
        res@ == timeout_error(needle@),
{
    let mut out = String::new();
    push_str(&mut out, TIMEOUT_WAITING_FOR);
    push_str(&mut out, needle);
    push_str(&mut out, QUOTE);
    out
}

fn elapsed_ms(since_ms: u64, now_ms: u64) -> (res: u64)
    ensures
        res == elapsed(since_ms, now_ms),
{
    if now_ms >= since_ms {
        now_ms - since_ms
    } else {
        0
    }
}

impl Handshake {
    /// What this stage asks the caller to do.
    pub fn action(&self) -> (res: HandshakeAction)
        ensures
            res@ == handshake_pending(self@),
    {
        match self {
            Handshake::Authenticating => HandshakeAction::Send(CMD_AUTH),
            Handshake::AwaitingAdmin { .. } => HandshakeAction::Read {
                timeout_ms: READ_TIMEOUT_MS,
            },
            Handshake::Booting => HandshakeAction::Send(CMD_BOOT_DSP),
            Handshake::AwaitingBoot { .. } => HandshakeAction::Read {
                timeout_ms: READ_TIMEOUT_MS,
            },
            Handshake::Finished(r) => HandshakeAction::Finish(
                match r {
                    Ok(()) => Ok(()),
                    Err(e) => Err(e.clone()),
                },
            ),
        }
    }

    /// The handshake's first stage: sending the admin login.
    pub fn start() -> (res: Handshake)
        ensures
            res@ == HandshakeModel::Authenticating,
    {
        Handshake::Authenticating
    }

    fn await_step(
        self,
        since_ms: u64,
        message: Option<String>,
        now_ms: u64,
        needle: &'static str,
        timeout_ms: u64,
        done: Handshake,
    ) -> (res: Handshake)
        ensures
            res@ == await_next(
                self@,
                since_ms,
                message.deep_view(),
                now_ms,
                needle@,
                timeout_ms,
                done@,
            ),
    {
        let hit = match &message {
            Some(m) => str_contains(m.as_str(), needle),
            None => false,
        };
        if hit {
            done
        } else if elapsed_ms(since_ms, now_ms) < timeout_ms {
            self
        } else {
            Handshake::Finished(Err(timeout_message(needle)))
        }
    }

    /// The stage that follows `event`.
    pub fn step(self, event: HandshakeEvent) -> (res: Handshake)
        ensures
            res@ == handshake_next(self@, event@),
    {
        match (self, event) {
            (Handshake::Authenticating, HandshakeEvent::Sent { result, now_ms }) => {
                match result {
                    Ok(()) => Handshake::AwaitingAdmin { since_ms: now_ms },
                    Err(err) => Handshake::Finished(Err(err)),
                }
            },
            (Handshake::AwaitingAdmin { since_ms }, HandshakeEvent::Received { message, now_ms }) => {
                Handshake::AwaitingAdmin { since_ms }.await_step(
                    since_ms,
                    message,
                    now_ms,
                    REPLY_AUTH,
                    AUTH_TIMEOUT_MS,
                    Handshake::Booting,
                )
            },
            (Handshake::Booting, HandshakeEvent::Sent { result, now_ms }) => {
                match result {
                    Ok(()) => Handshake::AwaitingBoot { since_ms: now_ms },
                    Err(err) => Handshake::Finished(Err(err)),
                }
            },
            (Handshake::AwaitingBoot { since_ms }, HandshakeEvent::Received { message, now_ms }) => {
                Handshake::AwaitingBoot { since_ms }.await_step(
                    since_ms,
                    message,
                    now_ms,
                    REPLY_DSP_BOOTED,
                    BOOT_TIMEOUT_MS,
                    Handshake::Finished(Ok(())),
                )
            },
            (s, _) => s,
        }
    }
}


/// The DSP settings for speech.
pub struct VoicePreset {
    pub dsp_mode: DspMode,
    pub high_pass_filter: bool,
    pub presence_filter: bool,
    pub compressor: Compressor,
    pub limiter: bool,
}

/// The voice preset: manual DSP mode, high-pass and presence filters on,
/// light compression, limiter on.
pub fn voice_preset() -> (res: VoicePreset)
    ensures
        res.dsp_mode == DspMode::Manual,
        res.high_pass_filter,
        res.presence_filter,
        res.compressor == Compressor::Light,
        res.limiter,
{
    VoicePreset {
        dsp_mode: DspMode::Manual,
        high_pass_filter: true,
        presence_filter: true,
        compressor: Compressor::Light,
        limiter: true,
    }
}

// ---------------------------------------------------------------------------
// Laws
// ---------------------------------------------------------------------------

/// A compressor setting's shown name parses back to the setting, and so
/// does its number.
pub proof fn lemma_compressor_names_parse(c: Compressor)
    ensures
        Compressor::parse_spec(c.name_spec()) == Some(c),
        Compressor::parse_spec(decimal(c.code_spec() as nat)) == Some(c),
{
    reveal_strlit("off");
    reveal_strlit("light");
    reveal_strlit("medium");
    reveal_strlit("heavy");
    reveal_strlit("0");
    reveal_strlit("1");
    reveal_strlit("2");
    reveal_strlit("3");
    let n = c.code_spec() as nat;
    assert(decimal(n) =~= seq![digit_char(n as int)]);
    let d = decimal(n);
    match c {
        Compressor::Off => {
            assert(ascii_ci_eq(WORD_OFF@, WORD_OFF@));
            assert(d =~= DIGIT_0@);
            assert(ascii_ci_eq(DIGIT_0@, DIGIT_0@));
        },
        Compressor::Light => {
            assert(!lower_char_matches(WORD_LIGHT@[0], WORD_OFF@[0]));
            assert(ascii_ci_eq(WORD_LIGHT@, WORD_LIGHT@));
            assert(d =~= DIGIT_1@);
            assert(!lower_char_matches(DIGIT_1@[0], WORD_OFF@[0]));
            assert(!lower_char_matches(DIGIT_1@[0], DIGIT_0@[0]));
            assert(ascii_ci_eq(DIGIT_1@, DIGIT_1@));
        },
        Compressor::Medium => {
            assert(ascii_ci_eq(WORD_MEDIUM@, WORD_MEDIUM@));
            assert(d =~= DIGIT_2@);
            assert(!lower_char_matches(DIGIT_2@[0], DIGIT_0@[0]));
            assert(!lower_char_matches(DIGIT_2@[0], DIGIT_1@[0]));
            assert(ascii_ci_eq(DIGIT_2@, DIGIT_2@));
        },
        Compressor::Heavy => {
            assert(!lower_char_matches(WORD_HEAVY@[0], WORD_LIGHT@[0]));
            assert(ascii_ci_eq(WORD_HEAVY@, WORD_HEAVY@));
            assert(d =~= DIGIT_3@);
            assert(!lower_char_matches(DIGIT_3@[0], DIGIT_0@[0]));
            assert(!lower_char_matches(DIGIT_3@[0], DIGIT_1@[0]));
            assert(!lower_char_matches(DIGIT_3@[0], DIGIT_2@[0]));
            assert(ascii_ci_eq(DIGIT_3@, DIGIT_3@));
        },
    }
}

/// Eight zero-padded decimal digits of a number below ten read back as that
/// number, in decimal and in hexadecimal alike.
pub proof fn lemma_padded_digit_reads_back(n: nat, radix: int)
    requires
        n < 10,
        radix == 10 || radix == 16,
    ensures
        parse_u32(zero_padded(n, 8), radix) == Some(n as u32),
{
    let z = Seq::new(7, |i: int| '0');
    let s = zero_padded(n, 8);
    assert(decimal(n) =~= seq![digit_char(n as int)]);
    assert(s =~= z.push(digit_char(n as int)));
    assert(s.drop_last() =~= z);
    lemma_zeros_value(7, radix);
    assert((digit_char(n as int) as u32) == n + 48);
    assert(unsigned_digits(s) == s);
    assert(all_digits(s, radix)) by {
        assert forall|i: int| 0 <= i < s.len() implies digit_value(#[trigger] s[i], radix)
            >= 0 by {
            if i < 7 {
                assert(s[i] == '0');
            }
        }
    }
}

/// What the compressor command writes to the compressor block reads back
/// as the same setting.
pub proof fn lemma_compressor_block_reads_back(c: Compressor)
    ensures
        Compressor::from_hex_spec(zero_padded(c.code_spec() as nat, 8)) == Some(c),
{
    let s = zero_padded(c.code_spec() as nat, 8);
    lemma_padded_digit_reads_back(c.code_spec() as nat, 16);
    assert(decimal(c.code_spec() as nat) =~= seq![digit_char(c.code_spec() as int)]);
    assert(s[0] == '0');
    assert(trim_start(s) == s);
    assert(!is_whitespace(s.last()));
    assert(trim_end(s) == s);
}

/// What the limiter command writes to the limiter block reads back as the
/// same on/off state.
pub proof fn lemma_limiter_block_reads_back(on: bool)
    ensures
        opt_is(
            Some(
                if on {
                    BLOCK_ON@
                } else {
                    BLOCK_OFF@
                },
            ),
            BLOCK_ON@,
        ) == Some(on),
{
    reveal_strlit("00000001");
    reveal_strlit("00000000");
    if !on {
        assert(BLOCK_OFF@[7] != BLOCK_ON@[7]);
    }
}

/// What an EQ command writes reads back as the block it meant to write:
/// the bits of `bit` as asked, and every other bit of `current` as it was.
pub proof fn lemma_eq_block_reads_back(current: u32, bit: u32, on: bool)
    requires
        bit != 0,
    ensures
        eq_bits_spec(hex_padded(with_bits(current, bit, on) as nat, 8)) == Some(
            with_bits(current, bit, on),
        ),
        (with_bits(current, bit, on) & bit != 0) == on,
        with_bits(current, bit, on) & !bit == current & !bit,
{
    let v = with_bits(current, bit, on);
    assert((v & bit != 0) == on && v & !bit == current & !bit) by (bit_vector)
        requires
            bit != 0,
            v == (if on {
                current | bit
            } else {
                current & !bit
            }),
    ;
    lemma_hex_padded_reads_back(v, 8);
}

/// Each filter shows on exactly when its own bit of the EQ block is set,
/// whatever the other bits hold; a missing or unreadable block shows
/// neither.
pub proof fn lemma_filters_read_from_their_bits(reply: Option<Seq<char>>)
    ensures
        match reply {
            Some(v) => match parse_u32(trim(v), 16) {
                Some(b) => opt_eq_bit(reply, HIGH_PASS_BIT) == Some(b & 1 != 0) && opt_eq_bit(
                    reply,
                    PRESENCE_BIT,
                ) == Some(b & 2 != 0),
                None => opt_eq_bit(reply, HIGH_PASS_BIT) is None && opt_eq_bit(
                    reply,
                    PRESENCE_BIT,
                ) is None,
            },
            None => opt_eq_bit(reply, HIGH_PASS_BIT) is None && opt_eq_bit(reply, PRESENCE_BIT)
                is None,
        },
{
}

/// After a filter command, the state read from the block it wrote shows
/// that filter as asked and the other filter as it was in `current`.
pub proof fn lemma_filter_commands_read_back(current: u32, on: bool)
    ensures
        opt_eq_bit(Some(hex_padded(with_bits(current, HIGH_PASS_BIT, on) as nat, 8)), HIGH_PASS_BIT)
            == Some(on),
        opt_eq_bit(Some(hex_padded(with_bits(current, HIGH_PASS_BIT, on) as nat, 8)), PRESENCE_BIT)
            == Some(current & 2 != 0),
        opt_eq_bit(Some(hex_padded(with_bits(current, PRESENCE_BIT, on) as nat, 8)), PRESENCE_BIT)
            == Some(on),
        opt_eq_bit(Some(hex_padded(with_bits(current, PRESENCE_BIT, on) as nat, 8)), HIGH_PASS_BIT)
            == Some(current & 1 != 0),
{
    let h = with_bits(current, HIGH_PASS_BIT, on);
    let p = with_bits(current, PRESENCE_BIT, on);
    lemma_eq_block_reads_back(current, HIGH_PASS_BIT, on);
    lemma_eq_block_reads_back(current, PRESENCE_BIT, on);
    lemma_filters_read_from_their_bits(Some(hex_padded(h as nat, 8)));
    lemma_filters_read_from_their_bits(Some(hex_padded(p as nat, 8)));
    assert((h & 1 != 0) == on && (h & 2 != 0) == (current & 2 != 0) && (p & 2 != 0) == on && (p
        & 1 != 0) == (current & 1 != 0)) by (bit_vector)
        requires
            h == (if on {
                current | 1
            } else {
                current & !1u32
            }),
            p == (if on {
                current | 2
            } else {
                current & !2u32
            }),
    ;
}

pub const GET_BLOCK: &'static str = "getBlock ";

pub const SET_BLOCK: &'static str = "setBlock ";

/// How the device answers a query command with the value `v`: a block read
/// `getBlock ID` as `block ID v`, any other query `name` as `name=v`.
pub open spec fn device_answer(cmd: Seq<char>, v: Seq<char>) -> Seq<char> {
    if starts_with(cmd, GET_BLOCK@) {
        BLOCK_PREFIX@ + cmd.skip(GET_BLOCK@.len() as int) + seq![' '] + v
    } else {
        cmd + seq!['='] + v
    }
}

proof fn lemma_named_answer_found(name: Seq<char>, v: Seq<char>)
    ensures
        find_value_spec(seq![name + seq!['='] + v], name) == Some(v),
{
    let m = name + seq!['='] + v;
    assert(m.subrange(0, name.len() + 1int) =~= name.push('='));
    assert(m.skip(name.len() + 1int) =~= v);
    assert(seq![m][0] == m);
}

proof fn lemma_block_answer_found(id: Seq<char>, v: Seq<char>)
    requires
        id.len() > 0,
        id[0] != 'b',
    ensures
        find_value_spec(seq![BLOCK_PREFIX@ + id + seq![' '] + v], id) == Some(v),
{
    reveal_strlit("block ");
    let m = BLOCK_PREFIX@ + id + seq![' '] + v;
    assert(m[0] == 'b');
    assert(!starts_with(m, id.push('='))) by {
        if starts_with(m, id.push('=')) {
            assert(m[0] == m.subrange(0, id.len() + 1int)[0]);
        }
    }
    assert(m.subrange(0, 6) =~= BLOCK_PREFIX@);
    assert(m.skip(6).subrange(0, id.len() + 1int) =~= id.push(' '));
    assert(m.skip(6 + id.len() + 1int) =~= v);
    assert(seq![m][0] == m);
}

proof fn lemma_not_block_read(cmd: Seq<char>)
    requires
        cmd.len() > 0,
        cmd[0] != 'g',
    ensures
        !starts_with(cmd, GET_BLOCK@),
{
    reveal_strlit("getBlock ");
    if starts_with(cmd, GET_BLOCK@) {
        assert(cmd[0] == cmd.subrange(0, 9)[0]);
    }
}

proof fn lemma_block_read(id: Seq<char>)
    ensures
        starts_with(GET_BLOCK@ + id, GET_BLOCK@),
        (GET_BLOCK@ + id).skip(GET_BLOCK@.len() as int) == id,
{
    assert((GET_BLOCK@ + id).subrange(0, GET_BLOCK@.len() as int) =~= GET_BLOCK@);
    assert((GET_BLOCK@ + id).skip(GET_BLOCK@.len() as int) =~= id);
}

/// Each state query's prefix finds the device's answer to that query's
/// command, whatever value it carries; and each block that is read is the
/// block that the matching set command writes.
pub proof fn lemma_state_query_finds_answer(q: StateQuery, v: Seq<char>)
    ensures
        find_value_spec(seq![device_answer(q.command_spec(), v)], q.prefix_spec()) == Some(v),
        SET_COMPRESSOR@ == SET_BLOCK@ + StateQuery::CompressorBlock.prefix_spec() + seq![' '],
        SET_LIMITER@ == SET_BLOCK@ + StateQuery::LimiterBlock.prefix_spec() + seq![' '],
        SET_EQ@ == SET_BLOCK@ + StateQuery::EqBlock.prefix_spec() + seq![' '],
{
    reveal_strlit("fwVersion");
    reveal_strlit("serialNum");
    reveal_strlit("dspMode");
    reveal_strlit("inputGain");
    reveal_strlit("micMute");
    reveal_strlit("volume");
    reveal_strlit("audioMute");
    reveal_strlit("getBlock 19");
    reveal_strlit("getBlock 1F");
    reveal_strlit("getBlock 31");
    reveal_strlit("getBlock ");
    reveal_strlit("setBlock ");
    reveal_strlit("setBlock 19 ");
    reveal_strlit("setBlock 1F ");
    reveal_strlit("setBlock 31 ");
    reveal_strlit("19");
    reveal_strlit("1F");
    reveal_strlit("31");
    assert(SET_COMPRESSOR@ =~= SET_BLOCK@ + "19"@ + seq![' ']);
    assert(SET_LIMITER@ =~= SET_BLOCK@ + "1F"@ + seq![' ']);
    assert(SET_EQ@ =~= SET_BLOCK@ + "31"@ + seq![' ']);
    let cmd = q.command_spec();
    let p = q.prefix_spec();
    match q {
        StateQuery::CompressorBlock | StateQuery::LimiterBlock | StateQuery::EqBlock => {
            assert(cmd =~= GET_BLOCK@ + p);
            lemma_block_read(p);
            lemma_block_answer_found(p, v);
        },
        _ => {
            assert(p == cmd);
            lemma_not_block_read(cmd);
            lemma_named_answer_found(cmd, v);
        },
    }
}

proof fn lemma_encode_scalar_nonzero(c: char)
    requires
        c != '\0',
    ensures
        forall|i: int| 0 <= i < encode_scalar(c as u32).len() ==> #[trigger] encode_scalar(
            c as u32,
        )[i] != 0,
{
    let v = c as u32;
    assert(v != 0);
    assert(1 <= v && v <= 0x7F ==> (v & 0x7F) as u8 != 0) by (bit_vector);
    assert(forall|x: u8| #[trigger] (0xC0u8 | x) != 0) by (bit_vector);
    assert(forall|x: u8| #[trigger] (0xE0u8 | x) != 0) by (bit_vector);
    assert(forall|x: u8| #[trigger] (0xF0u8 | x) != 0) by (bit_vector);
    assert(forall|x: u8| #[trigger] (0x80u8 | x) != 0) by (bit_vector);
}

proof fn lemma_encode_utf8_nonzero(s: Seq<char>)
    requires
        forall|i: int| 0 <= i < s.len() ==> s[i] != '\0',
    ensures
        forall|i: int| 0 <= i < encode_utf8(s).len() ==> #[trigger] encode_utf8(s)[i] != 0,
    decreases s.len(),
{
    if s.len() > 0 {
        lemma_encode_scalar_nonzero(s[0]);
        lemma_encode_utf8_nonzero(s.drop_first());
        let a = encode_scalar(s[0] as u32);
        let b = encode_utf8(s.drop_first());
        assert(encode_utf8(s) == a + b);
        assert forall|i: int| 0 <= i < encode_utf8(s).len() implies #[trigger] encode_utf8(s)[i]
            != 0 by {
            if i < a.len() {
                assert(encode_utf8(s)[i] == a[i]);
            } else {
                assert(encode_utf8(s)[i] == b[i - a.len()]);
            }
        }
    }
}

proof fn lemma_first_zero_none(b: Seq<u8>)
    requires
        forall|i: int| 0 <= i < b.len() ==> b[i] != 0,
    ensures
        first_zero(b) is None,
    decreases b.len(),
{
    if b.len() > 0 {
        lemma_first_zero_none(b.drop_first());
    }
}

proof fn lemma_first_zero_at(b: Seq<u8>, k: int)
    requires
        0 <= k < b.len(),
        b[k] == 0,
        forall|i: int| 0 <= i < k ==> b[i] != 0,
    ensures
        first_zero(b) == Some(k),
    decreases k,
{
    if k > 0 {
        lemma_first_zero_at(b.drop_first(), k - 1);
    }
}

/// A command that fits in a report and holds no NUL character comes out of
/// its report unchanged when the whole report is read back.
pub proof fn lemma_report_round_trip(cmd: Seq<char>)
    requires
        encode_utf8(cmd).len() <= HID_REPORT_SIZE,
        forall|i: int| 0 <= i < cmd.len() ==> cmd[i] != '\0',
    ensures
        decode_report_spec(report_bytes(encode_utf8(cmd)), HID_REPORT_SIZE as int) == Some(cmd),
{
    let bytes = encode_utf8(cmd);
    let rep = report_bytes(bytes);
    lemma_encode_utf8_nonzero(cmd);
    if bytes.len() < HID_REPORT_SIZE {
        lemma_first_zero_at(rep, bytes.len() as int);
    } else {
        lemma_first_zero_none(rep);
    }
    assert(rep.take(reply_end(rep, HID_REPORT_SIZE as int)) =~= bytes);
    encode_utf8_valid_utf8(cmd);
    encode_utf8_decode_utf8(cmd);
}

/// The handshake completes only on a report that acknowledges the DSP boot,
/// read while waiting for it.
pub proof fn lemma_handshake_completes_on_boot_reply(s: HandshakeModel, e: HandshakeEventModel)
    requires
        handshake_next(s, e) == HandshakeModel::Finished(Ok(())),
        s != HandshakeModel::Finished(Ok(())),
    ensures
        s is AwaitingBoot,
        e matches HandshakeEventModel::Received { message: Some(m), .. } && contains(
            m,
            REPLY_DSP_BOOTED@,
        ),
{
    reveal_strlit("Timeout waiting for '");
}

/// The DSP boot command is asked for only after a report acknowledged the
/// admin login.
pub proof fn lemma_boot_follows_admin_reply(s: HandshakeModel, e: HandshakeEventModel)
    requires
        handshake_next(s, e) == HandshakeModel::Booting,
        s != HandshakeModel::Booting,
    ensures
        s is AwaitingAdmin,
        e matches HandshakeEventModel::Received { message: Some(m), .. } && contains(
            m,
            REPLY_AUTH@,
        ),
{
}

/// A wait asks for another read only while its time has not run out.
pub proof fn lemma_reads_only_within_timeout(s: HandshakeModel, e: HandshakeEventModel)
    requires
        handshake_pending(handshake_next(s, e)) is Read,
        e is Received,
    ensures
        match (handshake_next(s, e), e) {
            (HandshakeModel::AwaitingAdmin { since_ms }, HandshakeEventModel::Received {
                now_ms,
                ..
            }) => elapsed(since_ms, now_ms) < AUTH_TIMEOUT_MS,
            (HandshakeModel::AwaitingBoot { since_ms }, HandshakeEventModel::Received {
                now_ms,
                ..
            }) => elapsed(since_ms, now_ms) < BOOT_TIMEOUT_MS,
            _ => false,
        },
{
}

} // verus!
