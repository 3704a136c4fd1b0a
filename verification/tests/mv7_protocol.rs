use omarchy_mic::mv7::{
    compressor_command, decode_report, dsp_mode_command, encode_report, eq_bits, find_value,
    high_pass_command, is_mv7_interface, limiter_command, presence_command, reply_value_of,
    voice_preset, Compressor, DspMode, Handshake, HandshakeAction, HandshakeEvent, Mv7Replies,
    Mv7State, StateQuery, HID_REPORT_SIZE,
};

#[test]
fn compressor_from_str_accepts_names_and_numbers() {
    assert_eq!(Compressor::from_str("off"), Some(Compressor::Off));
    assert_eq!(Compressor::from_str("0"), Some(Compressor::Off));
    assert_eq!(Compressor::from_str("Light"), Some(Compressor::Light));
    assert_eq!(Compressor::from_str("1"), Some(Compressor::Light));
    assert_eq!(Compressor::from_str("MEDIUM"), Some(Compressor::Medium));
    assert_eq!(Compressor::from_str("2"), Some(Compressor::Medium));
    assert_eq!(Compressor::from_str("hEaVy"), Some(Compressor::Heavy));
    assert_eq!(Compressor::from_str("3"), Some(Compressor::Heavy));
}

#[test]
fn compressor_from_str_rejects_other_words() {
    assert_eq!(Compressor::from_str(""), None);
    assert_eq!(Compressor::from_str("4"), None);
    assert_eq!(Compressor::from_str(" light"), None);
    assert_eq!(Compressor::from_str("lights"), None);
    assert_eq!(Compressor::from_str("ön"), None);
}

#[test]
fn compressor_names_parse_back() {
    for c in [Compressor::Off, Compressor::Light, Compressor::Medium, Compressor::Heavy] {
        assert_eq!(Compressor::from_str(&c.name()), Some(c));
        assert_eq!(Compressor::from_str(&c.code().to_string()), Some(c));
    }
    assert_eq!(Compressor::Off.name(), "off");
    assert_eq!(Compressor::Heavy.name(), "heavy");
    assert_eq!(DspMode::Manual.name(), "manual");
    assert_eq!(DspMode::Auto.name(), "auto");
}

#[test]
fn compressor_from_hex_reads_block_values() {
    assert_eq!(Compressor::from_hex("00000000"), Some(Compressor::Off));
    assert_eq!(Compressor::from_hex(" 00000003\n"), Some(Compressor::Heavy));
    assert_eq!(Compressor::from_hex("+2"), Some(Compressor::Medium));
    assert_eq!(Compressor::from_hex("00000004"), None);
    assert_eq!(Compressor::from_hex("0000000a"), None);
    assert_eq!(Compressor::from_hex("xyz"), None);
    assert_eq!(Compressor::from_hex(""), None);
    assert_eq!(Compressor::from_hex("+"), None);
    assert_eq!(Compressor::from_hex("100000001"), None);
}

#[test]
fn commands_are_formatted_as_the_device_expects() {
    assert_eq!(compressor_command(Compressor::Off), "setBlock 19 00000000");
    assert_eq!(compressor_command(Compressor::Light), "setBlock 19 00000001");
    assert_eq!(compressor_command(Compressor::Heavy), "setBlock 19 00000003");
    assert_eq!(limiter_command(true), "setBlock 1F 00000001");
    assert_eq!(limiter_command(false), "setBlock 1F 00000000");
    assert_eq!(high_pass_command(2, true), "setBlock 31 00000003");
    assert_eq!(high_pass_command(3, false), "setBlock 31 00000002");
    assert_eq!(presence_command(1, true), "setBlock 31 00000003");
    assert_eq!(presence_command(3, false), "setBlock 31 00000001");
    assert_eq!(presence_command(0, false), "setBlock 31 00000000");
    assert_eq!(dsp_mode_command(DspMode::Manual), "dspMode 1");
    assert_eq!(dsp_mode_command(DspMode::Auto), "dspMode 2");
}

#[test]
fn eq_value_is_written_in_hex() {
    // The block is read as hexadecimal, so it is written that way too.
    assert_eq!(high_pass_command(16, true), "setBlock 31 00000011");
    assert_eq!(high_pass_command(0xC, true), "setBlock 31 0000000D");
    assert_eq!(presence_command(0xE, false), "setBlock 31 0000000C");
    assert_eq!(presence_command(0xFA, true), "setBlock 31 000000FA");
    assert_eq!(high_pass_command(u32::MAX, false), "setBlock 31 FFFFFFFE");
}

#[test]
fn eq_bits_default_to_zero() {
    assert_eq!(eq_bits(&Some("00000003".to_string())), 3);
    assert_eq!(eq_bits(&Some(" 0000001F ".to_string())), 31);
    assert_eq!(eq_bits(&Some("zz".to_string())), 0);
    assert_eq!(eq_bits(&None), 0);
}

#[test]
fn report_carries_command_then_zeros() {
    let r = encode_report("su adm");
    assert_eq!(r.len(), HID_REPORT_SIZE);
    assert_eq!(&r[..6], b"su adm");
    assert!(r[6..].iter().all(|&b| b == 0));
    let long = "x".repeat(70);
    let r = encode_report(&long);
    assert_eq!(r.len(), 64);
    assert!(r.iter().all(|&b| b == b'x'));
}

#[test]
fn report_round_trip() {
    let cmd = "setBlock 31 00000003";
    let r = encode_report(cmd);
    assert_eq!(decode_report(&r, r.len()), Some(cmd.to_string()));
    let full = "y".repeat(64);
    let r = encode_report(&full);
    assert_eq!(decode_report(&r, 64), Some(full));
}

#[test]
fn decode_report_stops_at_zero_or_length() {
    let mut buf = vec![0u8; 64];
    buf[..5].copy_from_slice(b"hello");
    assert_eq!(decode_report(&buf, 0), None);
    assert_eq!(decode_report(&buf, 64), Some("hello".to_string()));
    let full = vec![b'a'; 64];
    assert_eq!(decode_report(&full, 3), Some("aaa".to_string()));
}

#[test]
fn decode_report_replaces_invalid_utf8() {
    let mut buf = vec![0u8; 64];
    buf[0] = b'f';
    buf[1] = 0xff;
    buf[2] = b'o';
    assert_eq!(decode_report(&buf, 3), Some("f\u{FFFD}o".to_string()));
}

#[test]
fn reply_values_are_found_by_prefix() {
    assert_eq!(reply_value_of("fwVersion=1.2.3", "fwVersion"), Some("1.2.3".to_string()));
    assert_eq!(reply_value_of("block 19 00000002", "19"), Some("00000002".to_string()));
    assert_eq!(reply_value_of("block 1F 00000001", "19"), None);
    assert_eq!(reply_value_of("fwVersion 1.2.3", "fwVersion"), None);
    let msgs = vec![
        "su=adm".to_string(),
        "inputGain=24.00dB".to_string(),
        "inputGain=30.00dB".to_string(),
    ];
    assert_eq!(find_value(&msgs, "inputGain"), Some("24.00dB".to_string()));
    assert_eq!(find_value(&msgs, "volume"), None);
    assert_eq!(find_value(&Vec::new(), "volume"), None);
}

#[test]
fn state_queries_name_commands_and_prefixes() {
    assert_eq!(StateQuery::FirmwareVersion.command(), "fwVersion");
    assert_eq!(StateQuery::CompressorBlock.command(), "getBlock 19");
    assert_eq!(StateQuery::CompressorBlock.prefix(), "19");
    assert_eq!(StateQuery::LimiterBlock.prefix(), "1F");
    assert_eq!(StateQuery::EqBlock.command(), "getBlock 31");
    assert_eq!(StateQuery::InputMute.command(), "micMute");
    assert_eq!(StateQuery::MonitorMute.prefix(), "audioMute");
}

fn some(s: &str) -> Option<String> {
    Some(s.to_string())
}

#[test]
fn state_is_read_from_replies() {
    let r = Mv7Replies {
        firmware_version: some("2.3.0"),
        serial_number: some("ABC123"),
        mode: some("1"),
        input_gain: some("24.00dB"),
        input_mute: some("off"),
        monitor_volume: some("-6.0dBdB"),
        monitor_mute: some("on"),
        compressor: some("00000002"),
        limiter: some("00000001"),
        eq: some("00000002"),
    };
    let s = Mv7State::from_replies(&r);
    assert_eq!(s.firmware_version.as_deref(), Some("2.3.0"));
    assert_eq!(s.serial_number.as_deref(), Some("ABC123"));
    assert_eq!(s.mode, Some(DspMode::Manual));
    assert_eq!(s.input_gain.as_deref(), Some("24.00"));
    assert_eq!(s.input_mute, Some(false));
    assert_eq!(s.monitor_volume.as_deref(), Some("-6.0"));
    assert_eq!(s.monitor_mute, Some(true));
    assert_eq!(s.compressor, Some(Compressor::Medium));
    assert_eq!(s.limiter, Some(true));
    assert_eq!(s.high_pass_filter, Some(false));
    assert_eq!(s.presence_filter, Some(true));
}

#[test]
fn missing_or_odd_replies_leave_fields_unknown() {
    let r = Mv7Replies {
        firmware_version: None,
        serial_number: None,
        mode: some("2"),
        input_gain: None,
        input_mute: None,
        monitor_volume: None,
        monitor_mute: None,
        compressor: some("00000009"),
        limiter: some("00000000"),
        eq: some("nothex"),
    };
    let s = Mv7State::from_replies(&r);
    assert_eq!(s.firmware_version, None);
    assert_eq!(s.mode, Some(DspMode::Auto));
    assert_eq!(s.input_gain, None);
    assert_eq!(s.compressor, None);
    assert_eq!(s.limiter, Some(false));
    assert_eq!(s.high_pass_filter, None);
    assert_eq!(s.presence_filter, None);
}

#[test]
fn written_blocks_read_back() {
    // What the set commands write, the state reads back the same.
    for c in [Compressor::Off, Compressor::Light, Compressor::Medium, Compressor::Heavy] {
        let cmd = compressor_command(c);
        let value = cmd.trim_start_matches("setBlock 19 ");
        assert_eq!(Compressor::from_hex(value), Some(c));
    }
    let currents = (0..64u32).chain([0xABCD, 0x8000_0000, u32::MAX - 1, u32::MAX]);
    for current in currents {
        for on in [true, false] {
            let cmd = high_pass_command(current, on);
            let v = eq_bits(&Some(cmd.trim_start_matches("setBlock 31 ").to_string()));
            assert_eq!(v & 1 != 0, on);
            assert_eq!(v & !1, current & !1);
            let cmd = presence_command(current, on);
            let v = eq_bits(&Some(cmd.trim_start_matches("setBlock 31 ").to_string()));
            assert_eq!(v & 2 != 0, on);
            assert_eq!(v & !2, current & !2);
        }
    }
}

#[test]
fn only_the_mv7_data_interface_matches() {
    assert!(is_mv7_interface(0x14ED, 0x1012, 3));
    assert!(!is_mv7_interface(0x14ED, 0x1012, 0));
    assert!(!is_mv7_interface(0x14ED, 0x1013, 3));
    assert!(!is_mv7_interface(0x046D, 0x1012, 3));
}

#[test]
fn voice_preset_settings() {
    let p = voice_preset();
    assert_eq!(p.dsp_mode, DspMode::Manual);
    assert!(p.high_pass_filter);
    assert!(p.presence_filter);
    assert_eq!(p.compressor, Compressor::Light);
    assert!(p.limiter);
}

fn sent(now_ms: u64) -> HandshakeEvent {
    HandshakeEvent::Sent { result: Ok(()), now_ms }
}

fn got(msg: Option<&str>, now_ms: u64) -> HandshakeEvent {
    HandshakeEvent::Received { message: msg.map(|m| m.to_string()), now_ms }
}

#[test]
fn handshake_logs_in_then_boots() {
    let h = Handshake::start();
    assert!(matches!(h.action(), HandshakeAction::Send("su adm")));
    let h = h.step(sent(0));
    assert!(matches!(h.action(), HandshakeAction::Read { timeout_ms: 200 }));
    let h = h.step(got(Some("hello"), 100));
    assert!(matches!(h.action(), HandshakeAction::Read { .. }));
    let h = h.step(got(None, 300));
    assert!(matches!(h.action(), HandshakeAction::Read { .. }));
    let h = h.step(got(Some("ok su=adm"), 500));
    assert!(matches!(h.action(), HandshakeAction::Send("bootDSP C")));
    let h = h.step(sent(600));
    let h = h.step(got(Some("dspBooted"), 4000));
    assert!(matches!(h.action(), HandshakeAction::Finish(Ok(()))));
}

#[test]
fn handshake_times_out() {
    let h = Handshake::start().step(sent(1000));
    let h = h.step(got(Some("nope"), 3999));
    assert!(matches!(h.action(), HandshakeAction::Read { .. }));
    let h = h.step(got(None, 4000));
    match h.action() {
        HandshakeAction::Finish(Err(e)) => assert_eq!(e, "Timeout waiting for 'su=adm'"),
        _ => panic!("expected a timeout"),
    }
    let h = Handshake::start().step(sent(0)).step(got(Some("su=adm"), 10)).step(sent(20));
    let h = h.step(got(Some("x"), 5020));
    match h.action() {
        HandshakeAction::Finish(Err(e)) => assert_eq!(e, "Timeout waiting for 'dspBooted'"),
        _ => panic!("expected a timeout"),
    }
}

#[test]
fn handshake_fails_when_a_write_fails() {
    let h = Handshake::start().step(HandshakeEvent::Sent {
        result: Err("HID write error: gone".to_string()),
        now_ms: 0,
    });
    match h.action() {
        HandshakeAction::Finish(Err(e)) => assert_eq!(e, "HID write error: gone"),
        _ => panic!("expected the write error"),
    }
}

#[test]
fn handshake_ignores_events_that_do_not_answer() {
    let h = Handshake::start().step(got(Some("su=adm"), 0));
    assert!(matches!(h.action(), HandshakeAction::Send("su adm")));
}
