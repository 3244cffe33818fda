use pulse_tui::iec104::{
    build_i_frame, cause_name, control_sequence, describe_apdu, drain_frames,
    general_interrogation_asdu, information_value, is_i_frame, s_frame, startdt_act,
    startdt_con, stopdt_con, testfr_con, u_frame_response, validate_apdu, Iec104Command,
    Iec104Config, Iec104Session,
};

#[test]
fn drains_fragmented_and_multiple_frames() {
    let mut buffer = vec![0x00, 0x68, 0x04, 0x0b, 0, 0, 0, 0x68, 0x04];
    let frames = drain_frames(&mut buffer);
    assert_eq!(frames, vec![startdt_con().to_vec()]);
    assert_eq!(buffer, vec![0x68, 0x04]);

    buffer.extend_from_slice(&[0x83, 0, 0, 0]);
    assert_eq!(drain_frames(&mut buffer), vec![testfr_con().to_vec()]);
}

#[test]
fn builds_general_interrogation_with_little_endian_common_address() {
    let config = Iec104Config {
        common_address: 0x1234,
        originator_address: 7,
        ..Iec104Config::default()
    };
    let frame = build_i_frame(2, 3, &general_interrogation_asdu(&config));
    assert_eq!(&frame[..6], &[0x68, 14, 4, 0, 6, 0]);
    assert_eq!(&frame[6..], &[100, 1, 6, 7, 0x34, 0x12, 0, 0, 0, 20]);
}

#[test]
fn describes_measurement_frame() {
    let frame = [
        0x68, 18, 0, 0, 0, 0, 13, 1, 3, 0, 1, 0, 42, 0, 0, 0, 0, 0x80, 0x3f,
    ];
    let text = describe_apdu(&frame);
    assert!(text.contains("M_ME_NC_1(13)"));
    assert!(text.contains("IOA=42"));
    assert!(text.contains("value=1.000000"));
}

#[test]
fn rejects_bad_raw_length() {
    assert!(validate_apdu(&[0x68, 4, 0x07]).is_err());
    assert!(validate_apdu(&[0x68, 5, 0x07, 0, 0, 0]).is_err());
}

#[test]
fn validate_messages_name_the_fault() {
    assert_eq!(
        validate_apdu(&[0x67, 4, 0x07, 0, 0, 0]),
        Err("IEC 104 raw frame must start with 68 and include a 4-byte control field".to_string())
    );
    assert_eq!(
        validate_apdu(&[0x68, 5, 0x07, 0, 0, 0]),
        Err("IEC 104 APDU length mismatch: header says 5, got 4 bytes".to_string())
    );
    assert_eq!(validate_apdu(&startdt_act()), Ok(()));
}

#[test]
fn drains_junk_and_short_length_octets() {
    // A 68 announcing fewer than four control bytes is skipped.
    let mut buffer = vec![0x11, 0x68, 0x02, 0x22, 0x68, 0x04, 0x43, 0, 0, 0, 0x99];
    let frames = drain_frames(&mut buffer);
    assert_eq!(frames, vec![vec![0x68, 0x04, 0x43, 0, 0, 0]]);
    assert!(buffer.is_empty());
}

#[test]
fn fragmented_input_gives_the_same_frames_as_whole_input() {
    let whole: Vec<u8> = vec![
        0x05, 0x68, 0x04, 0x07, 0, 0, 0, 0x68, 0x04, 0x01, 0, 0x04, 0, 0x68, 0x04,
    ];
    let mut at_once = whole.clone();
    let all = drain_frames(&mut at_once);
    for cut in 0..whole.len() {
        let mut buffer = whole[..cut].to_vec();
        let mut frames = drain_frames(&mut buffer);
        buffer.extend_from_slice(&whole[cut..]);
        frames.extend(drain_frames(&mut buffer));
        assert_eq!(frames, all);
        assert_eq!(buffer, at_once);
    }
    // Draining again without new bytes yields nothing.
    assert!(drain_frames(&mut at_once).is_empty());
    assert_eq!(at_once, vec![0x68, 0x04]);
}

#[test]
fn control_fields_round_trip() {
    for n in [0u16, 1, 2, 0x3fff, 0x7fff, 0x8000, 0xffff] {
        let s = s_frame(n);
        assert_eq!(control_sequence(s[4], s[5]), n & 0x7fff);
        let f = build_i_frame(n, n.wrapping_add(5), &[1, 2]);
        assert!(is_i_frame(&f));
        assert_eq!(control_sequence(f[2], f[3]), n & 0x7fff);
        assert_eq!(control_sequence(f[4], f[5]), n.wrapping_add(5) & 0x7fff);
        assert_eq!(f[1], 6);
    }
    assert_eq!(s_frame(3), [0x68, 4, 0x01, 0, 6, 0]);
}

#[test]
fn answers_u_frame_activations() {
    assert_eq!(u_frame_response(&startdt_act()), Some(startdt_con()));
    assert_eq!(u_frame_response(&[0x68, 4, 0x13, 0, 0, 0]), Some(stopdt_con()));
    assert_eq!(u_frame_response(&[0x68, 4, 0x43, 0, 0, 0]), Some(testfr_con()));
    assert_eq!(u_frame_response(&[0x68, 4, 0x0b, 0, 0, 0]), None);
    assert_eq!(u_frame_response(&[0x68, 4, 0x07]), None);
}

#[test]
fn describes_every_frame_kind() {
    assert_eq!(describe_apdu(&[0x68, 4]), "invalid APDU");
    assert_eq!(describe_apdu(&[0x68, 4, 0x01, 0, 0x0a, 0]), "S ACK R=5");
    assert_eq!(describe_apdu(&[0x68, 4, 0x07, 0, 0, 0]), "U STARTDT act");
    assert_eq!(describe_apdu(&[0x68, 4, 0x83, 0, 0, 0]), "U TESTFR con");
    assert_eq!(describe_apdu(&[0x68, 4, 0xff, 0, 0, 0]), "U control=0xFF");
    assert_eq!(describe_apdu(&[0x68, 4, 0x02, 0, 0x04, 0]), "I S=1 R=2 (missing ASDU header)");
    let gi = [0x68, 14, 0, 0, 0, 0, 100, 0x81, 0xc7, 0, 0x34, 0x12, 0, 0, 0, 20];
    assert_eq!(
        describe_apdu(&gi),
        "I S=0 R=0 C_IC_NA_1(100) VSQ=1 SQ COT=activation-confirm NEG TEST CA=4660 IOA=0 value=QOI=20"
    );
    let scaled = [0x68, 16, 0, 0, 0, 0, 11, 1, 3, 0, 1, 0, 7, 0, 1, 0xfe, 0xff, 0];
    assert_eq!(
        describe_apdu(&scaled),
        "I S=0 R=0 M_ME_NB_1(11) VSQ=1 COT=spontaneous CA=1 IOA=65543 value=-2"
    );
}

#[test]
fn information_values_by_type() {
    assert_eq!(information_value(1, &[1]), Some("true".to_string()));
    assert_eq!(information_value(30, &[2]), Some("false".to_string()));
    assert_eq!(information_value(3, &[7]), Some("3".to_string()));
    assert_eq!(information_value(9, &[0x00, 0x80]), Some("-32768".to_string()));
    assert_eq!(information_value(35, &[0xff, 0x7f]), Some("32767".to_string()));
    assert_eq!(information_value(36, &[0, 0, 0xc0, 0x7f]), Some("NaN".to_string()));
    assert_eq!(information_value(13, &[0, 0, 0x80, 0xff]), Some("-inf".to_string()));
    assert_eq!(information_value(100, &[20]), Some("QOI=20".to_string()));
    assert_eq!(information_value(13, &[0, 0, 0x80]), None);
    assert_eq!(information_value(45, &[1]), None);
    assert_eq!(cause_name(20), "interrogated");
    assert_eq!(cause_name(44), "44");
}

#[test]
fn session_acknowledges_and_numbers_frames() {
    let config = Iec104Config::default();
    let mut session = Iec104Session::new();
    let peer = build_i_frame(41, 0, &[13, 1, 3, 0, 1, 0, 42, 0, 0, 0, 0, 0x80, 0x3f]);
    let (ack, label) = session.on_received(&peer).unwrap();
    assert_eq!(ack, s_frame(42).to_vec());
    assert_eq!(label, "S ACK R=42");
    assert_eq!(session.receive_sequence, 42);

    let (confirm, label) = session.on_received(&startdt_act()).unwrap();
    assert_eq!(confirm, startdt_con().to_vec());
    assert_eq!(label, "U STARTDT con");
    assert!(session.on_received(&startdt_con()).is_none());

    let out = session
        .prepare_command(&Iec104Command::GeneralInterrogation, &config)
        .unwrap();
    assert_eq!(out.label, "I C_IC_NA_1 general interrogation");
    assert_eq!(control_sequence(out.frame[4], out.frame[5]), 42);
    session.sent(&out);
    assert_eq!(session.send_sequence, 1);

    let raw = build_i_frame(0x7fff, 0, &[1, 2, 3]);
    let out = session
        .prepare_command(&Iec104Command::SendRaw(raw.clone()), &config)
        .unwrap();
    assert_eq!(out.frame, raw);
    assert!(out.label.starts_with("RAW I S=32767"));
    session.sent(&out);
    assert_eq!(session.send_sequence, 0);

    let bad = session.prepare_command(&Iec104Command::SendRaw(vec![0x68, 9, 1, 0, 0, 0]), &config);
    assert!(bad.is_err());
}
