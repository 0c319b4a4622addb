use yamato::ipc::{
    decode_name, encode_name, status_words, Sample, Shared, MODE_BIOS, MODE_KEEP, MODE_SMART,
    NAME_LEN, SENSOR_ABSENT, SENSOR_COUNT, SHARED_LEN, SINGLE_FAN_HINT, STATUS_HANDBACK_FAILED,
    STATUS_OK, STATUS_SURRENDERED, STATUS_UNREACHABLE,
};

#[test]
fn names_round_trip_and_truncate_safely() {
    let mut buf = [0u8; NAME_LEN];
    encode_name(&mut buf, "Balanced");
    assert_eq!(decode_name(&buf), "Balanced");

    // Longer than the field, and the result must still be NUL terminated.
    let long = "x".repeat(NAME_LEN * 2);
    encode_name(&mut buf, &long);
    assert_eq!(decode_name(&buf).len(), NAME_LEN - 1);
    assert_eq!(buf[NAME_LEN - 1], 0);
}

#[test]
fn a_zeroed_block_is_a_safe_resting_state() {
    // Fresh section pages are zeroed, and that has to mean BIOS mode with no
    // fault, not "manual level 0" with the firmware switched off.
    assert_eq!(MODE_BIOS, 0);
    let block = Shared::zeroed();
    assert_eq!(block.mode, MODE_BIOS);
    assert_eq!(block.pending_command(), None);
    assert!(block.to_bytes().iter().all(|b| *b == 0));
}

#[test]
fn absent_sensors_are_distinguishable_from_cold_ones() {
    // 0 C is a legitimate reading, so absence needs its own value.
    assert_ne!(SENSOR_ABSENT, 0);
    assert!(SENSOR_ABSENT < -128);
}

#[test]
fn the_shared_block_layout_is_ours_not_the_compilers() {
    // Both sides map the same bytes; the layout must be stable.
    assert!(SHARED_LEN >= 2 * NAME_LEN);
    assert_eq!(
        Shared::zeroed().to_bytes().len(),
        180,
        "the shared block changed size, so an older reader is now wrong about every field after the change"
    );
}

#[test]
fn a_healthy_engine_is_the_zero_state() {
    assert_eq!(STATUS_OK, 0);
    assert!(status_words(STATUS_OK, false).is_none());
}

#[test]
fn each_kind_of_trouble_says_its_own_thing() {
    let all = [STATUS_UNREACHABLE, STATUS_SURRENDERED, STATUS_HANDBACK_FAILED];

    for (i, status) in all.iter().enumerate() {
        let (headline, detail) = status_words(*status, true).expect("a state with no words");
        assert!(!headline.is_empty() && !detail.is_empty());

        for other in &all[..i] {
            assert_ne!(
                status_words(*other, true).unwrap().0,
                headline,
                "two states share a headline"
            );
        }
    }
}

#[test]
fn a_failed_handback_reads_as_the_serious_one() {
    let (headline, detail) = status_words(STATUS_HANDBACK_FAILED, true).unwrap();

    assert!(headline.to_lowercase().contains("held"), "{headline}");
    assert!(detail.to_lowercase().contains("firmware"), "{detail}");
    assert!(detail.to_lowercase().contains("restart"), "{detail}");
}

#[test]
fn an_older_engine_that_only_sets_the_flag_still_gets_a_sentence() {
    assert!(status_words(STATUS_OK, true).is_some());
}

#[test]
fn every_state_fits_in_a_tooltip() {
    for status in [STATUS_UNREACHABLE, STATUS_SURRENDERED, STATUS_HANDBACK_FAILED] {
        let (headline, detail) = status_words(status, true).unwrap();
        let tip = format!("Yamato\n{headline}\n{detail}");

        assert!(tip.encode_utf16().count() < 128, "{tip}");
    }
}

#[test]
fn the_single_fan_hint_fits_beside_every_headline() {
    for status in [STATUS_UNREACHABLE, STATUS_SURRENDERED, STATUS_HANDBACK_FAILED] {
        let (headline, _) = status_words(status, true).unwrap();
        let tip = format!("Yamato\n{headline}\n{SINGLE_FAN_HINT}");

        assert!(tip.encode_utf16().count() < 128, "{tip}");
    }
}

fn sample() -> Sample {
    let mut sensors = [None; SENSOR_COUNT];
    sensors[0] = Some(61);
    sensors[3] = Some(-4);
    Sample {
        fan_ctrl: 3,
        mode: MODE_SMART,
        hottest: Some((0, 61)),
        fan_rpm: [2100, 1900],
        sensors,
        fault: false,
        status: STATUS_OK,
        fan_write_declined: true,
        publish_secs: 0,
    }
}

#[test]
fn what_is_published_is_what_is_read() {
    let mut block = Shared::zeroed();
    block.publish(&sample(), "Balanced");
    assert_eq!(block.state_seq, 1);
    assert_eq!(block.sensors[0], 61);
    assert_eq!(block.sensors[3], -4);
    assert_eq!(block.sensors[1], SENSOR_ABSENT);
    assert_eq!(block.fan_write_declined, 1);
    // An interval of nothing would read as an engine that never said.
    assert_eq!(block.publish_secs, 1);
    assert_eq!(block.read_profile(), "Balanced");

    let back = Shared::from_bytes(&block.to_bytes()).expect("the right length");
    assert_eq!(back.to_bytes(), block.to_bytes());
    assert_eq!(back.fan_rpm, [2100, 1900]);
    assert_eq!(back.sensors, block.sensors);
    assert!(Shared::from_bytes(&vec![0; 179]).is_none());
}

#[test]
fn the_bytes_stand_where_both_sides_expect_them() {
    let mut block = Shared::zeroed();
    block.publish(&sample(), "AB");
    block.post_command(MODE_KEEP, 0, "CD");
    let bytes = block.to_bytes();
    assert_eq!(&bytes[0..4], &[1, 0, 0, 0]);
    assert_eq!(&bytes[4..8], &[1, 0, 0, 0]);
    assert_eq!(&bytes[8..12], &[0, 0, 0, 0]);
    assert_eq!(bytes[12], 3);
    assert_eq!(bytes[13], MODE_SMART);
    assert_eq!(bytes[112], MODE_KEEP);
    assert_eq!(bytes[178], 1);
}

#[test]
fn a_command_waits_until_it_is_acknowledged() {
    let mut block = Shared::zeroed();
    let seq = block.post_command(MODE_KEEP, 0, "Quiet");
    assert_eq!(block.pending_command(), Some(seq));
    assert_eq!(block.read_cmd_profile(), "Quiet");
    block.acknowledge(seq);
    assert_eq!(block.pending_command(), None);
}

#[test]
fn a_counter_starts_over_past_its_end() {
    let mut block = Shared::zeroed();
    block.cmd_seq = u32::MAX;
    assert_eq!(block.post_command(MODE_KEEP, 0, ""), 0);
}

#[test]
fn a_name_cut_inside_a_character_is_still_text() {
    // The field cuts by bytes; what it cut in half is shown as unreadable.
    let mut buf = [0u8; NAME_LEN];
    let name = format!("{}\u{e9}\u{e9}", "x".repeat(62));
    encode_name(&mut buf, &name);
    let back = decode_name(&buf);
    assert!(back.starts_with(&"x".repeat(62)));
    assert!(back.ends_with('\u{fffd}'), "{back}");
}
