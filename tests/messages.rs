use harmonics::message::{make_harmonic_payload, make_harmonic_sysex, make_sysex_messages, strip_framing};
use harmonics::render::{hex_line, make_graph, make_horizontal_graph, make_vertical_graph};
use harmonics::tables::get_saw_levels;

#[test]
fn payload_layout() {
    assert_eq!(
        make_harmonic_payload(0, 0, 127, 0, 0),
        vec![0x40, 0x00, 0x10, 0x00, 0x0a, 0x02, 0x40, 0x00, 0x00, 0x00, 0x00, 0x7f]
    );
}

#[test]
fn payload_fields() {
    assert_eq!(
        make_harmonic_payload(17, 3, 90, 1, 5),
        vec![0x40, 0x03, 0x10, 0x00, 0x0a, 0x02, 0x41, 0x05, 0x11, 0x00, 0x00, 0x5a]
    );
}

#[test]
fn sysex_is_framed_payload() {
    let bytes = make_harmonic_sysex(5, 2, 100, 0, 1);
    assert_eq!(bytes.len(), 14);
    assert_eq!(bytes[0], 0xf0);
    assert_eq!(bytes[1], 0x40);
    assert_eq!(bytes[13], 0xf7);
    assert_eq!(&bytes[1..13], &make_harmonic_payload(5, 2, 100, 0, 1)[..]);
}

#[test]
fn unframing_gives_payload_for_every_harmonic() {
    for h in 0..64u32 {
        let framed = make_harmonic_sysex(h, 9, (h * 2) as u8, 0, 3);
        assert_eq!(strip_framing(&framed), make_harmonic_payload(h, 9, (h * 2) as u8, 0, 3));
    }
}

#[test]
fn messages_for_table() {
    let levels = get_saw_levels();
    let messages = make_sysex_messages(&levels, 0, 0, 0);
    assert_eq!(messages.len(), 64);
    for (i, m) in messages.iter().enumerate() {
        assert_eq!(m, &make_harmonic_payload(i as u32, 0, levels[i], 0, 0));
    }
}

#[test]
fn hex_rendering() {
    assert_eq!(hex_line(&[0x40, 0x0a, 0xff, 0x00]), "40 0a ff 00");
    assert_eq!(hex_line(&[]), "");
    assert_eq!(
        hex_line(&make_harmonic_payload(0, 0, 127, 0, 0)),
        "40 00 10 00 0a 02 40 00 00 00 00 7f"
    );
}

#[test]
fn vertical_chart() {
    let expected = format!(" 1: {}\n 2: \n 3: ******\n", "*".repeat(72));
    assert_eq!(make_vertical_graph(&[127, 9, 10]), expected);
    assert_eq!(make_graph(&[127, 9, 10]), expected);
}

#[test]
fn vertical_chart_wide_numbers() {
    let levels = vec![0u8; 12];
    let chart = make_vertical_graph(&levels);
    assert!(chart.ends_with("10: \n11: \n12: \n"));
    assert!(chart.starts_with(" 1: \n"));
}

#[test]
fn horizontal_chart_is_empty() {
    assert_eq!(make_horizontal_graph(&[1, 2, 3]), "");
}
