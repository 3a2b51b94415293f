use ksasm::formats::{format_sequence, ByteStyle, OutputFormat};

const ALL: [OutputFormat; 5] = [
    OutputFormat::SpacedHexdump,
    OutputFormat::Hexdump,
    OutputFormat::Escaped,
    OutputFormat::C,
    OutputFormat::Python,
];

fn render(f: OutputFormat, data: &[u8]) -> String {
    f.format_sequence(data).expect("formatting into a String cannot fail")
}

#[test]
fn empty_input_gives_prefix_and_suffix() {
    assert_eq!(render(OutputFormat::SpacedHexdump, &[]), "");
    assert_eq!(render(OutputFormat::Hexdump, &[]), "");
    assert_eq!(render(OutputFormat::Escaped, &[]), "");
    assert_eq!(render(OutputFormat::C, &[]), "{  }");
    assert_eq!(render(OutputFormat::Python, &[]), "b''");
}

#[test]
fn join_count_is_one_less_than_byte_count() {
    let data: Vec<u8> = vec![0x00, 0x20, 0x2C, 0xFF, 0x7F];
    let spaced = render(OutputFormat::SpacedHexdump, &data);
    assert_eq!(spaced.matches(' ').count(), data.len() - 1);
    let c = render(OutputFormat::C, &data);
    assert_eq!(c.matches(", ").count(), data.len() - 1);
    let one = render(OutputFormat::C, &[0x2C]);
    assert_eq!(one.matches(", ").count(), 0);
}

#[test]
fn spaced_and_packed_hex_share_tokens() {
    assert_eq!(render(OutputFormat::SpacedHexdump, &[0x0A, 0xFF]), "0A FF");
    assert_eq!(render(OutputFormat::Hexdump, &[0x0A, 0xFF]), "0AFF");
    let data: Vec<u8> = (0..=255u8).collect();
    let spaced = render(OutputFormat::SpacedHexdump, &data);
    assert_eq!(spaced.replace(' ', ""), render(OutputFormat::Hexdump, &data));
}

#[test]
fn escaped_format() {
    assert_eq!(render(OutputFormat::Escaped, &[0x41, 0x00]), "\\x41\\x00");
}

#[test]
fn c_format() {
    assert_eq!(render(OutputFormat::C, &[0x41, 0x00]), "{ 0x41, 0x00 }");
}

#[test]
fn python_format() {
    assert_eq!(render(OutputFormat::Python, &[0x41, 0x00]), "b'\\x41\\x00'");
}

#[test]
fn single_byte_has_no_join() {
    assert_eq!(render(OutputFormat::SpacedHexdump, &[0x90]), "90");
    assert_eq!(render(OutputFormat::C, &[0x90]), "{ 0x90 }");
}

#[test]
fn every_byte_value_renders_as_two_digits() {
    for b in 0..=255u8 {
        assert_eq!(render(OutputFormat::Hexdump, &[b]), format!("{b:02X}"));
        assert_eq!(render(OutputFormat::Escaped, &[b]), format!("\\x{b:02x}"));
        assert_eq!(render(OutputFormat::C, &[b]), format!("{{ 0x{b:02x} }}"));
    }
}

#[test]
fn output_length_depends_on_input_length_only() {
    for f in ALL {
        let a = render(f, &[0x00, 0x01, 0x02]);
        let b = render(f, &[0xFE, 0xAB, 0x10]);
        assert_eq!(a.len(), b.len());
    }
}

#[test]
fn input_is_left_unchanged() {
    let data: Vec<u8> = vec![3, 1, 2];
    for f in ALL {
        let _ = render(f, &data);
    }
    assert_eq!(data, vec![3, 1, 2]);
}

#[test]
fn free_formatter_with_own_frame() {
    let r = format_sequence(&[0xAB, 0x01], "[", "]", ";", ByteStyle::HexLiteral).unwrap();
    assert_eq!(r, "[0xab;0x01]");
    let r = format_sequence(&[], "<", ">", "-", ByteStyle::UpperPair).unwrap();
    assert_eq!(r, "<>");
}
