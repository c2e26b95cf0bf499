use minecraft_json::error::FormatError;
use minecraft_json::minecraft::text::{check_format, read_hex2, HexColour};

#[test]
fn hex_colour_reads_six_digits() {
    assert_eq!(HexColour::decode("#66CCFF"), Ok(HexColour { red: 0x66, green: 0xCC, blue: 0xFF }));
}

#[test]
fn hex_colour_writes_upper_case() {
    let c = HexColour { red: 0x66, green: 0xCC, blue: 0xFF };
    assert_eq!(c.encode(), "#66CCFF");
}

#[test]
fn hex_colour_rejects_short_form() {
    assert_eq!(HexColour::decode("#6CF"), Err(FormatError));
}

#[test]
fn hex_colour_reads_either_case() {
    let want = Ok(HexColour { red: 0xAB, green: 0xCD, blue: 0xEF });
    assert_eq!(HexColour::decode("#abcdef"), want);
    assert_eq!(HexColour::decode("#ABCDEF"), want);
    assert_eq!(HexColour::decode("#aBcDeF"), want);
}

#[test]
fn hex_colour_pads_with_zeros() {
    assert_eq!(HexColour { red: 0, green: 1, blue: 10 }.encode(), "#00010A");
    assert_eq!(HexColour { red: 255, green: 16, blue: 9 }.encode(), "#FF1009");
}

#[test]
fn hex_colour_rejects_other_shapes() {
    for text in ["", "#", "66CCFF", "66CCFF0", "#66CCF", "#66CCFFF", "#66CCFG", "#66 CFF", "+66CCFF", "#66CCFé"] {
        assert_eq!(HexColour::decode(text), Err(FormatError), "{:?}", text);
        assert!(!check_format(text), "{:?}", text);
    }
}

#[test]
fn hex_colour_round_trips_every_channel_value() {
    for v in 0..=255u8 {
        let c = HexColour { red: v, green: 255 - v, blue: v ^ 0x5A };
        assert_eq!(HexColour::decode(&c.encode()), Ok(c));
    }
}

#[test]
fn hex_colour_canonical_literals_are_written_back() {
    for text in ["#000000", "#FFFFFF", "#66CCFF", "#0A1B2C", "#9F8E7D"] {
        assert_eq!(HexColour::decode(text).unwrap().encode(), text);
    }
}

#[test]
fn hex_pairs_are_read_high_digit_first() {
    assert!(check_format("#1a2B3c"));
    assert_eq!(read_hex2("#1a2B3c", 1), 0x1A);
    assert_eq!(read_hex2("#1a2B3c", 3), 0x2B);
    assert_eq!(read_hex2("#1a2B3c", 5), 0x3C);
}
