use gecol::args::action::parse_hex_col;
use gecol::hex::{hex_slicing_would_panic, parse_hex_rgb};
use gecol::template::color::{color_field, color_method, hex, hexa, rgb, strip, ColorField, ColorMethod};
use gecol::theme::{ansi_background, theme_text, ThemeType};

#[test]
fn parse_hex_col_reads_lowercase_code() {
    assert_eq!(parse_hex_col("#3acbaf"), Ok((0x3a, 0xcb, 0xaf)));
}

#[test]
fn parse_hex_col_reads_uppercase_without_hash() {
    assert_eq!(parse_hex_col("ABCDEF"), Ok((0xab, 0xcd, 0xef)));
}

#[test]
fn parse_hex_col_skips_every_leading_hash() {
    assert_eq!(parse_hex_col("###010203"), Ok((1, 2, 3)));
}

#[test]
fn parse_hex_col_rejects_plus_sign() {
    assert_eq!(
        parse_hex_col("#+f+f+f"),
        Err("Invalid color '#+f+f+f'. Expected format is '#rrggbb'.".to_string())
    );
}

#[test]
fn parse_hex_col_rejects_minus_sign() {
    assert!(parse_hex_col("#-10000").is_err());
}

#[test]
fn parse_hex_col_rejects_short_code_with_message() {
    assert_eq!(
        parse_hex_col("#12345"),
        Err("Invalid color '#12345'. Expected format is '#rrggbb'.".to_string())
    );
}

#[test]
fn parse_hex_col_rejects_long_code() {
    assert!(parse_hex_col("#1234567").is_err());
}

#[test]
fn parse_hex_col_rejects_non_digits() {
    assert!(parse_hex_col("#gg0000").is_err());
    assert!(parse_hex_col("image.png").is_err());
}

#[test]
fn parse_hex_col_rejects_wide_characters() {
    assert!(!hex_slicing_would_panic("é1234"));
    assert!(parse_hex_col("é1234").is_err());
    assert!(parse_hex_col("#aé1234").is_err());
}

#[test]
fn hex_slicing_panics_inside_a_character() {
    assert!(hex_slicing_would_panic("#aé123"));
    assert!(!hex_slicing_would_panic("#aabbcc"));
    assert!(!hex_slicing_would_panic(""));
}

#[test]
fn hex_formats_of_a_color() {
    let c = (255, 10, 16);
    assert_eq!(strip(c), "ff0a10");
    assert_eq!(hex(c), "#ff0a10");
    assert_eq!(rgb(c), "255,10,16");
    assert_eq!(hexa(c, 204), "#ff0a10cc");
    assert_eq!(rgb((0, 7, 99)), "0,7,99");
    assert_eq!(hex((0, 0, 0)), "#000000");
}

#[test]
fn hex_code_reads_back_to_the_color() {
    for v in 0..=255u8 {
        let c = (v, 255 - v, v / 3);
        assert_eq!(parse_hex_col(&hex(c)), Ok(c));
        assert_eq!(parse_hex_rgb(&strip(c)), Some(c));
    }
}

#[test]
fn color_fields_in_templates() {
    let c = (1, 2, 3);
    assert!(matches!(color_field("hex", c), Some(ColorField::Text(t)) if t == "#010203"));
    assert!(matches!(color_field("rgb", c), Some(ColorField::Text(t)) if t == "1,2,3"));
    assert!(matches!(color_field("strip", c), Some(ColorField::Text(t)) if t == "010203"));
    assert!(matches!(color_field("g", c), Some(ColorField::Channel(2))));
    assert!(color_field("alpha", c).is_none());
}

#[test]
fn color_methods_in_templates() {
    assert_eq!(color_method("lighten"), Some(ColorMethod::Lighten));
    assert_eq!(color_method("desaturate"), Some(ColorMethod::Desaturate));
    assert_eq!(color_method("hexa"), Some(ColorMethod::Hexa));
    assert_eq!(color_method("blur"), None);
}

#[test]
fn ansi_background_of_a_color() {
    assert_eq!(ansi_background((1, 20, 255)), "\x1b[48;2;1;20;255m");
}

#[test]
fn theme_listing_has_a_line_per_color() {
    let text = theme_text([(1, 2, 3); 10]);
    let lines: Vec<&str> = text.split('\n').collect();
    assert_eq!(lines.len(), 10);
    assert_eq!(lines[0], "Primary:    \x1b[48;2;1;2;3m  \x1b[0m");
    assert_eq!(lines[9], "Error:      \x1b[48;2;1;2;3m  \x1b[0m");
}

#[test]
fn theme_type_defaults_to_dark() {
    assert_eq!(ThemeType::default(), ThemeType::Dark);
}
