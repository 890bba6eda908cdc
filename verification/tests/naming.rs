use mesh_thumbnail::color::{alpha_permille, parse_hex_color, FlatColor};
use mesh_thumbnail::format::InputFormat;
use mesh_thumbnail::naming::{output_file_name, two_digit, Format};

#[test]
fn output_name_replaces_extension() {
    let name = output_file_name(b"model.stl", InputFormat::Stl, Format::Png, 0, 1);
    assert_eq!(name, b"model.png".to_vec());
    let name = output_file_name(b"part.3mf", InputFormat::ThreeMf, Format::Jpg, 0, 1);
    assert_eq!(name, b"part.jpg".to_vec());
}

#[test]
fn output_name_strips_compound_extension() {
    let name = output_file_name(b"model.gcode.zip", InputFormat::GcodeZip, Format::Png, 0, 1);
    assert_eq!(name, b"model.png".to_vec());
    let name = output_file_name(b"model.stl.zip", InputFormat::StlZip, Format::Png, 0, 1);
    assert_eq!(name, b"model.png".to_vec());
}

#[test]
fn output_name_keeps_inner_dots() {
    let name = output_file_name(b"a.b.stl", InputFormat::Stl, Format::Png, 0, 1);
    assert_eq!(name, b"a.b.png".to_vec());
}

#[test]
fn multi_image_names_carry_index_suffix() {
    let name = output_file_name(b"model.stl", InputFormat::Stl, Format::Png, 0, 4);
    assert_eq!(name, b"model-00.png".to_vec());
    let name = output_file_name(b"model.stl", InputFormat::Stl, Format::Png, 3, 4);
    assert_eq!(name, b"model-03.png".to_vec());
    let name = output_file_name(b"model.gcode.zip", InputFormat::GcodeZip, Format::Jpg, 11, 12);
    assert_eq!(name, b"model-11.jpg".to_vec());
}

#[test]
fn index_suffix_is_zero_padded() {
    assert_eq!(two_digit(0), b"00".to_vec());
    assert_eq!(two_digit(7), b"07".to_vec());
    assert_eq!(two_digit(42), b"42".to_vec());
    assert_eq!(two_digit(123), b"123".to_vec());
}

#[test]
fn hex_color_parses_six_digits() {
    assert_eq!(
        parse_hex_color(b"DDDDDD"),
        Some(FlatColor { r: 221, g: 221, b: 221 })
    );
    assert_eq!(
        parse_hex_color(b"a1B2c3"),
        Some(FlatColor { r: 161, g: 178, b: 195 })
    );
    assert_eq!(
        parse_hex_color(b"000000"),
        Some(FlatColor { r: 0, g: 0, b: 0 })
    );
    assert_eq!(
        parse_hex_color(b"ffffff"),
        Some(FlatColor { r: 255, g: 255, b: 255 })
    );
}

#[test]
fn hex_color_rejects_other_strings() {
    assert_eq!(parse_hex_color(b"GGGGGG"), None);
    assert_eq!(parse_hex_color(b"abc"), None);
    assert_eq!(parse_hex_color(b"abcdefa"), None);
    assert_eq!(parse_hex_color(b""), None);
}

#[test]
fn background_alpha_per_format() {
    assert_eq!(alpha_permille(Format::Jpg), 800);
    assert_eq!(alpha_permille(Format::Png), 0);
}
