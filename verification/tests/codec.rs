use imageproxy::codec::{decode, encode};
use imageproxy::errors::ErrorKind;
use imageproxy::ops::{FilterKind, ImageSpec, Operation};

fn sample_ops() -> Vec<Operation> {
    vec![
        Operation::new_resize(500, 800, FilterKind::CatmullRom),
        Operation::new_watermark(20, 20),
        Operation::new_color_filter(FilterKind::Marine),
    ]
}

#[test]
fn round_trip_sample_spec() {
    let spec = ImageSpec::new(sample_ops());
    let token = encode(&spec);
    let back = decode(&token).unwrap();
    assert_eq!(back.specs, sample_ops());
}

#[test]
fn round_trip_empty_spec() {
    let spec = ImageSpec::new(vec![]);
    let token = encode(&spec);
    assert_eq!(token, "");
    let back = decode(&token).unwrap();
    assert_eq!(back.specs, vec![]);
}

#[test]
fn round_trip_extreme_values() {
    let ops = vec![
        Operation::new_resize(u32::MAX, 1, FilterKind::Lanczos3),
        Operation::new_watermark(0, u32::MAX),
        Operation::new_resize(1, u32::MAX, FilterKind::Nearest),
        Operation::new_color_filter(FilterKind::Islands),
    ];
    let token = encode(&ImageSpec::new(ops.clone()));
    assert_eq!(decode(&token).unwrap().specs, ops);
}

#[test]
fn encode_exact_token() {
    let spec = ImageSpec::new(vec![Operation::new_resize(500, 800, FilterKind::CatmullRom)]);
    assert_eq!(encode(&spec), "r000001f4_00000320_c");
}

#[test]
fn encode_exact_token_watermark_and_filter() {
    let spec = ImageSpec::new(vec![
        Operation::new_watermark(20, 20),
        Operation::new_color_filter(FilterKind::Marine),
    ]);
    assert_eq!(encode(&spec), "w00000014_00000014cm");
}

#[test]
fn decode_unknown_tag_fails() {
    assert_eq!(decode("zz").unwrap_err(), ErrorKind::InvalidSpec);
}

#[test]
fn decode_truncated_resize_fails() {
    assert_eq!(decode("r000001f4_000003").unwrap_err(), ErrorKind::InvalidSpec);
}

#[test]
fn decode_non_hex_field_fails() {
    assert_eq!(decode("r000001g4_00000320_c").unwrap_err(), ErrorKind::InvalidSpec);
}

#[test]
fn decode_bad_separator_fails() {
    assert_eq!(decode("r000001f4x00000320_c").unwrap_err(), ErrorKind::InvalidSpec);
}

#[test]
fn decode_unknown_filter_code_fails() {
    assert_eq!(decode("cz").unwrap_err(), ErrorKind::InvalidSpec);
}

#[test]
fn decode_trailing_garbage_fails() {
    assert_eq!(decode("cm!").unwrap_err(), ErrorKind::InvalidSpec);
}

#[test]
fn decode_uppercase_hex_is_rejected() {
    assert_eq!(decode("w000000FF_00000014").unwrap_err(), ErrorKind::InvalidSpec);
}

#[test]
fn decode_valid_concatenated_ops() {
    let got = decode("r000001f4_00000320_cw00000014_00000014cm").unwrap();
    assert_eq!(got.specs, sample_ops());
}

#[test]
fn decode_never_panics_on_adversarial_inputs() {
    let cases = [
        "r", "w", "c", "_", " ", "rrrrrrrrrrrrrrrrrrrr", "r________________c",
        "w00000014_00000014extra", "%20", "\u{1F600}", "r000001f4_00000320_cX",
    ];
    for c in cases.iter() {
        assert!(decode(c).is_err());
    }
    let long = "cm".repeat(10_000);
    assert_eq!(decode(&long).unwrap().specs.len(), 10_000);
}
