use imageproxy::cache::Cache;
use imageproxy::codec::encode;
use imageproxy::errors::{ErrorKind, FetchError};
use imageproxy::ops::{FilterKind, ImageSpec, Operation};
use imageproxy::pipeline::handle_request;
use imageproxy::transform::{apply_all, apply_op, decode_image, encode_png, output_content_type};
use imageproxy::errors::status_of;

fn sample_png(width: u32, height: u32) -> Vec<u8> {
    let mut img = image::RgbaImage::new(width, height);
    for (x, y, p) in img.enumerate_pixels_mut() {
        *p = image::Rgba([(x % 251) as u8, (y % 241) as u8, ((x + y) % 239) as u8, 255]);
    }
    let mut buf = std::io::Cursor::new(Vec::new());
    image::DynamicImage::ImageRgba8(img)
        .write_to(&mut buf, image::ImageFormat::Png)
        .unwrap();
    buf.into_inner()
}

fn sample_token() -> String {
    encode(&ImageSpec::new(vec![
        Operation::new_resize(500, 800, FilterKind::CatmullRom),
        Operation::new_watermark(20, 20),
        Operation::new_color_filter(FilterKind::Marine),
    ]))
}

fn encoded_url(url: &str) -> String {
    percent_encoding::percent_encode(url.as_bytes(), percent_encoding::NON_ALPHANUMERIC)
        .to_string()
}

#[test]
fn end_to_end_success_returns_png() {
    let mut cache = Cache::new(8);
    let token = sample_token();
    let url = encoded_url("https://images.example.com/photos/1562477/photo.jpeg?h=750&w=1260");
    let body = handle_request(&mut cache, &token, &url, || Ok(sample_png(64, 64))).unwrap();
    assert!(!body.is_empty());
    assert_eq!(output_content_type(), "image/png");
    let out = image::load_from_memory(&body).unwrap();
    assert_eq!(out.width(), 500);
    assert_eq!(out.height(), 800);
}

#[test]
fn end_to_end_bad_spec_is_a_client_error() {
    let mut cache = Cache::new(8);
    let url = encoded_url("https://example.com/a.png");
    let e = handle_request(&mut cache, "zz", &url, || Ok(sample_png(8, 8))).unwrap_err();
    assert_eq!(e, ErrorKind::InvalidSpec);
    assert_eq!(status_of(&e), 400);
    assert_eq!(cache.len(), 0, "a malformed spec must not touch the cache");
}

#[test]
fn end_to_end_failed_fetch_is_a_client_error_and_caches_nothing() {
    let mut cache = Cache::new(8);
    let token = sample_token();
    let url = encoded_url("https://example.com/missing.png");
    let e = handle_request(&mut cache, &token, &url, || Err(FetchError::Status(502)))
        .unwrap_err();
    assert_eq!(e, ErrorKind::Fetch(FetchError::Status(502)));
    assert_eq!(status_of(&e), 400);
    assert_eq!(cache.len(), 0, "a failed fetch must never populate the cache");
}

#[test]
fn end_to_end_non_image_bytes_are_a_server_error() {
    let mut cache = Cache::new(8);
    let token = sample_token();
    let url = encoded_url("https://example.com/not-an-image.txt");
    let e = handle_request(&mut cache, &token, &url, || {
        Ok(b"just some plain text, certainly not pixels".to_vec())
    })
    .unwrap_err();
    assert_eq!(e, ErrorKind::Decode);
    assert_eq!(status_of(&e), 500);
}

#[test]
fn failed_operation_is_a_server_error() {
    let mut cache = Cache::new(8);
    let token = encode(&ImageSpec::new(vec![Operation::new_resize(
        0,
        10,
        FilterKind::Nearest,
    )]));
    let url = encoded_url("https://example.com/a.png");
    let e = handle_request(&mut cache, &token, &url, || Ok(sample_png(8, 8))).unwrap_err();
    assert_eq!(e, ErrorKind::Operation);
    assert_eq!(status_of(&e), 500);
}

#[test]
fn second_request_hits_the_cache() {
    let mut cache = Cache::new(8);
    let token = encode(&ImageSpec::new(vec![]));
    let url = encoded_url("https://example.com/a.png");
    handle_request(&mut cache, &token, &url, || Ok(sample_png(8, 8))).unwrap();
    assert_eq!(cache.len(), 1);
    let body = handle_request(&mut cache, &token, &url, || -> Result<Vec<u8>, FetchError> {
        panic!("the cached source must not be fetched again")
    })
    .unwrap();
    assert!(!body.is_empty());
    assert_eq!(cache.len(), 1);
}

#[test]
fn empty_spec_is_the_identity_transform() {
    let png = sample_png(33, 21);
    let img = decode_image(&png).unwrap();
    let out = apply_all(img, &vec![]).unwrap();
    assert_eq!(out.width(), 33);
    assert_eq!(out.height(), 21);
}

#[test]
fn operations_apply_in_the_given_order() {
    let ops = vec![
        Operation::new_resize(100, 100, FilterKind::Triangle),
        Operation::new_watermark(0, 0),
    ];
    let reversed = vec![
        Operation::new_watermark(0, 0),
        Operation::new_resize(100, 100, FilterKind::Triangle),
    ];
    let png = sample_png(50, 50);
    let a = encode_png(&apply_all(decode_image(&png).unwrap(), &ops).unwrap());
    let b = encode_png(&apply_all(decode_image(&png).unwrap(), &reversed).unwrap());
    assert_ne!(a, b, "non-commutative operations must observe their order");
}

#[test]
fn resize_chain_keeps_last_dimensions() {
    let png = sample_png(10, 10);
    let ops = vec![
        Operation::new_resize(100, 100, FilterKind::Nearest),
        Operation::new_resize(40, 70, FilterKind::Lanczos3),
    ];
    let out = apply_all(decode_image(&png).unwrap(), &ops).unwrap();
    assert_eq!(out.width(), 40);
    assert_eq!(out.height(), 70);
}

#[test]
fn resize_with_stylistic_filter_fails() {
    let png = sample_png(10, 10);
    let img = decode_image(&png).unwrap();
    let e = apply_op(img, &Operation::new_resize(10, 10, FilterKind::Marine)).unwrap_err();
    assert_eq!(e, ErrorKind::Operation);
}

#[test]
fn color_filter_with_resampling_kind_fails() {
    let png = sample_png(10, 10);
    let img = decode_image(&png).unwrap();
    let e = apply_op(img, &Operation::new_color_filter(FilterKind::CatmullRom)).unwrap_err();
    assert_eq!(e, ErrorKind::Operation);
}

#[test]
fn watermark_outside_bounds_fails() {
    let png = sample_png(32, 32);
    let img = decode_image(&png).unwrap();
    let e = apply_op(img, &Operation::new_watermark(30, 0)).unwrap_err();
    assert_eq!(e, ErrorKind::Operation);
}

#[test]
fn watermark_inside_bounds_keeps_dimensions() {
    let png = sample_png(32, 32);
    let img = decode_image(&png).unwrap();
    let out = apply_op(img, &Operation::new_watermark(16, 16)).unwrap();
    assert_eq!(out.width(), 32);
    assert_eq!(out.height(), 32);
}

#[test]
fn decode_image_rejects_text() {
    let e = decode_image(&b"hello".to_vec()).unwrap_err();
    assert_eq!(e, ErrorKind::Decode);
}

#[test]
fn status_codes_follow_the_taxonomy() {
    assert_eq!(status_of(&ErrorKind::InvalidSpec), 400);
    assert_eq!(status_of(&ErrorKind::Fetch(FetchError::Transport)), 400);
    assert_eq!(status_of(&ErrorKind::Fetch(FetchError::Status(500))), 400);
    assert_eq!(status_of(&ErrorKind::Decode), 500);
    assert_eq!(status_of(&ErrorKind::Operation), 500);
}

#[test]
fn percent_encoded_url_resolves_to_one_cache_entry() {
    let mut cache = Cache::new(8);
    let token = encode(&ImageSpec::new(vec![]));
    let url = encoded_url("https://example.com/a b.png");
    handle_request(&mut cache, &token, &url, || Ok(sample_png(4, 4))).unwrap();
    handle_request(&mut cache, &token, &url, || -> Result<Vec<u8>, FetchError> {
        panic!("the same encoded URL must hit the cache")
    })
    .unwrap();
    assert_eq!(cache.len(), 1);
}

#[test]
fn differently_encoded_urls_share_one_cache_entry() {
    let mut cache = Cache::new(8);
    let token = encode(&ImageSpec::new(vec![]));
    handle_request(&mut cache, &token, "a%20b.png", || Ok(sample_png(4, 4))).unwrap();
    assert_eq!(cache.len(), 1);
    handle_request(&mut cache, &token, "a b.png", || -> Result<Vec<u8>, FetchError> {
        panic!("both segments decode to the same URL and must share one entry")
    })
    .unwrap();
    assert_eq!(cache.len(), 1);
}

#[test]
fn color_filter_changes_the_pixels() {
    let png = sample_png(24, 24);
    let plain = encode_png(&apply_all(decode_image(&png).unwrap(), &vec![]).unwrap());
    let filtered = encode_png(
        &apply_all(
            decode_image(&png).unwrap(),
            &vec![Operation::new_color_filter(FilterKind::Marine)],
        )
        .unwrap(),
    );
    assert_ne!(plain, filtered);
}

#[test]
fn watermark_changes_the_pixels() {
    let png = sample_png(24, 24);
    let plain = encode_png(&apply_all(decode_image(&png).unwrap(), &vec![]).unwrap());
    let stamped = encode_png(
        &apply_all(decode_image(&png).unwrap(), &vec![Operation::new_watermark(2, 2)]).unwrap(),
    );
    assert_ne!(plain, stamped);
}

fn zero_dimension_farbfeld() -> Vec<u8> {
    // The farbfeld header: the magic, then a zero width and a zero height.
    let mut bytes = b"farbfeld".to_vec();
    bytes.extend_from_slice(&[0u8; 8]);
    bytes
}

#[test]
fn zero_dimension_image_is_rejected_as_undecodable() {
    let e = decode_image(&zero_dimension_farbfeld()).unwrap_err();
    assert_eq!(e, ErrorKind::Decode);
}

#[test]
fn end_to_end_zero_dimension_image_is_a_server_error() {
    let mut cache = Cache::new(8);
    let token = encode(&ImageSpec::new(vec![]));
    let url = encoded_url("https://example.com/degenerate.ff");
    let e = handle_request(&mut cache, &token, &url, || Ok(zero_dimension_farbfeld()))
        .unwrap_err();
    assert_eq!(e, ErrorKind::Decode);
    assert_eq!(status_of(&e), 500);
}
