use faceid::error::FaceError;
use faceid::photo::{exif_orientation_fix, load_image_from_bytes, orient, RgbPixels};
use faceid::pipeline::OrientationFix;

fn crc32(bytes: &[u8]) -> u32 {
    let mut crc = 0xFFFF_FFFFu32;
    for &b in bytes {
        crc ^= b as u32;
        for _ in 0..8 {
            crc = if crc & 1 == 1 { (crc >> 1) ^ 0xEDB8_8320 } else { crc >> 1 };
        }
    }
    !crc
}

/// A 2x1 PNG: red-ish pixel (1, 2, 3) then (4, 5, 6), optionally carrying
/// an EXIF orientation tag in an eXIf chunk.
fn png(orientation: Option<u16>) -> Vec<u8> {
    let img = image::RgbImage::from_raw(2, 1, vec![1, 2, 3, 4, 5, 6]).unwrap();
    let mut cursor = std::io::Cursor::new(Vec::new());
    img.write_to(&mut cursor, image::ImageFormat::Png).unwrap();
    let bytes = cursor.into_inner();
    let Some(o) = orientation else {
        return bytes;
    };
    let mut tiff: Vec<u8> = vec![0x4D, 0x4D, 0x00, 0x2A, 0, 0, 0, 8, 0, 1, 0x01, 0x12, 0, 3, 0, 0, 0, 1];
    tiff.extend_from_slice(&o.to_be_bytes());
    tiff.extend_from_slice(&[0, 0, 0, 0, 0, 0]);
    let mut chunk = Vec::new();
    chunk.extend_from_slice(&(tiff.len() as u32).to_be_bytes());
    let mut body = b"eXIf".to_vec();
    body.extend_from_slice(&tiff);
    chunk.extend_from_slice(&body);
    chunk.extend_from_slice(&crc32(&body).to_be_bytes());
    // Signature (8 bytes) and IHDR (4 + 4 + 13 + 4 bytes) come first.
    let split = 8 + 25;
    let mut out = bytes[..split].to_vec();
    out.extend_from_slice(&chunk);
    out.extend_from_slice(&bytes[split..]);
    out
}

#[test]
fn photo_without_exif_is_kept_as_is() {
    let bytes = png(None);
    assert_eq!(exif_orientation_fix(&bytes), OrientationFix::Keep);
    let p = load_image_from_bytes(&bytes).unwrap();
    assert_eq!((p.width, p.height), (2, 1));
    assert_eq!(p.data, vec![1, 2, 3, 4, 5, 6]);
}

#[test]
fn exif_rotation_turns_the_photo_upright() {
    let bytes = png(Some(6));
    assert_eq!(exif_orientation_fix(&bytes), OrientationFix::Rotate90);
    let p = load_image_from_bytes(&bytes).unwrap();
    assert_eq!((p.width, p.height), (1, 2));
    assert_eq!(p.data, vec![1, 2, 3, 4, 5, 6]);

    let bytes = png(Some(8));
    assert_eq!(exif_orientation_fix(&bytes), OrientationFix::Rotate270);
    let p = load_image_from_bytes(&bytes).unwrap();
    assert_eq!((p.width, p.height), (1, 2));
    assert_eq!(p.data, vec![4, 5, 6, 1, 2, 3]);

    let bytes = png(Some(2));
    assert_eq!(exif_orientation_fix(&bytes), OrientationFix::FlipHorizontal);
    let p = load_image_from_bytes(&bytes).unwrap();
    assert_eq!(p.data, vec![4, 5, 6, 1, 2, 3]);
}

#[test]
fn undecodable_bytes_are_an_image_error() {
    assert!(matches!(load_image_from_bytes(b"not an image"), Err(FaceError::Image(_))));
    assert_eq!(exif_orientation_fix(b"not an image"), OrientationFix::Keep);
}

fn grid() -> RgbPixels {
    // 2 x 3 image; pixel (x, y) holds bytes [10y + x, 0, 0].
    let mut data = Vec::new();
    for y in 0..3u8 {
        for x in 0..2u8 {
            data.extend_from_slice(&[10 * y + x, 0, 0]);
        }
    }
    RgbPixels { width: 2, height: 3, data }
}

fn reds(p: &RgbPixels) -> Vec<u8> {
    p.data.chunks(3).map(|c| c[0]).collect()
}

#[test]
fn orientation_fixes_move_pixels() {
    let g = grid();
    let r = orient(&g, OrientationFix::Keep);
    assert_eq!((r.width, r.height, reds(&r)), (2, 3, vec![0, 1, 10, 11, 20, 21]));
    let r = orient(&g, OrientationFix::FlipVertical);
    assert_eq!((r.width, r.height, reds(&r)), (2, 3, vec![20, 21, 10, 11, 0, 1]));
    let r = orient(&g, OrientationFix::Rotate180);
    assert_eq!(reds(&r), vec![21, 20, 11, 10, 1, 0]);
    let r = orient(&g, OrientationFix::Rotate90);
    assert_eq!((r.width, r.height, reds(&r)), (3, 2, vec![20, 10, 0, 21, 11, 1]));
    let r = orient(&g, OrientationFix::Rotate270);
    assert_eq!((r.width, r.height, reds(&r)), (3, 2, vec![1, 11, 21, 0, 10, 20]));
    let r = orient(&g, OrientationFix::Rotate90ThenFlipHorizontal);
    assert_eq!(reds(&r), vec![0, 10, 20, 1, 11, 21]);
    let r = orient(&g, OrientationFix::Rotate270ThenFlipHorizontal);
    assert_eq!(reds(&r), vec![21, 11, 1, 20, 10, 0]);
}

#[test]
fn orientation_matches_the_image_crate() {
    let g = grid();
    let img = image::RgbImage::from_raw(2, 3, g.data.clone()).unwrap();
    let dynamic = image::DynamicImage::ImageRgb8(img);
    let cases: Vec<(OrientationFix, image::DynamicImage)> = vec![
        (OrientationFix::FlipHorizontal, dynamic.fliph()),
        (OrientationFix::Rotate180, dynamic.rotate180()),
        (OrientationFix::FlipVertical, dynamic.flipv()),
        (OrientationFix::Rotate90ThenFlipHorizontal, dynamic.rotate90().fliph()),
        (OrientationFix::Rotate90, dynamic.rotate90()),
        (OrientationFix::Rotate270ThenFlipHorizontal, dynamic.rotate270().fliph()),
        (OrientationFix::Rotate270, dynamic.rotate270()),
    ];
    for (fix, expected) in cases {
        let rgb = expected.into_rgb8();
        let r = orient(&g, fix);
        assert_eq!((r.width, r.height), rgb.dimensions());
        assert_eq!(r.data, rgb.into_raw());
    }
}
