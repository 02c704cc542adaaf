use processing::codec::{
    bytes_to_pixels, check_region, padded_bytes_per_row, pixel_size, pixels_to_bytes,
    prepare_update_region, readback_buffer_size, Texel, TextureFormat,
};
use processing::error::ProcessingError;

fn texel(r: u32, g: u32, b: u32, a: u32) -> Texel {
    Texel { r, g, b, a }
}

fn float_texel(r: f32, g: f32, b: f32, a: f32) -> Texel {
    texel(r.to_bits(), g.to_bits(), b.to_bits(), a.to_bits())
}

#[test]
fn pixel_sizes_of_each_format() {
    assert_eq!(pixel_size(TextureFormat::Rgba8Unorm), Ok(4));
    assert_eq!(pixel_size(TextureFormat::Rgba8UnormSrgb), Ok(4));
    assert_eq!(pixel_size(TextureFormat::Rgba16Float), Ok(8));
    assert_eq!(pixel_size(TextureFormat::Rgba32Float), Ok(16));
    assert_eq!(
        pixel_size(TextureFormat::Bgra8Unorm),
        Err(ProcessingError::UnsupportedTextureFormat)
    );
}

#[test]
fn eight_bit_encoding_is_channel_order() {
    let bytes = pixels_to_bytes(&[texel(1, 2, 3, 4), texel(250, 0, 128, 255)], TextureFormat::Rgba8Unorm)
        .unwrap();
    assert_eq!(bytes, vec![1, 2, 3, 4, 250, 0, 128, 255]);
}

#[test]
fn float_encoding_matches_little_endian_bits() {
    let t = float_texel(0.25, -1.5, 0.0, 1.0);
    let bytes = pixels_to_bytes(&[t], TextureFormat::Rgba32Float).unwrap();
    let mut expected = Vec::new();
    for v in [0.25f32, -1.5, 0.0, 1.0] {
        expected.extend_from_slice(&v.to_le_bytes());
    }
    assert_eq!(bytes, expected);
}

#[test]
fn half_encoding_is_two_bytes_per_channel() {
    // 1.0 and 0.5 as binary16
    let bytes = pixels_to_bytes(&[texel(0x3c00, 0x3800, 0, 0x3c00)], TextureFormat::Rgba16Float).unwrap();
    assert_eq!(bytes, vec![0x00, 0x3c, 0x00, 0x38, 0x00, 0x00, 0x00, 0x3c]);
}

#[test]
fn unsupported_format_is_rejected() {
    assert_eq!(
        pixels_to_bytes(&[texel(1, 2, 3, 4)], TextureFormat::Depth32Float),
        Err(ProcessingError::UnsupportedTextureFormat)
    );
    assert_eq!(
        bytes_to_pixels(&[0; 16], TextureFormat::R32Float, 1, 1, 16),
        Err(ProcessingError::UnsupportedTextureFormat)
    );
}

#[test]
fn decoding_strips_row_padding() {
    let data = vec![1, 2, 3, 4, 9, 9, 9, 9, 5, 6, 7, 8, 9, 9, 9, 9];
    let pixels = bytes_to_pixels(&data, TextureFormat::Rgba8Unorm, 1, 2, 8).unwrap();
    assert_eq!(pixels, vec![texel(1, 2, 3, 4), texel(5, 6, 7, 8)]);
}

#[test]
fn buffer_shorter_than_height_rows_is_invalid() {
    let data = vec![1, 2, 3, 4, 0, 0, 0, 0, 5, 6];
    let r = bytes_to_pixels(&data, TextureFormat::Rgba8Unorm, 1, 3, 8);
    assert!(matches!(r, Err(ProcessingError::InvalidArgument(_))));
    let pixels = bytes_to_pixels(&data, TextureFormat::Rgba8Unorm, 1, 2, 5).unwrap();
    assert_eq!(pixels, vec![texel(1, 2, 3, 4), texel(0, 0, 0, 5)]);
}

#[test]
fn codes_wider_than_the_channel_are_invalid() {
    let r = pixels_to_bytes(&[texel(300, 0, 0, 0)], TextureFormat::Rgba8Unorm);
    assert!(matches!(r, Err(ProcessingError::InvalidArgument(_))));
    let r = pixels_to_bytes(&[texel(0, 0x1_0000, 0, 0)], TextureFormat::Rgba16Float);
    assert!(matches!(r, Err(ProcessingError::InvalidArgument(_))));
    assert!(pixels_to_bytes(&[texel(u32::MAX, 0, 0, 0)], TextureFormat::Rgba32Float).is_ok());
    assert!(matches!(
        prepare_update_region(1, 1, &[texel(0, 0, 256, 0)], TextureFormat::Rgba8Unorm),
        Err(ProcessingError::InvalidArgument(_))
    ));
}

#[test]
fn padding_narrower_than_a_row_is_invalid() {
    let r = bytes_to_pixels(&[0; 64], TextureFormat::Rgba8Unorm, 4, 1, 8);
    assert!(matches!(r, Err(ProcessingError::InvalidArgument(_))));
    let r = bytes_to_pixels(&[0; 64], TextureFormat::Rgba8Unorm, 0, 1, 0);
    assert!(matches!(r, Err(ProcessingError::InvalidArgument(_))));
}

#[test]
fn round_trip_in_every_format() {
    let eight = vec![texel(0, 1, 2, 3), texel(255, 254, 128, 7), texel(9, 9, 9, 9), texel(1, 0, 1, 0)];
    let half = vec![texel(0x3c00, 0x3800, 0xbc00, 0x7bff); 4];
    let single = vec![
        float_texel(0.1, 0.2, 0.3, 0.4),
        float_texel(1.0, 0.0, -0.0, 1e-30),
        float_texel(0.5, 0.75, 0.125, 1.0),
        float_texel(3.0, 2.0, 1.0, 0.0),
    ];
    for (format, pixels) in [
        (TextureFormat::Rgba8Unorm, eight.clone()),
        (TextureFormat::Rgba8UnormSrgb, eight),
        (TextureFormat::Rgba16Float, half),
        (TextureFormat::Rgba32Float, single),
    ] {
        let bytes = pixels_to_bytes(&pixels, format).unwrap();
        let px = pixel_size(format).unwrap();
        let back = bytes_to_pixels(&bytes, format, 2, 2, 2 * px).unwrap();
        assert_eq!(back, pixels);
    }
}

#[test]
fn readback_rows_align_to_256_bytes() {
    assert_eq!(padded_bytes_per_row(1, TextureFormat::Rgba8Unorm), Ok(256));
    assert_eq!(padded_bytes_per_row(64, TextureFormat::Rgba8Unorm), Ok(256));
    assert_eq!(padded_bytes_per_row(100, TextureFormat::Rgba16Float), Ok(1024));
    assert_eq!(padded_bytes_per_row(0, TextureFormat::Rgba32Float), Ok(0));
    assert_eq!(readback_buffer_size(100, 3, TextureFormat::Rgba16Float), Ok(3072));
    assert_eq!(
        readback_buffer_size(100, 3, TextureFormat::Other),
        Err(ProcessingError::UnsupportedTextureFormat)
    );
    assert!(matches!(
        readback_buffer_size(u32::MAX, u32::MAX, TextureFormat::Rgba32Float),
        Err(ProcessingError::InvalidArgument(_))
    ));
}

#[test]
fn regions_must_fit_the_texture() {
    assert_eq!(check_region(0, 0, 10, 10, 10, 10), Ok(()));
    assert!(matches!(check_region(1, 0, 10, 10, 10, 10), Err(ProcessingError::InvalidArgument(_))));
    assert!(matches!(check_region(0, 5, 1, 6, 10, 10), Err(ProcessingError::InvalidArgument(_))));
    assert!(matches!(
        check_region(u32::MAX, 0, 2, 1, 10, 10),
        Err(ProcessingError::InvalidArgument(_))
    ));
}

#[test]
fn region_writes_check_the_texel_count() {
    let pixels = vec![texel(1, 2, 3, 4); 3];
    assert!(matches!(
        prepare_update_region(2, 2, &pixels, TextureFormat::Rgba8Unorm),
        Err(ProcessingError::InvalidArgument(_))
    ));
    assert_eq!(
        prepare_update_region(3, 1, &pixels, TextureFormat::Other),
        Err(ProcessingError::UnsupportedTextureFormat)
    );
    let (bytes, px) = prepare_update_region(3, 1, &pixels, TextureFormat::Rgba8Unorm).unwrap();
    assert_eq!(px, 4);
    assert_eq!(bytes, vec![1, 2, 3, 4, 1, 2, 3, 4, 1, 2, 3, 4]);
}
