use raytracer::bmp::{bmp_file_bytes, compute_padding_bytes_per_row, generate_header, pad_buffer};

#[test]
fn test_padding_per_row() {
    assert_eq!(compute_padding_bytes_per_row(1), 1);
    assert_eq!(compute_padding_bytes_per_row(2), 2);
    assert_eq!(compute_padding_bytes_per_row(3), 3);
    assert_eq!(compute_padding_bytes_per_row(4), 0);
    assert_eq!(compute_padding_bytes_per_row(5), 1);
}

#[test]
fn test_single_white_pixel_file() {
    // One padded row: 3 color bytes plus 1 padding byte, after the
    // 54-byte header.
    let buffer = vec![0xFFFFFFu32];
    let bytes = bmp_file_bytes(&buffer, 1, 1);

    assert_eq!(bytes.len(), 58);
    // The ASCII signature.
    assert_eq!(bytes[0], 0x42);
    assert_eq!(bytes[1], 0x4D);
    // The width as a little-endian 32-bit value at offset 18.
    assert_eq!(&bytes[18..22], &[1, 0, 0, 0]);
    // The pixel: blue, green, red, then the padding byte.
    assert_eq!(&bytes[54..58], &[255, 255, 255, 0]);
}

#[test]
fn test_header_layout() {
    let header = generate_header(3, 2, 24);
    assert_eq!(header.len(), 54);
    // File size: 54 + 24 = 78.
    assert_eq!(&header[2..6], &[78, 0, 0, 0]);
    // Pixel data offset and information header size.
    assert_eq!(&header[10..14], &[54, 0, 0, 0]);
    assert_eq!(&header[14..18], &[40, 0, 0, 0]);
    // Dimensions.
    assert_eq!(&header[18..22], &[3, 0, 0, 0]);
    assert_eq!(&header[22..26], &[2, 0, 0, 0]);
    // One plane, 24 bits per pixel, no compression.
    assert_eq!(&header[26..28], &[1, 0]);
    assert_eq!(header[28], 24);
    assert_eq!(&header[30..34], &[0, 0, 0, 0]);
    // Pixel data size.
    assert_eq!(&header[34..38], &[24, 0, 0, 0]);
}

#[test]
fn test_rows_are_flipped_and_bgr_ordered() {
    // A raster one pixel wide and two tall: the bottom row is emitted
    // first, and each pixel is written blue, green, red.
    let top = 0x112233u32;
    let bottom = 0x445566u32;
    let data = pad_buffer(&vec![top, bottom], 1, 2);

    assert_eq!(data.len(), 8);
    assert_eq!(&data[0..4], &[0x66, 0x55, 0x44, 0]);
    assert_eq!(&data[4..8], &[0x33, 0x22, 0x11, 0]);
}

#[test]
fn test_wide_row_has_no_padding() {
    // Width 4 gives 12 color bytes per row, already a multiple of 4.
    let data = pad_buffer(&vec![0u32; 4], 4, 1);
    assert_eq!(data.len(), 12);
}
