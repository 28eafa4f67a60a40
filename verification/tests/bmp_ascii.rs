use bmp_ascii::char_map::{parse_custom_char_map, ParseCustomCharMapError};
use bmp_ascii::decoder::{decode, decode_header, BmpDecodeError};
use bmp_ascii::pixel::Pixel;
use bmp_ascii::read_bytes::{read_uint16_le, read_uint32_le, ReadBytesError};
use bmp_ascii::renderer::{decode_and_render, default_char_map, palette_index, render};

fn put_u16(v: &mut Vec<u8>, offset: usize, value: u16) {
    v[offset] = (value & 0xff) as u8;
    v[offset + 1] = (value >> 8) as u8;
}

fn put_u32(v: &mut Vec<u8>, offset: usize, value: u32) {
    v[offset] = (value & 0xff) as u8;
    v[offset + 1] = ((value >> 8) & 0xff) as u8;
    v[offset + 2] = ((value >> 16) & 0xff) as u8;
    v[offset + 3] = ((value >> 24) & 0xff) as u8;
}

/// Builds a complete 24-bit BMP buffer. `storage_pixels` is given in BMP's
/// storage order: row 0 is the visually bottom row, `(r, g, b)` per pixel.
fn make_bmp(width: u32, height: u32, storage_pixels: &[(u8, u8, u8)]) -> Vec<u8> {
    assert_eq!(storage_pixels.len(), (width * height) as usize);
    let pao: u32 = 54;
    let padding = (3 * width) % 4;
    let mut v = vec![0u8; 54];
    v[0] = b'B';
    v[1] = b'M';
    put_u32(&mut v, 10, pao);
    put_u32(&mut v, 14, 40);
    put_u32(&mut v, 18, width);
    put_u32(&mut v, 22, height);
    put_u16(&mut v, 26, 1);
    put_u16(&mut v, 28, 24);
    put_u32(&mut v, 30, 0);
    put_u32(&mut v, 34, 0);
    for row in 0..height {
        for col in 0..width {
            let (r, g, b) = storage_pixels[(row * width + col) as usize];
            v.push(b);
            v.push(g);
            v.push(r);
        }
        for _ in 0..padding {
            v.push(0);
        }
    }
    let file_size = v.len() as u32;
    put_u32(&mut v, 2, file_size);
    v
}

#[test]
fn read_u16_le_exact() {
    let bytes = vec![0x34u8, 0x12u8];
    assert_eq!(read_uint16_le(&bytes, 0), Ok(0x1234));
}

#[test]
fn read_u16_le_at_offset() {
    let bytes = vec![0u8, 0xcdu8, 0xabu8];
    assert_eq!(read_uint16_le(&bytes, 1), Ok(0xabcd));
}

#[test]
fn read_u16_le_insufficient() {
    let bytes = vec![7u8];
    assert_eq!(read_uint16_le(&bytes, 0), Err(ReadBytesError::NotEnoughBytes));
}

#[test]
fn read_u32_le_exact() {
    let bytes = vec![0x78u8, 0x56u8, 0x34u8, 0x12u8];
    assert_eq!(read_uint32_le(&bytes, 0), Ok(0x12345678));
}

#[test]
fn read_u32_le_insufficient_three_bytes() {
    let bytes = vec![1u8, 2u8, 3u8];
    assert_eq!(read_uint32_le(&bytes, 0), Err(ReadBytesError::NotEnoughBytes));
}

#[test]
fn read_u32_le_insufficient_empty() {
    let bytes: Vec<u8> = Vec::new();
    assert_eq!(read_uint32_le(&bytes, 0), Err(ReadBytesError::NotEnoughBytes));
}

#[test]
fn parse_hash_dot_palette() {
    let r = parse_custom_char_map("# . ");
    assert_eq!(r, Ok(vec![b'#', b'.']));
}

#[test]
fn parse_takes_every_even_position() {
    let r = parse_custom_char_map("A B C");
    assert_eq!(r, Ok(vec![b'A', b'B', b'C']));
}

#[test]
fn parse_empty_yields_empty_palette() {
    let r = parse_custom_char_map("");
    assert_eq!(r, Ok(Vec::new()));
}

#[test]
fn parse_rejects_multibyte_at_even_position() {
    let r = parse_custom_char_map("é x");
    assert_eq!(r, Err(ParseCustomCharMapError::ParseError));
}

#[test]
fn parse_rejects_multibyte_after_valid_glyphs() {
    let r = parse_custom_char_map("a b é");
    assert_eq!(r, Err(ParseCustomCharMapError::ParseError));
}

#[test]
fn parse_ignores_multibyte_at_odd_position() {
    let r = parse_custom_char_map("aéb");
    assert_eq!(r, Ok(vec![b'a', b'b']));
}

#[test]
fn decode_header_fields() {
    let bmp = make_bmp(3, 2, &[(0, 0, 0); 6]);
    let h = decode_header(&bmp).unwrap();
    assert_eq!(h.file_size, bmp.len() as u32);
    assert_eq!(h.pixel_array_offset, 54);
    assert_eq!(h.image_width, 3);
    assert_eq!(h.image_height, 2);
    assert_eq!(h.bits_per_pixel, 24);
    // declared size is 0, so the size is computed: 2 rows of 3*3+1 bytes
    assert_eq!(h.image_size, 20);
}

#[test]
fn decode_header_uses_declared_image_size() {
    let mut bmp = make_bmp(3, 2, &[(0, 0, 0); 6]);
    put_u32(&mut bmp, 34, 99);
    let h = decode_header(&bmp).unwrap();
    assert_eq!(h.image_size, 99);
}

#[test]
fn decode_short_buffer_is_insufficient() {
    let bytes = vec![0u8; 10];
    assert!(matches!(decode(&bytes), Err(BmpDecodeError::InsufficientBytes)));
}

#[test]
fn decode_rejects_other_bit_depths() {
    let mut bmp = make_bmp(1, 1, &[(0, 0, 0)]);
    put_u16(&mut bmp, 28, 32);
    assert!(matches!(decode(&bmp), Err(BmpDecodeError::UnsupportedFormat)));
}

#[test]
fn decode_truncated_pixel_array_is_insufficient() {
    let bmp = make_bmp(2, 2, &[(0, 0, 0); 4]);
    let cut = &bmp[..bmp.len() - 1];
    assert!(matches!(decode(cut), Err(BmpDecodeError::InsufficientBytes)));
}

#[test]
fn decode_zero_width_yields_empty() {
    let bmp = make_bmp(0, 3, &[]);
    let img = decode(&bmp).unwrap();
    assert_eq!(img.width, 0);
    assert_eq!(img.height, 3);
    assert_eq!(img.pixels.len(), 0);
}

#[test]
fn decode_zero_height_yields_empty() {
    let bmp = make_bmp(4, 0, &[]);
    let img = decode(&bmp).unwrap();
    assert_eq!(img.width, 4);
    assert_eq!(img.height, 0);
    assert_eq!(img.pixels.len(), 0);
}

#[test]
fn render_zero_width_gives_one_line_break_per_row() {
    let bmp = make_bmp(0, 2, &[]);
    let art = decode_and_render(&bmp, &default_char_map(), false).unwrap();
    assert_eq!(art, vec![b'\n', b'\n']);
}

#[test]
fn decode_reads_bgr_in_storage_order() {
    let bmp = make_bmp(2, 1, &[(1, 2, 3), (4, 5, 6)]);
    let img = decode(&bmp).unwrap();
    assert_eq!(img.pixels.len(), 2);
    assert_eq!(img.pixels[0], Pixel { r: 1, g: 2, b: 3 });
    assert_eq!(img.pixels[1], Pixel { r: 4, g: 5, b: 6 });
}

#[test]
fn decode_width_three_skips_row_padding() {
    // width 3 at 24 bpp needs 1 padding byte per stored row
    let pixels = [
        (1, 2, 3),
        (4, 5, 6),
        (7, 8, 9),
        (10, 11, 12),
        (13, 14, 15),
        (16, 17, 18),
    ];
    let bmp = make_bmp(3, 2, &pixels);
    let img = decode(&bmp).unwrap();
    assert_eq!(img.pixels.len(), 6);
    for (i, &(r, g, b)) in pixels.iter().enumerate() {
        assert_eq!(img.pixels[i], Pixel { r, g, b });
    }
}

#[test]
fn default_char_map_is_darkest_to_lightest() {
    assert_eq!(default_char_map(), vec![b'#', b'!', b'-', b'.', b' ']);
}

#[test]
fn palette_index_extremes() {
    assert_eq!(palette_index(0, 5), 0);
    assert_eq!(palette_index(765, 5), 4);
}

#[test]
fn palette_index_rounds_to_nearest() {
    // 383/765 of 4 entries scales to 2.0026..., which rounds to index 2
    assert_eq!(palette_index(383, 5), 2);
    // 95/765 of 4 entries scales to 0.4967..., which rounds to index 0
    assert_eq!(palette_index(95, 5), 0);
    // 96/765 of 4 entries scales to 0.5019..., which rounds to index 1
    assert_eq!(palette_index(96, 5), 1);
}

#[test]
fn palette_index_is_monotonic_in_sum() {
    let mut last = 0usize;
    for sum in 0..=765usize {
        let idx = palette_index(sum, 5);
        assert!(idx >= last);
        last = idx;
    }
}

#[test]
fn render_all_white_is_spaces() {
    let bmp = make_bmp(2, 2, &[(255, 255, 255); 4]);
    let img = decode(&bmp).unwrap();
    let art = render(&img, &default_char_map(), false);
    assert_eq!(art, vec![b' ', b' ', b'\n', b' ', b' ', b'\n']);
}

#[test]
fn render_all_black_is_hashes() {
    let bmp = make_bmp(2, 2, &[(0, 0, 0); 4]);
    let img = decode(&bmp).unwrap();
    let art = render(&img, &default_char_map(), false);
    assert_eq!(art, vec![b'#', b'#', b'\n', b'#', b'#', b'\n']);
}

#[test]
fn render_mid_gray_picks_middle_glyph() {
    // sum 384 scales to 4 * 384 / 765 = 2.0078..., rounding to index 2: '-'
    let bmp = make_bmp(1, 1, &[(128, 128, 128)]);
    let img = decode(&bmp).unwrap();
    let art = render(&img, &default_char_map(), false);
    assert_eq!(art, vec![b'-', b'\n']);
}

#[test]
fn render_inverted_swaps_extremes() {
    let bmp = make_bmp(1, 1, &[(255, 255, 255)]);
    let img = decode(&bmp).unwrap();
    let art = render(&img, &default_char_map(), true);
    assert_eq!(art, vec![b'#', b'\n']);
}

#[test]
fn render_flips_rows_vertically() {
    // stored bottom row black, stored top row white; output reads top-first
    let bmp = make_bmp(1, 2, &[(0, 0, 0), (255, 255, 255)]);
    let img = decode(&bmp).unwrap();
    let art = render(&img, &default_char_map(), false);
    assert_eq!(art, vec![b' ', b'\n', b'#', b'\n']);
}

#[test]
fn render_layout_rows_and_line_breaks() {
    let bmp = make_bmp(3, 2, &[(50, 60, 70); 6]);
    let img = decode(&bmp).unwrap();
    let art = render(&img, &default_char_map(), false);
    assert_eq!(art.len(), 2 * (3 + 1));
    for (i, &byte) in art.iter().enumerate() {
        if i % 4 == 3 {
            assert_eq!(byte, b'\n');
        } else {
            assert_ne!(byte, b'\n');
        }
    }
}

#[test]
fn render_twice_is_identical() {
    let bmp = make_bmp(3, 2, &[(9, 8, 7), (1, 2, 3), (200, 100, 0), (4, 4, 4), (250, 250, 250), (128, 128, 128)]);
    let img = decode(&bmp).unwrap();
    let palette = default_char_map();
    let first = render(&img, &palette, false);
    let second = render(&img, &palette, false);
    assert_eq!(first, second);
}

#[test]
fn decode_and_render_pipeline() {
    let bmp = make_bmp(2, 2, &[(255, 255, 255); 4]);
    let art = decode_and_render(&bmp, &default_char_map(), false).unwrap();
    assert_eq!(art, vec![b' ', b' ', b'\n', b' ', b' ', b'\n']);
}

#[test]
fn decode_and_render_custom_palette() {
    let palette = parse_custom_char_map("@ . ").unwrap();
    assert_eq!(palette, vec![b'@', b'.']);
    let bmp = make_bmp(2, 1, &[(0, 0, 0), (255, 255, 255)]);
    let art = decode_and_render(&bmp, &palette, false).unwrap();
    assert_eq!(art, vec![b'@', b'.', b'\n']);
}

#[test]
fn decode_and_render_reports_decode_errors() {
    let short = vec![0u8; 3];
    assert_eq!(
        decode_and_render(&short, &default_char_map(), false),
        Err(BmpDecodeError::InsufficientBytes)
    );
}
