use scop::bmp::{bmp_layout, read_le_u32, BmpError, BmpLayout};
use scop::texture::{texture_from_file_bytes, texture_from_rgba8, TextureError};

fn header(offset: u32, width: i32, height: i32, size: u32) -> Vec<u8> {
    let mut h = vec![0u8; 54];
    h[0] = b'B';
    h[1] = b'M';
    h[10..14].copy_from_slice(&offset.to_le_bytes());
    h[14..18].copy_from_slice(&40u32.to_le_bytes());
    h[18..22].copy_from_slice(&width.to_le_bytes());
    h[22..26].copy_from_slice(&height.to_le_bytes());
    h[26..28].copy_from_slice(&1u16.to_le_bytes());
    h[28..30].copy_from_slice(&24u16.to_le_bytes());
    h[34..38].copy_from_slice(&size.to_le_bytes());
    h
}

#[test]
fn little_endian_read() {
    assert_eq!(read_le_u32(&[0x78, 0x56, 0x34, 0x12, 0xFF], 0), 0x1234_5678);
    assert_eq!(read_le_u32(&[0, 0xFF, 0xFF, 0xFF, 0xFF], 1), u32::MAX);
}

#[test]
fn bmp_layout_reads_fields() {
    let h = header(138, 4, -3, 48);
    assert_eq!(bmp_layout(&h), Ok(BmpLayout { data_offset: 138, data_len: 48, width: 4, height: 3 }));
}

#[test]
fn bmp_layout_defaults() {
    let h = header(0, -5, 7, 0);
    assert_eq!(bmp_layout(&h), Ok(BmpLayout { data_offset: 54, data_len: 105, width: 5, height: 7 }));
    let h = header(0, i32::MIN, i32::MIN, 0);
    let l = bmp_layout(&h).unwrap();
    assert_eq!(l.width, 0x8000_0000);
    assert_eq!(l.data_len, 3 * (1u64 << 62));
}

#[test]
fn bmp_layout_errors() {
    assert_eq!(bmp_layout(&[b'B', b'M', 0, 0]), Err(BmpError::ShortHeader));
    let mut h = header(54, 1, 1, 0);
    h[1] = b'X';
    assert_eq!(bmp_layout(&h), Err(BmpError::NotBmp));
}

#[test]
fn texture_size_checks() {
    assert_eq!(texture_from_rgba8(0, 4, vec![]).err(), Some(TextureError::Empty));
    assert_eq!(texture_from_rgba8(4, 0, vec![]).err(), Some(TextureError::Empty));
    assert_eq!(texture_from_rgba8(0x8000_0000, 1, vec![]).err(), Some(TextureError::TooLarge));
    let t = texture_from_rgba8(1, 2, vec![1, 2, 3, 4, 5, 6, 7, 8]).unwrap();
    assert_eq!((t.width, t.height), (1, 2));
    assert_eq!(t.pixels, vec![1, 2, 3, 4, 5, 6, 7, 8]);
}

#[test]
fn bmp_file_decodes_to_rgba() {
    // Two pixels in one row, stored blue-green-red, rows padded to 4 bytes.
    let mut file = header(54, 2, 1, 8);
    file[2..6].copy_from_slice(&62u32.to_le_bytes());
    file.extend_from_slice(&[10, 20, 30, 40, 50, 60, 0, 0]);
    let t = texture_from_file_bytes(&file).unwrap();
    assert_eq!((t.width, t.height), (2, 1));
    assert_eq!(t.pixels, vec![30, 20, 10, 255, 60, 50, 40, 255]);
}

#[test]
fn garbage_does_not_decode() {
    assert_eq!(texture_from_file_bytes(b"not an image at all").err(), Some(TextureError::Decode));
    assert_eq!(texture_from_file_bytes(&[]).err(), Some(TextureError::Decode));
}
