//! End-to-end tests over the cipher, the archive reader, the deserializer
//! and the texture decoder, on concrete buffers built by hand.
use pakparse::archive::{contains_bytes, FPakEntry, PakExtractor};
use pakparse::assets::{Export, Package, PropertyValue};
use pakparse::cipher::Rijndael;
use pakparse::errors::ParserError;
use pakparse::hexs::decode_hex;
use pakparse::texture::decode_texture;
use pakparse::{cerr, texture};

fn hex_bytes(s: &str) -> Vec<u8> {
    decode_hex(s.as_bytes()).unwrap()
}

fn push_le32(v: &mut Vec<u8>, x: u32) {
    v.extend_from_slice(&x.to_le_bytes());
}

fn push_le64(v: &mut Vec<u8>, x: u64) {
    v.extend_from_slice(&x.to_le_bytes());
}

fn push_str(v: &mut Vec<u8>, s: &[u8]) {
    push_le32(v, s.len() as u32);
    v.extend_from_slice(s);
}

#[test]
fn aes128_known_answer() {
    let key = hex_bytes("000102030405060708090a0b0c0d0e0f");
    let pt = hex_bytes("00112233445566778899aabbccddeeff");
    let ct = hex_bytes("69c4e0d86a7b0430d8cdb78070b4c55a");
    let c = Rijndael::new(&key).unwrap();
    assert_eq!(c.encrypt_block(&pt), ct);
    assert_eq!(c.decrypt_block(&ct), pt);
}

#[test]
fn aes192_known_answer() {
    let key = hex_bytes("000102030405060708090a0b0c0d0e0f1011121314151617");
    let pt = hex_bytes("00112233445566778899aabbccddeeff");
    let ct = hex_bytes("dda97ca4864cdfe06eaf70a0ec0d7191");
    let c = Rijndael::new(&key).unwrap();
    assert_eq!(c.encrypt_block(&pt), ct);
    assert_eq!(c.decrypt_block(&ct), pt);
}

#[test]
fn aes256_known_answer() {
    let key = hex_bytes("000102030405060708090a0b0c0d0e0f101112131415161718191a1b1c1d1e1f");
    let pt = hex_bytes("00112233445566778899aabbccddeeff");
    let ct = hex_bytes("8ea2b7ca516745bfeafc49904b496089");
    let c = Rijndael::new(&key).unwrap();
    assert_eq!(c.encrypt_block(&pt), ct);
    assert_eq!(c.decrypt_block(&ct), pt);
}

#[test]
fn decrypt_then_encrypt_round_trips() {
    let key = hex_bytes("000102030405060708090a0b0c0d0e0f");
    let c = Rijndael::new(&key).unwrap();
    let data: Vec<u8> = (0u8..32).collect();
    let plain = c.decrypt(&data).unwrap();
    let back = c.encrypt(&plain).unwrap();
    assert_eq!(back, data);
}

#[test]
fn bad_key_length_is_crypto_error() {
    let key = [0u8; 5];
    assert!(matches!(Rijndael::new(&key), Err(ParserError::Crypto)));
}

#[test]
fn hex_decoding() {
    assert_eq!(decode_hex(b"00ff10Ab").unwrap(), vec![0x00, 0xff, 0x10, 0xab]);
    assert!(matches!(decode_hex(b"0g"), Err(ParserError::Crypto)));
    assert!(matches!(decode_hex(b"abc"), Err(ParserError::Crypto)));
}

const KEY_HEX: &str = "000102030405060708090a0b0c0d0e0f101112131415161718191a1b1c1d1e1f";

/// Builds an archive with one stored entry named "a.txt" and one encrypted
/// entry named "b.bin", plus the encrypted index and trailing footer.
fn build_archive() -> (Vec<u8>, Vec<u8>, Vec<u8>) {
    let key = hex_bytes(KEY_HEX);
    let cipher = Rijndael::new(&key).unwrap();
    let payload_a = b"hello archive".to_vec();
    let secret_b = b"0123456789abcdef".to_vec();
    let payload_b = cipher.encrypt(&secret_b).unwrap();

    let mut body: Vec<u8> = Vec::new();
    body.extend_from_slice(&payload_a);
    let off_b = body.len() as u64;
    body.extend_from_slice(&payload_b);

    let mut index: Vec<u8> = Vec::new();
    push_le32(&mut index, 2);
    index.extend_from_slice(&[0u8; 12]);
    // record for a.txt
    let mut name = b"a.txt".to_vec();
    name.resize(32, 0);
    index.extend_from_slice(&name);
    push_le64(&mut index, 0);
    push_le64(&mut index, payload_a.len() as u64);
    push_le64(&mut index, payload_a.len() as u64);
    push_le32(&mut index, 0);
    index.extend_from_slice(&[0u8, 0, 0, 0]);
    // record for b.bin
    let mut name = b"b.bin".to_vec();
    name.resize(32, 0);
    index.extend_from_slice(&name);
    push_le64(&mut index, off_b);
    push_le64(&mut index, payload_b.len() as u64);
    push_le64(&mut index, payload_b.len() as u64);
    push_le32(&mut index, 0);
    index.extend_from_slice(&[1u8, 0, 0, 0]);
    assert_eq!(index.len() % 16, 0);

    let enc_index = cipher.encrypt(&index).unwrap();
    let mut data = body.clone();
    let ioff = data.len() as u64;
    data.extend_from_slice(&enc_index);
    push_le32(&mut data, 0x5a6f12e1);
    push_le32(&mut data, 3);
    push_le64(&mut data, ioff);
    push_le64(&mut data, enc_index.len() as u64);
    data.extend_from_slice(&[0u8; 20]);
    (data, payload_a, secret_b)
}

#[test]
fn archive_lists_and_reads_entries() {
    let (data, payload_a, secret_b) = build_archive();
    let pak = PakExtractor::new(data, KEY_HEX.as_bytes()).unwrap();
    let entries = pak.get_entries();
    assert_eq!(entries.len(), 2);
    assert_eq!(entries[0].name, b"a.txt".to_vec());
    assert_eq!(entries[1].name, b"b.bin".to_vec());
    let got_a = pak.get_file(&entries[0]).unwrap();
    assert_eq!(got_a, payload_a);
    assert_eq!(got_a.len() as u64, entries[0].uncompressed_size);
    let got_b = pak.get_file(&entries[1]).unwrap();
    assert_eq!(got_b, secret_b);
    assert_eq!(got_b.len() as u64, entries[1].uncompressed_size);
}

#[test]
fn archive_bad_magic_is_format_error() {
    let (mut data, _, _) = build_archive();
    let n = data.len();
    data[n - 44] ^= 0xff;
    assert!(matches!(
        PakExtractor::new(data, KEY_HEX.as_bytes()),
        Err(ParserError::Format)
    ));
}

#[test]
fn archive_bad_version_is_format_error() {
    let (mut data, _, _) = build_archive();
    let n = data.len();
    data[n - 40] = 9;
    assert!(matches!(
        PakExtractor::new(data, KEY_HEX.as_bytes()),
        Err(ParserError::Format)
    ));
}

fn build_generic_package() -> Vec<u8> {
    let mut props: Vec<u8> = Vec::new();
    push_str(&mut props, b"Count");
    props.push(1); // int tag
    push_le32(&mut props, 4);
    push_le32(&mut props, 7);
    push_str(&mut props, b"Label");
    props.push(4); // string tag
    push_le32(&mut props, 4 + 2);
    push_str(&mut props, b"ok");
    push_str(&mut props, b"None");
    let mut pkg: Vec<u8> = Vec::new();
    push_str(&mut pkg, b"Thing");
    push_le32(&mut pkg, 0);
    push_le32(&mut pkg, props.len() as u32);
    pkg.extend_from_slice(&props);
    pkg
}

#[test]
fn package_parses_properties_in_order() {
    let pkg = Package::new(&build_generic_package()).unwrap();
    assert_eq!(pkg.export_type, b"Thing".to_vec());
    assert_eq!(pkg.properties.len(), 2);
    assert_eq!(pkg.properties[0].name, b"Count".to_vec());
    assert!(matches!(pkg.properties[0].value, PropertyValue::Int(7)));
    assert_eq!(pkg.properties[1].name, b"Label".to_vec());
    match &pkg.properties[1].value {
        PropertyValue::Str(s) => assert_eq!(s, &b"ok".to_vec()),
        _ => panic!("wrong value kind"),
    }
}

#[test]
fn package_wrong_serialized_size_is_format_error() {
    let mut raw = build_generic_package();
    // header of "Thing" package: 4 + 5 name bytes, then flags, then size
    let size_pos = 4 + 5 + 4;
    raw[size_pos] ^= 1;
    assert!(matches!(Package::new(&raw), Err(ParserError::Format)));
}

#[test]
fn missing_sentinel_is_property_error_with_parent_path() {
    // A struct property "Outer" holding one int "A", with the stream cut off
    // before any sentinel.
    let mut inner: Vec<u8> = Vec::new();
    push_str(&mut inner, b"A");
    inner.push(1);
    push_le32(&mut inner, 4);
    push_le32(&mut inner, 5);
    let mut props: Vec<u8> = Vec::new();
    push_str(&mut props, b"Outer");
    props.push(6); // struct tag
    push_le32(&mut props, inner.len() as u32);
    props.extend_from_slice(&inner);
    let mut pkg: Vec<u8> = Vec::new();
    push_str(&mut pkg, b"Thing");
    push_le32(&mut pkg, 0);
    push_le32(&mut pkg, props.len() as u32);
    pkg.extend_from_slice(&props);
    let err = Package::new(&pkg).unwrap_err();
    match err {
        ParserError::Property { path } => {
            assert_eq!(path, vec![b"Outer".to_vec()]);
        },
        _ => panic!("expected a property error"),
    }
}

fn build_texture_package(pf: &[u8], w: u32, h: u32, data: &[u8]) -> Vec<u8> {
    let mut props: Vec<u8> = Vec::new();
    push_str(&mut props, b"None");
    let mut pkg: Vec<u8> = Vec::new();
    push_str(&mut pkg, b"Texture2D");
    push_le32(&mut pkg, 0);
    push_le32(&mut pkg, props.len() as u32);
    pkg.extend_from_slice(&props);
    push_str(&mut pkg, pf);
    push_le32(&mut pkg, w);
    push_le32(&mut pkg, h);
    push_str(&mut pkg, data);
    pkg
}

#[test]
fn zero_block_decodes_to_transparent_black() {
    let pf = b"PF_DXT5".to_vec();
    let img = decode_texture(&pf, &[0u8; 16], 4, 4).unwrap();
    assert_eq!(img.pixels.len(), 64);
    assert!(img.pixels.iter().all(|&b| b == 0));
}

#[test]
fn odd_dimensions_still_give_width_times_height_pixels() {
    let pf = b"PF_DXT5".to_vec();
    let img = decode_texture(&pf, &[0u8; 16], 3, 2).unwrap();
    assert_eq!(img.pixels.len(), 4 * 3 * 2);
}

#[test]
fn decode_is_deterministic() {
    let pf = b"PF_DXT5".to_vec();
    let mut blocks = vec![0u8; 64];
    for (i, b) in blocks.iter_mut().enumerate() {
        *b = (i as u8).wrapping_mul(37);
    }
    let a = decode_texture(&pf, &blocks, 5, 7).unwrap();
    let b = decode_texture(&pf, &blocks, 5, 7).unwrap();
    assert_eq!(a.pixels, b.pixels);
}

#[test]
fn unknown_pixel_format_is_unsupported() {
    let pf = b"PF_DXT1".to_vec();
    assert!(matches!(
        decode_texture(&pf, &[0u8; 16], 4, 4),
        Err(ParserError::Unsupported)
    ));
}

#[test]
fn short_texture_buffer_is_format_error() {
    let pf = b"PF_DXT5".to_vec();
    assert!(matches!(
        decode_texture(&pf, &[0u8; 15], 4, 4),
        Err(ParserError::Format)
    ));
}

#[test]
fn texture_command_decodes_texture_package() {
    let raw = build_texture_package(b"PF_DXT5", 4, 4, &[0u8; 16]);
    let pkg = Package::new(&raw).unwrap();
    let img = texture(&pkg).unwrap();
    assert_eq!(img.width, 4);
    assert_eq!(img.height, 4);
    assert_eq!(img.pixels.len(), 64);
}

#[test]
fn texture_command_rejects_non_dxt5_format() {
    let raw = build_texture_package(b"PF_RGBA8", 4, 4, &[0u8; 64]);
    let pkg = Package::new(&raw).unwrap();
    let err = texture(&pkg).unwrap_err();
    assert_eq!(err.message, "Only supported formats: DXT5");
}

#[test]
fn non_texture_export_is_type_mismatch() {
    let pkg = Package::new(&build_generic_package()).unwrap();
    assert!(matches!(
        pkg.get_export().as_texture(),
        Err(ParserError::TypeMismatch)
    ));
    match pkg.get_export() {
        Export::Generic => {},
        _ => panic!("expected the generic kind"),
    }
    let err = texture(&pkg).unwrap_err();
    assert_eq!(err.message, "Package not exporting texture");
}

#[test]
fn cerr_wraps_message() {
    let r = cerr("No path specified");
    assert_eq!(r.unwrap_err().message, "No path specified");
}

#[test]
fn unknown_compression_method_is_unsupported() {
    let (data, _, _) = build_archive();
    let pak = PakExtractor::new(data, KEY_HEX.as_bytes()).unwrap();
    let odd = FPakEntry {
        name: b"a.txt".to_vec(),
        offset: 0,
        compressed_size: 4,
        uncompressed_size: 4,
        compression_method: 2,
        encrypted: false,
    };
    assert!(matches!(pak.get_file(&odd), Err(ParserError::Unsupported)));
}

#[test]
fn property_stream_bytes_account_for_declared_sizes() {
    // Two properties of name lengths 5 and 5 with declared sizes 4 and 6,
    // plus the 8-byte sentinel: (9+5+4) + (9+5+6) + 8 bytes in all, and the
    // package header carries exactly that as its serialized size.
    let raw = build_generic_package();
    let pkg = Package::new(&raw).unwrap();
    assert_eq!(pkg.serialized_size, (9 + 5 + 4) + (9 + 5 + 6) + 8);
}

#[test]
fn name_pattern_matching_is_substring_search() {
    assert!(contains_bytes(&b"path/to/file.txt".to_vec(), b"to/f"));
    assert!(contains_bytes(&b"path/to/file.txt".to_vec(), b""));
    assert!(!contains_bytes(&b"path".to_vec(), b"pth"));
    assert!(!contains_bytes(&b"ab".to_vec(), b"abc"));
}
