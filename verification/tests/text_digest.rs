use precompress::digest::md5_hex;
use precompress::text::to_decimal;

#[test]
fn md5_of_empty_input() {
    assert_eq!(md5_hex(b""), "d41d8cd98f00b204e9800998ecf8427e");
}

#[test]
fn md5_matches_known_digests() {
    assert_eq!(md5_hex(b"abc"), "900150983cd24fb0d6963f7d28e17f72");
    assert_eq!(
        md5_hex(b"The quick brown fox jumps over the lazy dog"),
        "9e107d9d372bb6826bd81d3542a419d6"
    );
    assert_eq!(md5_hex(b"abc").len(), 32);
}

#[test]
fn md5_text_is_the_lower_hex_of_the_digest() {
    let data = b"some file contents";
    assert_eq!(md5_hex(data), format!("{:x}", md5::compute(data)));
}

#[test]
fn decimal_numerals() {
    assert_eq!(to_decimal(0), "0");
    assert_eq!(to_decimal(7), "7");
    assert_eq!(to_decimal(10), "10");
    assert_eq!(to_decimal(1234567), "1234567");
    assert_eq!(to_decimal(usize::MAX), usize::MAX.to_string());
}
