use carrot_geyser_plugin::identifier::{bytes_equal, Identifier, IdentifierError, IDENTIFIER_LEN};
use solana_program::pubkey::Pubkey;
use std::str::FromStr;

const SAMPLE_TEXT: &str = "2gPihUTjt3FJqf1VpidgrY5cZ6PuyMccGVwQHRfjMPZG";

const SAMPLE_BYTES: [u8; 32] = [
    24, 243, 6, 223, 230, 153, 210, 8, 92, 137, 123, 67, 164, 197, 79, 196, 125, 43, 183, 85, 103,
    91, 232, 167, 73, 131, 104, 131, 0, 101, 214, 231,
];

#[test]
fn identifier_length_is_32() {
    assert_eq!(IDENTIFIER_LEN, 32);
}

#[test]
fn base58_text_is_decoded_to_its_bytes() {
    let id = Identifier::from_base58(SAMPLE_TEXT).unwrap();
    assert_eq!(id.to_bytes(), SAMPLE_BYTES);
    assert_eq!(id, Identifier::new(SAMPLE_BYTES));
}

#[test]
fn bytes_are_rendered_as_base58_text() {
    assert_eq!(Identifier::new(SAMPLE_BYTES).to_base58(), SAMPLE_TEXT);
}

#[test]
fn thirty_two_zero_bytes_are_thirty_two_ones() {
    let zeros = Identifier::new([0u8; 32]);
    assert_eq!(zeros.to_base58(), "11111111111111111111111111111111");
    assert_eq!(
        Identifier::from_base58("11111111111111111111111111111111"),
        Ok(zeros)
    );
}

#[test]
fn rendering_and_decoding_agree_with_the_key_type() {
    let mut bytes = [0u8; 32];
    for (i, b) in bytes.iter_mut().enumerate() {
        *b = (i * 7 + 3) as u8;
    }
    let key = Pubkey::new_from_array(bytes);
    let text = key.to_string();
    assert_eq!(Identifier::new(bytes).to_base58(), text);
    assert_eq!(Identifier::from_base58(&text).unwrap().to_bytes(), bytes);
    assert_eq!(Pubkey::from_str(&text).unwrap().to_bytes(), bytes);
}

#[test]
fn text_outside_the_alphabet_is_invalid() {
    assert_eq!(
        Identifier::from_base58("0gPihUTjt3FJqf1VpidgrY5cZ6PuyMccGVwQHRfjMPZG"),
        Err(IdentifierError::Invalid)
    );
    assert_eq!(
        Identifier::from_base58("2gPihUTjt3FJqf1VpidgrY5cZ6PuyMccGVwQHRfjMPZl"),
        Err(IdentifierError::Invalid)
    );
    assert_eq!(
        Identifier::from_base58("not a key"),
        Err(IdentifierError::Invalid)
    );
}

#[test]
fn text_of_another_length_has_the_wrong_size() {
    assert_eq!(Identifier::from_base58(""), Err(IdentifierError::WrongSize));
    assert_eq!(Identifier::from_base58("abc"), Err(IdentifierError::WrongSize));
    assert_eq!(
        Identifier::from_base58("2gPihUTjt3FJqf1VpidgrY5cZ6PuyMccGVwQHRfjMPZG2"),
        Err(IdentifierError::WrongSize)
    );
    assert_eq!(
        Identifier::from_base58("111111111111111111111111111111111"),
        Err(IdentifierError::WrongSize)
    );
}

#[test]
fn from_slice_takes_exactly_32_bytes() {
    assert_eq!(
        Identifier::from_slice(&SAMPLE_BYTES),
        Some(Identifier::new(SAMPLE_BYTES))
    );
    assert_eq!(Identifier::from_slice(&SAMPLE_BYTES[..31]), None);
    assert_eq!(Identifier::from_slice(&[]), None);
    let mut longer = SAMPLE_BYTES.to_vec();
    longer.push(0);
    assert_eq!(Identifier::from_slice(&longer), None);
}

#[test]
fn read_at_reads_32_bytes_from_the_offset() {
    let mut data: Vec<u8> = Vec::new();
    for i in 0..80u8 {
        data.push(i);
    }
    let first = Identifier::read_at(&data, 0).unwrap();
    let second = Identifier::read_at(&data, 32).unwrap();
    let last = Identifier::read_at(&data, 48).unwrap();
    assert_eq!(first.to_bytes().to_vec(), data[0..32].to_vec());
    assert_eq!(second.to_bytes().to_vec(), data[32..64].to_vec());
    assert_eq!(last.to_bytes().to_vec(), data[48..80].to_vec());
    assert_eq!(Identifier::read_at(&data, 49), None);
    assert_eq!(Identifier::read_at(&data, 80), None);
    assert_eq!(Identifier::read_at(&data, usize::MAX), None);
    assert_eq!(Identifier::read_at(&data[..31], 0), None);
}

#[test]
fn matches_compares_all_bytes() {
    let id = Identifier::new(SAMPLE_BYTES);
    assert!(id.matches(&SAMPLE_BYTES));
    assert!(!id.matches(&SAMPLE_BYTES[..31]));
    let mut other = SAMPLE_BYTES;
    other[31] ^= 1;
    assert!(!id.matches(&other));
    let mut longer = SAMPLE_BYTES.to_vec();
    longer.push(0);
    assert!(!id.matches(&longer));
}

#[test]
fn bytes_equal_is_equality_of_byte_strings() {
    assert!(bytes_equal(b"", b""));
    assert!(bytes_equal(b"abc", b"abc"));
    assert!(!bytes_equal(b"abc", b"abd"));
    assert!(!bytes_equal(b"abc", b"ab"));
    assert!(!bytes_equal(b"", b"a"));
}
