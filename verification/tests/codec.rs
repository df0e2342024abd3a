use base64::Engine;
use otel_fields::codec::{
    decode_base64, encode_hex, hex_digit_of, hex_only_decode, identifier, sextet_of,
    utf8_preferred_decode,
};
use otel_fields::selector::IdForm;

fn encode(bytes: &[u8]) -> String {
    base64::engine::general_purpose::STANDARD.encode(bytes)
}

fn decode(text: &str) -> Option<Vec<u8>> {
    base64::engine::general_purpose::STANDARD.decode(text).ok()
}

/// A small deterministic generator of bytes.
struct Bytes(u64);

impl Bytes {
    fn next(&mut self) -> u8 {
        self.0 = self.0.wrapping_mul(6364136223846793005).wrapping_add(1442695040888963407);
        (self.0 >> 56) as u8
    }

    fn take(&mut self, n: usize) -> Vec<u8> {
        (0..n).map(|_| self.next()).collect()
    }
}

fn lower_hex(bytes: &[u8]) -> String {
    bytes.iter().map(|b| format!("{:02x}", b)).collect()
}

#[test]
fn sextets_cover_the_alphabet() {
    let alphabet = "ABCDEFGHIJKLMNOPQRSTUVWXYZabcdefghijklmnopqrstuvwxyz0123456789+/";
    for (value, c) in alphabet.chars().enumerate() {
        assert_eq!(sextet_of(c), Some(value as u8));
    }
    for code in 0..=0x10ffffu32 {
        if let Some(c) = char::from_u32(code) {
            assert_eq!(sextet_of(c).is_some(), alphabet.contains(c), "U+{:04X}", code);
        }
    }
}

#[test]
fn base64_decodes_padded_groups() {
    assert_eq!(decode_base64(""), Some(vec![]));
    assert_eq!(decode_base64("Zg=="), Some(b"f".to_vec()));
    assert_eq!(decode_base64("Zm8="), Some(b"fo".to_vec()));
    assert_eq!(decode_base64("Zm9v"), Some(b"foo".to_vec()));
    assert_eq!(decode_base64("Zm9vYg=="), Some(b"foob".to_vec()));
    assert_eq!(decode_base64("Zm9vYmE="), Some(b"fooba".to_vec()));
    assert_eq!(decode_base64("Zm9vYmFy"), Some(b"foobar".to_vec()));
    assert_eq!(decode_base64("+/+/"), Some(vec![0xfb, 0xff, 0xbf]));
}

#[test]
fn base64_rejects_what_is_not_canonical() {
    assert_eq!(decode_base64("Zg"), None);
    assert_eq!(decode_base64("Zg="), None);
    assert_eq!(decode_base64("Zh=="), None);
    assert_eq!(decode_base64("Zm9="), None);
    assert_eq!(decode_base64("Zg==Zg=="), None);
    assert_eq!(decode_base64("Z=9v"), None);
    assert_eq!(decode_base64("Zm9v\n"), None);
    assert_eq!(decode_base64("Zm-_"), None);
    assert_eq!(decode_base64("===="), None);
    assert_eq!(decode_base64("Zm9vé"), None);
}

#[test]
fn base64_decoding_undoes_encoding() {
    let mut source = Bytes(7);
    for n in 0..200 {
        let bytes = source.take(n % 40);
        assert_eq!(decode_base64(&encode(&bytes)), Some(bytes));
    }
    for a in 0..=255u8 {
        assert_eq!(decode_base64(&encode(&[a])), Some(vec![a]));
        for b in [0u8, 1, 0x0f, 0x10, 0x7f, 0x80, 0xff] {
            assert_eq!(decode_base64(&encode(&[a, b])), Some(vec![a, b]));
            assert_eq!(decode_base64(&encode(&[b, a, b])), Some(vec![b, a, b]));
        }
    }
}

#[test]
fn base64_agrees_with_the_standard_engine() {
    let alphabet = ['A', 'B', 'Q', 'g', 'w', '/', '+', '=', '-', ' '];
    let mut texts = vec![String::new()];
    let mut last = vec![String::new()];
    for _ in 0..4 {
        let mut next = Vec::new();
        for s in &last {
            for c in alphabet {
                let mut t = s.clone();
                t.push(c);
                next.push(t);
            }
        }
        texts.extend(next.iter().cloned());
        last = next;
    }
    let quads: Vec<String> = last.iter().filter(|s| !s.contains(' ')).step_by(7).cloned().collect();
    for head in quads.iter().step_by(11) {
        for tail in quads.iter().step_by(13) {
            texts.push(format!("{}{}", head, tail));
        }
    }
    for text in &texts {
        assert_eq!(decode_base64(text), decode(text), "{:?}", text);
    }
}

#[test]
fn hex_digits() {
    let digits: String = (0..16).map(hex_digit_of).collect();
    assert_eq!(digits, "0123456789abcdef");
}

#[test]
fn hex_is_lowercase_two_digits_per_byte() {
    assert_eq!(encode_hex(&[]), "");
    assert_eq!(encode_hex(&[0x00, 0x0f, 0xa0, 0xff]), "000fa0ff");
    let all: Vec<u8> = (0..=255).collect();
    assert_eq!(encode_hex(&all), lower_hex(&all));
    assert_eq!(encode_hex(&all).len(), 2 * all.len());
}

#[test]
fn utf8_preferred_reads_text() {
    assert_eq!(utf8_preferred_decode("dHJhY2UtMQ==").as_deref(), Some("trace-1"));
    assert_eq!(utf8_preferred_decode(&encode("héllo ✓".as_bytes())).as_deref(), Some("héllo ✓"));
}

#[test]
fn utf8_preferred_falls_back_to_hex() {
    assert_eq!(utf8_preferred_decode("/wA=").as_deref(), Some("ff00"));
    // A surrogate, an overlong form and a truncated sequence are not UTF-8.
    for bytes in [vec![0xed, 0xa0, 0x80], vec![0xc0, 0x80], vec![0xe2, 0x82], vec![0x80]] {
        assert_eq!(
            utf8_preferred_decode(&encode(&bytes)).as_deref(),
            Some(lower_hex(&bytes).as_str())
        );
    }
}

#[test]
fn utf8_preferred_gives_text_or_hex_for_every_byte_string() {
    let mut source = Bytes(11);
    let mut inputs: Vec<Vec<u8>> = Vec::new();
    for a in 0..=255u8 {
        inputs.push(vec![a]);
        for b in (0..=255u8).step_by(3) {
            inputs.push(vec![a, b]);
        }
    }
    for n in 0..300 {
        inputs.push(source.take(1 + n % 24));
    }
    for bytes in inputs {
        let decoded = utf8_preferred_decode(&encode(&bytes)).map(|c| c.into_owned());
        match String::from_utf8(bytes.clone()) {
            Ok(text) => assert_eq!(decoded, Some(text)),
            Err(_) => {
                let hex = decoded.unwrap();
                assert_eq!(hex, lower_hex(&bytes));
                assert_eq!(hex.len(), 2 * bytes.len());
            }
        }
    }
}

#[test]
fn hex_only_ignores_printability() {
    assert_eq!(hex_only_decode("dHJhY2UtMQ==").as_deref(), Some("74726163652d31"));
    assert_eq!(hex_only_decode("/wA=").as_deref(), Some("ff00"));
    let mut source = Bytes(3);
    for n in 0..200 {
        let bytes = source.take(1 + n % 32);
        let hex = hex_only_decode(&encode(&bytes)).unwrap();
        assert_eq!(hex, lower_hex(&bytes));
        assert_eq!(hex.len(), 2 * bytes.len());
    }
}

#[test]
fn empty_and_invalid_identifiers_are_absent() {
    assert_eq!(utf8_preferred_decode(""), None);
    assert_eq!(hex_only_decode(""), None);
    assert_eq!(utf8_preferred_decode("not base64!"), None);
    assert_eq!(hex_only_decode("not base64!"), None);
}

#[test]
fn identifier_forms() {
    let id = "dHJhY2UtMQ==";
    assert_eq!(identifier(IdForm::Verbatim, id).as_deref(), Some(id));
    assert_eq!(identifier(IdForm::Utf8Preferred, id).as_deref(), Some("trace-1"));
    assert_eq!(identifier(IdForm::Hex, id).as_deref(), Some("74726163652d31"));
    for form in [IdForm::Verbatim, IdForm::Utf8Preferred, IdForm::Hex] {
        assert_eq!(identifier(form, ""), None);
    }
    assert_eq!(identifier(IdForm::Verbatim, "?").as_deref(), Some("?"));
    assert_eq!(identifier(IdForm::Hex, "?"), None);
}
