use eska_cli::encoding::{
    decode_percent, decode_wide, json_git_text, percent_encode_bytes, percent_encode_units, NativePath,
    PathEncoding,
    WirePath,
};
use eska_cli::rpc::INVALID_PARAMS;

#[test]
fn non_utf8_git_text_has_a_reversible_encoding() {
    assert_eq!(
        json_git_text(b"raw-%\xFF"),
        ("%72%61%77%2D%25%FF".to_owned(), "percent")
    );
    let bytes: Vec<_> = (0..=u8::MAX).collect();
    let (encoded, encoding) = json_git_text(&bytes);
    assert_eq!(encoding, "percent");
    let decoded: Vec<_> = encoded
        .split('%')
        .skip(1)
        .map(|byte| u8::from_str_radix(byte, 16).expect("encoded byte"))
        .collect();
    assert_eq!(decoded, bytes);
}

#[test]
fn valid_git_text_is_kept() {
    for value in ["", "src/Заказы 100%.bsl", "emoji-😀", "line\nnext"] {
        assert_eq!(json_git_text(value.as_bytes()), (value.to_owned(), "utf-8"));
    }
}

#[test]
fn every_byte_survives_percent_encoding() {
    let bytes: Vec<u8> = (0..=u8::MAX).rev().collect();
    let encoded = percent_encode_bytes(&bytes);
    assert_eq!(encoded.len(), 3 * bytes.len());
    assert_eq!(decode_percent(&encoded).unwrap(), bytes);
    assert_eq!(percent_encode_bytes(b"\x00\x0a\xff"), "%00%0A%FF");
}

#[test]
fn percent_decoding_requires_complete_groups() {
    for value in ["%F", "%FFplain", "FF", "%G0", "%ＦＦ", "%-1", "%+"] {
        assert_eq!(decode_percent(value).unwrap_err().code, INVALID_PARAMS);
    }
    assert_eq!(decode_percent("%ff%+A").unwrap(), vec![0xff, 0x0a]);
    assert_eq!(decode_percent("").unwrap(), Vec::<u8>::new());
}

#[test]
fn wide_decoding_keeps_unpaired_surrogates() {
    assert_eq!(
        decode_wide("%0043%003A%005C%D800%0025").unwrap(),
        vec![0x0043, 0x003A, 0x005C, 0xD800, 0x0025]
    );
    assert!(decode_wide("%0041%00").is_err());
}

#[test]
fn paths_decode_for_their_own_platform_only() {
    let text = WirePath { value: "src/Имя%20.xml".to_owned(), encoding: PathEncoding::Utf8 };
    assert!(matches!(text.native(true), Ok(NativePath::Text(t)) if t == "src/Имя%20.xml"));
    let bytes = WirePath { value: "%25%FF".to_owned(), encoding: PathEncoding::Percent };
    assert!(matches!(bytes.native(true), Ok(NativePath::Bytes(b)) if b == b"%\xff"));
    assert!(bytes.native(false).is_err());
    let plain = WirePath { value: "%FFplain".to_owned(), encoding: PathEncoding::Percent };
    assert!(plain.native(true).is_err());
    let wide = WirePath { value: "%0041".to_owned(), encoding: PathEncoding::Wide };
    assert!(wide.native(true).is_err());
    assert!(matches!(wide.native(false), Ok(NativePath::Units(u)) if u == vec![0x41]));
}

#[test]
fn windows_units_keep_unpaired_surrogates() {
    let units = [0x0041u16, 0xD800, 0x00E9, 0xFFFF];
    let encoded = eska_cli::encoding::percent_encode_units(&units);
    assert_eq!(encoded, "%0041%D800%00E9%FFFF");
    assert_eq!(eska_cli::encoding::decode_wide(&encoded).unwrap(), units.to_vec());
    assert_eq!(eska_cli::encoding::percent_encode_units(&[]), "");
}

fn wire(text: (String, &'static str)) -> WirePath {
    let encoding = match text.1 {
        "utf-8" => PathEncoding::Utf8,
        "percent" => PathEncoding::Percent,
        _ => PathEncoding::Wide,
    };
    WirePath { value: text.0, encoding }
}

#[test]
fn path_dtos_decode_reversibly() {
    let path = "src/Имя%20.xml";
    let decoded = wire(json_git_text(path.as_bytes())).native(true).unwrap();
    assert!(matches!(decoded, NativePath::Text(t) if t == path));
    for value in [WirePath { value: "%FFplain".to_owned(), encoding: PathEncoding::Percent }] {
        assert!(value.native(true).is_err());
    }
    let bytes = b"%\xff";
    let decoded = wire(json_git_text(bytes)).native(true).unwrap();
    assert!(matches!(decoded, NativePath::Bytes(b) if b == bytes));
    let wide = WirePath { value: "%0041".to_owned(), encoding: PathEncoding::Wide };
    assert!(wide.native(true).is_err());
}

#[test]
fn windows_path_preserves_unpaired_surrogates() {
    let units = [0x0043u16, 0x003A, 0x005C, 0xD800, 0x0025];
    let encoded = percent_encode_units(&units);
    assert_eq!(encoded, "%0043%003A%005C%D800%0025");
    let decoded = WirePath { value: encoded, encoding: PathEncoding::Wide }.native(false).unwrap();
    assert!(matches!(decoded, NativePath::Units(u) if u == units.to_vec()));
}
