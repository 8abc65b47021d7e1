use slatepack::{armor, armor_slate, remove_armor, remove_armor_slate, slate_of_payload, ArmorError};

#[test]
fn armor_slate_minifies_before_it_armors() {
    let slate = "{\n  \"a\": 1,\n  \"b\": \"two words\"\n}";
    assert_eq!(
        armor_slate(slate),
        "BEGIN SLATEPACK. SFUwhLNp2s5EuWv mNvDhyNU86ADpqz jFH3CDi . END SLATEPACK."
    );
    assert_eq!(armor_slate(slate), armor(b"{\"a\":1,\"b\":\"two words\"}"));
    assert_ne!(armor_slate(slate), armor(slate.as_bytes()));
}

#[test]
fn armor_slate_of_minified_text_is_armor_of_its_bytes() {
    assert_eq!(armor_slate("{}"), "BEGIN SLATEPACK. 2iFWkci7N . END SLATEPACK.");
    assert_eq!(armor_slate(" [1, 2,\t3] "), "BEGIN SLATEPACK. iEBs5G2v9YByCGk . END SLATEPACK.");
    assert_eq!(armor_slate("[1,2,3]"), armor(b"[1,2,3]"));
}

#[test]
fn armor_slate_keeps_text_that_is_not_ascii() {
    assert_eq!(
        armor_slate("{\"k\": \"h\u{e9}llo \u{2713}\"}"),
        "BEGIN SLATEPACK. yaEfuwDHxGUX4PJ W2jEJpvkhja3wfi . END SLATEPACK."
    );
}

#[test]
fn remove_armor_slate_gives_back_the_minified_slate() {
    let slate = "{\n  \"a\": 1,\n  \"b\": \"two words\"\n}";
    assert_eq!(
        remove_armor_slate(&armor_slate(slate)),
        Ok("{\"a\":1,\"b\":\"two words\"}".to_string())
    );
    assert_eq!(
        remove_armor_slate(&armor_slate("{\"k\": \"h\u{e9}llo \u{2713}\"}")),
        Ok("{\"k\":\"h\u{e9}llo \u{2713}\"}".to_string())
    );
    assert_eq!(remove_armor_slate(&armor_slate("")), Ok(String::new()));
}

#[test]
fn remove_armor_slate_reads_known_text() {
    assert_eq!(
        remove_armor_slate("BEGINSLATEPACK. 2iFWkci7N. ENDSLATEPACK."),
        Ok("{}".to_string())
    );
}

#[test]
fn remove_armor_slate_refuses_a_payload_that_is_no_text() {
    let text = armor(&[0xff, 0xfe]);
    assert_eq!(text, "BEGIN SLATEPACK. 2UWmBETo3 . END SLATEPACK.");
    assert_eq!(remove_armor(&text), Ok(vec![0xff, 0xfe]));
    assert_eq!(remove_armor_slate(&text), Err(ArmorError::TextEncodingError));
}

#[test]
fn remove_armor_slate_fails_as_remove_armor_does() {
    assert_eq!(remove_armor_slate("garbage"), Err(ArmorError::MalformedArmor));
    assert_eq!(remove_armor_slate("BEGIN. 2iFWkci7N . END SLATEPACK."), Err(ArmorError::InvalidHeader));
    assert_eq!(remove_armor_slate("BEGIN SLATEPACK. 2iFWkci7N . END."), Err(ArmorError::InvalidFooter));
    assert_eq!(
        remove_armor_slate("BEGIN SLATEPACK. 2iFWkci7N0 . END SLATEPACK."),
        Err(ArmorError::InvalidEncoding)
    );
    assert_eq!(
        remove_armor_slate("BEGIN SLATEPACK. 2iFWkci7M . END SLATEPACK."),
        Err(ArmorError::ChecksumMismatch)
    );
}

#[test]
fn slate_of_payload_reads_utf8() {
    assert_eq!(slate_of_payload(b"{}".to_vec()), Ok("{}".to_string()));
    assert_eq!(slate_of_payload(Vec::new()), Ok(String::new()));
    assert_eq!(
        slate_of_payload(vec![0x68, 0xc3, 0xa9, 0xe2, 0x9c, 0x93]),
        Ok("h\u{e9}\u{2713}".to_string())
    );
}

#[test]
fn slate_of_payload_refuses_what_is_not_utf8() {
    for payload in [vec![0xff], vec![0xc3], vec![0x68, 0xa9], vec![0xed, 0xa0, 0x80], vec![0xc0, 0x80]] {
        assert_eq!(slate_of_payload(payload), Err(ArmorError::TextEncodingError));
    }
}
