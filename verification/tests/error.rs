use slatepack::ArmorError;

#[test]
fn message_of_each_failure() {
    assert_eq!(ArmorError::InvalidHeader.message(), "Bad armor header");
    assert_eq!(ArmorError::InvalidFooter.message(), "Bad armor footer");
    assert_eq!(
        ArmorError::ChecksumMismatch.message(),
        "Bad slate error code- some data was corrupted"
    );
    assert_eq!(ArmorError::MalformedArmor.message(), "Bad armor framing- a delimiter is missing");
    assert_eq!(ArmorError::InvalidEncoding.message(), "Bad slate encoding- not a Base58 payload");
    assert_eq!(ArmorError::TextEncodingError.message(), "Bad slate text- the payload is not UTF-8");
}

#[test]
fn failures_are_told_apart() {
    let all = [
        ArmorError::InvalidHeader,
        ArmorError::InvalidFooter,
        ArmorError::MalformedArmor,
        ArmorError::InvalidEncoding,
        ArmorError::ChecksumMismatch,
        ArmorError::TextEncodingError,
    ];
    for (i, a) in all.iter().enumerate() {
        for (j, b) in all.iter().enumerate() {
            assert_eq!(a == b, i == j);
            assert_eq!(a.message() == b.message(), i == j);
        }
    }
}
