use packer::parse_field;
use packer::parse_template;
use packer::unpack;
use packer::PackError;
use packer::PackType;
use packer::UnpackError;
use packer::Unpackable;

#[test]
fn token_with_modifier() {
    assert_eq!(parse_field("S3"), Ok(PackType::UnsignedShort(Some(3))));
}

#[test]
fn token_without_modifier() {
    assert_eq!(parse_field("S"), Ok(PackType::UnsignedShort(None)));
}

#[test]
fn every_tag_parses_to_its_kind() {
    assert_eq!(parse_field("a"), Ok(PackType::StringNullPadded(None)));
    assert_eq!(parse_field("A"), Ok(PackType::AsciiNullPadded(None)));
    assert_eq!(parse_field("Z"), Ok(PackType::AscizNullPadded(None)));
    assert_eq!(parse_field("c"), Ok(PackType::SignedChar(None)));
    assert_eq!(parse_field("C"), Ok(PackType::UnsignedChar(None)));
    assert_eq!(parse_field("s"), Ok(PackType::SignedShort(None)));
    assert_eq!(parse_field("S"), Ok(PackType::UnsignedShort(None)));
    assert_eq!(parse_field("l"), Ok(PackType::SignedLong(None)));
    assert_eq!(parse_field("L"), Ok(PackType::UnsignedLong(None)));
    assert_eq!(parse_field("q"), Ok(PackType::SignedQuad(None)));
    assert_eq!(parse_field("Q"), Ok(PackType::UnsignedQuad(None)));
    assert_eq!(parse_field("n"), Ok(PackType::UnsignedShortBE(None)));
    assert_eq!(parse_field("N"), Ok(PackType::UnsignedLongBE(None)));
    assert_eq!(parse_field("v"), Ok(PackType::UnsignedShortLE(None)));
    assert_eq!(parse_field("V"), Ok(PackType::UnsignedLongLE(None)));
    assert_eq!(parse_field("x"), Ok(PackType::NullByte(None)));
}

#[test]
fn unknown_tag_is_rejected() {
    assert_eq!(parse_field("b"), Err(PackError::InvalidFormatCharacter));
    assert_eq!(parse_field("b12"), Err(PackError::InvalidFormatCharacter));
    assert_eq!(parse_field("W3"), Err(PackError::InvalidFormatCharacter));
}

#[test]
fn empty_token_is_rejected() {
    assert_eq!(parse_field(""), Err(PackError::EmptyFormatCharacter));
}

#[test]
fn non_digit_suffix_is_rejected() {
    // Such a token can never come out of a template, where stripping runs
    // before tokenization, but the token parser checks it on its own.
    assert_eq!(parse_field("Sx3"), Err(PackError::InvalidFormatLengthArgument));
}

#[test]
fn oversized_modifier_is_rejected() {
    assert_eq!(
        parse_field("S99999999999999999999999999"),
        Err(PackError::InvalidFormatLengthArgument)
    );
}

#[test]
fn bad_suffix_reported_before_bad_tag() {
    // The modifier is examined ahead of the tag, as in a template scan the
    // digits are read together with their letter.
    assert_eq!(
        parse_field("b99999999999999999999999999"),
        Err(PackError::InvalidFormatLengthArgument)
    );
}

#[test]
fn template_strips_before_tokenizing() {
    assert_eq!(
        parse_template("a[10]S3s"),
        Ok(vec![
            PackType::StringNullPadded(Some(10)),
            PackType::UnsignedShort(Some(3)),
            PackType::SignedShort(None),
        ])
    );
}

#[test]
fn template_order_is_reading_order() {
    assert_eq!(
        parse_template("n N v V"),
        Ok(vec![
            PackType::UnsignedShortBE(None),
            PackType::UnsignedLongBE(None),
            PackType::UnsignedShortLE(None),
            PackType::UnsignedLongLE(None),
        ])
    );
}

#[test]
fn rightmost_bad_token_reported_first() {
    // Tokens are examined from the right, so the oversized modifier at the
    // end surfaces ahead of the unknown tag before it.
    assert_eq!(
        parse_template("bS99999999999999999999999999"),
        Err(PackError::InvalidFormatLengthArgument)
    );
    assert_eq!(parse_template("bS3"), Err(PackError::InvalidFormatCharacter));
}

#[test]
fn error_messages() {
    assert_eq!(
        PackError::LeftArgumentIsMissingForTemplate.message(),
        "Template size is less then arguments count"
    );
    assert_eq!(
        PackError::RightArgumentIsMissingForTemplate.message(),
        "Arguments count is less then template size"
    );
    assert_eq!(PackError::InvalidFormatLengthArgument.message(), "Len for the argument is invalid");
    assert_eq!(PackError::EmptyFormatCharacter.message(), "Format character is empty");
    assert_eq!(PackError::InvalidFormatCharacter.message(), "Format character is not supported");
    assert_eq!(PackError::EmptyTemplate.message(), "Template is empty");
}

struct U(u8);

impl Unpackable for U {
    fn unpack(data: &[u8], _pack_type: PackType) -> Result<Self, UnpackError> {
        match data.first() {
            Some(b) => Ok(U(*b)),
            None => Ok(U(0)),
        }
    }
}

#[test]
fn unpack_is_not_implemented() {
    let r: Result<Vec<U>, UnpackError> = unpack("S", vec![1, 2]);
    assert!(matches!(r, Err(UnpackError::NotImplemented)));
}
