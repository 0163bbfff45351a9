use packer::pack;
use packer::PackError;
use packer::PackType;
use packer::PackableArg;
use packer::ScriptedArg;

fn scripted(expected: PackType, data: Vec<u8>) -> PackableArg<ScriptedArg> {
    PackableArg { inner: ScriptedArg { expected, data } }
}

#[test]
fn test_pack() {
    let pack = pack(
        "a[10]S3s",
        vec![
            scripted(PackType::StringNullPadded(Some(10)), vec![0, 10]),
            scripted(PackType::UnsignedShort(Some(3)), vec![33, 3]),
            scripted(PackType::SignedShort(None), vec![44, 44]),
        ],
    );
    assert!(pack.is_ok());
    assert!(pack.unwrap().eq(&[0, 10, 33, 3, 44, 44u8]));
}

#[test]
fn empty_template_fails_without_args() {
    let r = pack("", Vec::<PackableArg<ScriptedArg>>::new());
    assert!(matches!(r, Err(PackError::EmptyTemplate)));
}

#[test]
fn empty_template_fails_with_args() {
    let args = vec![scripted(PackType::SignedChar(None), vec![1])];
    let r = pack("", args);
    assert!(matches!(r, Err(PackError::EmptyTemplate)));
}

#[test]
fn template_longer_than_args() {
    let args = vec![scripted(PackType::UnsignedShort(None), vec![7, 7])];
    let r = pack("SS", args);
    assert!(matches!(r, Err(PackError::RightArgumentIsMissingForTemplate)));
}

#[test]
fn args_longer_than_template() {
    let args = vec![
        scripted(PackType::UnsignedShort(None), vec![7, 7]),
        scripted(PackType::UnsignedShort(None), vec![8, 8]),
    ];
    let r = pack("S", args);
    assert!(matches!(r, Err(PackError::LeftArgumentIsMissingForTemplate)));
}

#[test]
fn second_encode_failure_short_circuits() {
    // The second value expects a descriptor the template does not give it,
    // so its refusal must come back verbatim, and nothing of the third
    // value's bytes may appear.
    let args = vec![
        scripted(PackType::UnsignedChar(None), vec![1]),
        scripted(PackType::SignedQuad(None), vec![2, 2, 2, 2, 2, 2, 2, 2]),
        scripted(PackType::UnsignedChar(None), vec![3]),
    ];
    let r = pack("CCC", args);
    assert!(matches!(r, Err(PackError::InvalidFormatCharacter)));
}

#[test]
fn whitespace_only_template_packs_nothing() {
    // A non-empty template whose every character is decoration holds no
    // tokens, so it pairs exactly with an empty argument sequence.
    let buf = pack(" -[] ", Vec::<PackableArg<ScriptedArg>>::new()).unwrap();
    assert_eq!(buf, Vec::<u8>::new());
}

#[test]
fn leading_orphan_digits_are_dropped() {
    // Digits standing before the first letter belong to no tag and vanish
    // without an error.
    let args = vec![scripted(PackType::UnsignedShort(None), vec![9, 9])];
    let buf = pack("12S", args).unwrap();
    assert_eq!(buf, vec![9, 9]);
}

#[test]
fn modifier_binds_to_preceding_letter() {
    let args = vec![
        scripted(PackType::UnsignedChar(Some(2)), vec![5, 5]),
        scripted(PackType::NullByte(Some(4)), vec![0, 0, 0, 0]),
    ];
    let buf = pack("C2x4", args).unwrap();
    assert_eq!(buf, vec![5, 5, 0, 0, 0, 0]);
}
