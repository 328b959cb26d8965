use brush_codegen::error::{ErrorKind, GenError};

const KINDS: [ErrorKind; 6] = [
    ErrorKind::SignatureMismatch,
    ErrorKind::UnknownModule,
    ErrorKind::UnsupportedShape,
    ErrorKind::UnresolvedModifier,
    ErrorKind::ReturnTypeMismatch,
    ErrorKind::DuplicateFragment,
];

#[test]
fn error_codes_are_stable() {
    let codes: Vec<u32> = KINDS.iter().map(|k| k.code()).collect();
    assert_eq!(codes, vec![1, 2, 3, 4, 5, 6]);
}

#[test]
fn error_codes_round_trip() {
    for kind in KINDS {
        assert_eq!(ErrorKind::from_code(kind.code()), Some(kind));
    }
    assert_eq!(ErrorKind::from_code(0), None);
    assert_eq!(ErrorKind::from_code(7), None);
    assert_eq!(ErrorKind::from_code(u32::MAX), None);
}

#[test]
fn error_carries_kind_and_name() {
    let e = GenError::new(ErrorKind::UnknownModule, "Counter");
    assert_eq!(e.kind, ErrorKind::UnknownModule);
    assert_eq!(e.name, "Counter");
    assert_eq!(e.code(), 2);
}
