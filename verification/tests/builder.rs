use simple_icon::{DecodeError, SimpleIconBuilder};

#[test]
fn a_new_builder_holds_the_placeholder() {
    let builder = SimpleIconBuilder::new();
    assert_eq!(builder.source(), "");
    assert_eq!(builder.icon().name(), "EMPTY");
    assert_eq!(builder.icon().file_version(), 0);
    assert_eq!(builder.icon().width(), 0);
    assert_eq!(builder.icon().height(), 0);
    assert!(builder.icon().data().is_empty());
    assert_eq!(builder.icon().render(), "EMPTY (0x0)\nVersion: 0\n\n");
}

#[test]
fn the_file_name_is_kept() {
    let mut builder = SimpleIconBuilder::new();
    builder.filename("schwert2.txt".to_string());
    assert_eq!(builder.source(), "schwert2.txt");
    assert_eq!(builder.icon().name(), "EMPTY");
    builder.filename("other.txt".to_string());
    assert_eq!(builder.source(), "other.txt");
}

#[test]
fn a_decoded_text_replaces_the_icon() {
    let mut builder = SimpleIconBuilder::new();
    builder.filename("face.txt".to_string());
    assert_eq!(builder.parse_header("Face;;1;;2x2;;1001"), Ok(()));
    assert_eq!(builder.source(), "face.txt");
    assert_eq!(builder.icon().name(), "Face");
    assert_eq!(builder.icon().file_version(), 1);
    assert_eq!(builder.icon().width(), 2);
    assert_eq!(builder.icon().height(), 2);
    assert_eq!(builder.icon().data(), &vec![vec!['1', '0'], vec!['0', '1']]);
}

#[test]
fn a_builder_holds_what_decode_returns() {
    let text = "Wide;;2;;10x2;;ABCDEFGHIJKLMNOPQRST".to_string();
    let mut builder = SimpleIconBuilder::new();
    assert_eq!(builder.parse_header(&text), Ok(()));
    assert_eq!(builder.icon(), &simple_icon::decode(&text).unwrap());
}

#[test]
fn a_refused_text_leaves_the_builder_as_it_was() {
    let mut builder = SimpleIconBuilder::new();
    builder.filename("face.txt".to_string());
    assert_eq!(
        builder.parse_header("Face;;1;;2x2;;100"),
        Err(DecodeError::TruncatedData { position: 3 })
    );
    assert_eq!(builder.source(), "face.txt");
    assert_eq!(builder.icon().name(), "EMPTY");
    assert!(builder.icon().data().is_empty());

    assert_eq!(builder.parse_header("Face;;1;;2x2;;1001"), Ok(()));
    assert_eq!(
        builder.parse_header("Other;;one;;2x2;;1001"),
        Err(DecodeError::InvalidVersion { text: "one".to_string() })
    );
    assert_eq!(
        builder.parse_header("Other;;1;;2by2;;1001"),
        Err(DecodeError::InvalidDimensions { text: "2by2".to_string() })
    );
    assert_eq!(builder.parse_header("Other"), Err(DecodeError::MalformedHeader { segments: 1 }));
    assert_eq!(builder.icon().name(), "Face");
    assert_eq!(builder.icon().data(), &vec![vec!['1', '0'], vec!['0', '1']]);
}
