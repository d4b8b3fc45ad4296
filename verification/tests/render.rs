use simple_icon::decode;

#[test]
fn renders_the_face_example() {
    let icon = decode("Face;;1;;2x2;;1001").unwrap();
    assert_eq!(icon.render(), "Face (2x2)\nVersion: 1\n\nx  \n x \n");
}

#[test]
fn renders_only_the_character_one_as_a_mark() {
    let icon = decode("Marks;;1;;6x1;;1x0 l1").unwrap();
    assert_eq!(icon.render(), "Marks (6x1)\nVersion: 1\n\nx    x \n");
}

#[test]
fn renders_an_icon_without_rows_as_its_heading() {
    let icon = decode("None;;65535;;0x0;;").unwrap();
    assert_eq!(icon.render(), "None (0x0)\nVersion: 65535\n\n");
    let icon = decode("None;;0;;7x0;;").unwrap();
    assert_eq!(icon.render(), "None (7x0)\nVersion: 0\n\n");
}

#[test]
fn renders_rows_without_cells_as_lines_of_one_blank() {
    let icon = decode("Thin;;1;;0x3;;").unwrap();
    assert_eq!(icon.render(), "Thin (0x3)\nVersion: 1\n\n \n \n \n");
}

#[test]
fn renders_a_banded_icon_by_its_grid() {
    let icon = decode("Wide;;2;;10x2;;11111111000000001100").unwrap();
    assert_eq!(icon.render(), "Wide (10x2)\nVersion: 2\n\nxxxxxxxxxx \n           \n");
}

#[test]
fn renders_dimensions_of_several_digits() {
    let payload = "1".repeat(120);
    let icon = decode(&format!("Big;;10;;12x10;;{}", payload)).unwrap();
    let mut expected = String::from("Big (12x10)\nVersion: 10\n\n");
    for _ in 0..10 {
        expected.push_str("xxxxxxxxxxxx \n");
    }
    assert_eq!(icon.render(), expected);
}

#[test]
fn renders_the_name_as_written() {
    let icon = decode(" \u{2603} ;;1;;1x1;;1").unwrap();
    assert_eq!(icon.render(), " \u{2603}  (1x1)\nVersion: 1\n\nx \n");
}
