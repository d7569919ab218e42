use exif_rename::mode::Mode;
use exif_rename::text::str_eq;

#[test]
fn mode_names() {
    assert_eq!(Mode::Move.name(), "mv");
    assert_eq!(Mode::Copy.name(), "cp");
    assert_eq!(Mode::SymLink.name(), "symlink");
    assert_eq!(Mode::HardLink.name(), "ln");
    assert_eq!(Mode::Info.name(), "info");
}

#[test]
fn mode_default_is_move() {
    assert_eq!(Mode::default(), Mode::Move);
}

#[test]
fn mode_variants_in_order() {
    assert_eq!(
        Mode::value_variants(),
        vec![Mode::Move, Mode::Copy, Mode::SymLink, Mode::HardLink, Mode::Info]
    );
}

#[test]
fn string_equality() {
    assert!(str_eq("a", "a"));
    assert!(!str_eq("a", "b"));
    assert!(!str_eq("a", "ab"));
    assert!(str_eq("", ""));
}
