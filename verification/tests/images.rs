use wallset::is_image;

#[test]
fn they_are_images() {
    assert!(is_image("foo.jpg"));
    assert!(is_image("foo.png"));
    assert!(is_image("foo.jpeg"));
    assert!(is_image("foo.JPEG"));
    assert!(!is_image("foo.txt"));
}

#[test]
fn no_extension_is_not_image() {
    assert!(!is_image("foo"));
    assert!(!is_image(""));
    assert!(!is_image("foo."));
}

#[test]
fn hidden_file_has_no_extension() {
    assert!(!is_image(".jpg"));
    assert!(!is_image("dir/.png"));
    assert!(!is_image(".jpeg"));
}

#[test]
fn any_letter_case_matches() {
    assert!(is_image("FOO.JPG"));
    assert!(is_image("a.PnG"));
    assert!(is_image("x.JpEg"));
    assert!(is_image("shot.Png"));
}

#[test]
fn directories_do_not_confuse_the_extension() {
    assert!(is_image("some/dir/pic.png"));
    assert!(is_image("/abs/path/p.q.jpg"));
    assert!(!is_image("some.png/file"));
    assert!(!is_image("some.dir/pic"));
}

#[test]
fn other_extensions_are_not_images() {
    assert!(!is_image("foo.gif"));
    assert!(!is_image("foo.jpgg"));
    assert!(!is_image("foo.jp"));
    assert!(!is_image("foo.pngx"));
}
