use docx_you_want::{get_filename, get_png_path, page_image_name, replace};

#[test]
fn test_get_filename() {
    assert_eq!(get_filename("a/b/2.svg"), "2.svg");
    assert_eq!(get_filename("2.svg"), "2.svg");
    assert_eq!(get_filename("/tmp/media/10.svg"), "10.svg");
    assert_eq!(get_filename("a/b/"), "");
}

#[test]
fn test_get_png_path() {
    assert_eq!(get_png_path("/tmp/media", "/pages/2.svg").unwrap(), "/tmp/media/2.png");
    assert_eq!(get_png_path("m", "1.svg").unwrap(), "m/1.png");
    // Every occurrence of "svg" in the file name is replaced.
    assert_eq!(get_png_path("m", "dir/svg.svg").unwrap(), "m/png.png");
}

#[test]
fn test_replace() {
    assert_eq!(replace("asvga.svg", "svg", "png"), "apnga.png");
    assert_eq!(replace("abc", "svg", "png"), "abc");
    assert_eq!(replace("aaa", "aa", "b"), "ba");
}

#[test]
fn test_page_image_name() {
    assert_eq!(page_image_name(1), "1.svg");
    assert_eq!(page_image_name(12), "12.svg");
}
