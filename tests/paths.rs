use image_batch::order::path_less_exec;
use image_batch::paths::{clean_task_path, is_marked_processed, is_supported, resolve_output_path, sibling_path};

#[test]
fn quotes_are_removed() {
    assert_eq!(clean_task_path("\"/home/u/a.png\""), "/home/u/a.png");
    assert_eq!(clean_task_path("plain"), "plain");
    assert_eq!(clean_task_path(""), "");
}

#[test]
fn marker_is_found_anywhere() {
    assert!(is_marked_processed("/x/a__optimized.png"));
    assert!(is_marked_processed("__optimized"));
    assert!(!is_marked_processed("/x/a_optimized.png"));
    assert!(!is_marked_processed(""));
}

#[test]
fn supported_extensions_ignore_case() {
    assert!(is_supported("a.png"));
    assert!(is_supported("dir/B.PNG"));
    assert!(is_supported("c.Jpg"));
    assert!(is_supported("d.jpeg"));
    assert!(!is_supported("e.gif"));
    assert!(!is_supported("png"));
    assert!(!is_supported(".png"));
    assert!(!is_supported("f.png.txt"));
}

#[test]
fn destination_beside_source() {
    let d = resolve_output_path("/p/photo.JPG", "/p/photo.JPG", false, &None, false);
    assert_eq!(d, "/p/photo__optimized.JPG");
    let d = resolve_output_path("a.png", "a.png", false, &None, false);
    assert_eq!(d, "a__optimized.png");
}

#[test]
fn destination_in_place() {
    let d = resolve_output_path("/p/photo.png", "/p", true, &None, true);
    assert_eq!(d, "/p/photo.png");
}

#[test]
fn destination_under_output_dir_for_directory_root() {
    let out = Some("/out".to_string());
    let d = resolve_output_path("/in/pics/sub/a.png", "/in/pics", true, &out, false);
    assert_eq!(d, "/out/pics/sub/a.png");
    let d = resolve_output_path("/in/pics/a.png", "/in/pics/", true, &out, true);
    assert_eq!(d, "/out/pics/a.png");
}

#[test]
fn destination_under_output_dir_for_file_root() {
    let out = Some("/out/".to_string());
    let d = resolve_output_path("/in/pics/a.png", "/in/pics/a.png", false, &out, false);
    assert_eq!(d, "/out/a.png");
}

#[test]
fn sibling_files_change_the_extension() {
    assert_eq!(sibling_path("/o/a.png", "webp"), "/o/a.webp");
    assert_eq!(sibling_path("/o/a.b.jpg", "avif"), "/o/a.b.avif");
    assert_eq!(sibling_path("/o/noext", "webp"), "/o/noext.webp");
}

#[test]
fn paths_order_by_component() {
    assert!(path_less_exec("a/b", "a-c"));
    assert!(!path_less_exec("a-c", "a/b"));
    assert!(path_less_exec("a", "a/b"));
    assert!(!path_less_exec("a", "a"));
    assert!(path_less_exec("/x/a.png", "/x/b.jpg"));
}
