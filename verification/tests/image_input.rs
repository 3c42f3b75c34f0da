use conductor::image_input::{extract_image_paths, image_extensions_list, is_image_path, tokenize_respecting_quotes};

#[test]
fn text_only() {
    let r = extract_image_paths("fix the bug in main.rs");
    assert_eq!(r.text, "fix the bug in main.rs");
    assert!(r.images.is_empty());
}

#[test]
fn image_only() {
    let r = extract_image_paths("/tmp/screenshot.png");
    assert_eq!(r.text, "Analyze the attached image(s) and adjust the plan accordingly.");
    assert_eq!(r.images, vec!["/tmp/screenshot.png"]);
}

#[test]
fn mixed_text_and_images() {
    let r = extract_image_paths("use this design /Users/me/mockup.jpg for the login page");
    assert_eq!(r.text, "use this design for the login page");
    assert_eq!(r.images, vec!["/Users/me/mockup.jpg"]);
}

#[test]
fn multiple_images() {
    let r = extract_image_paths("/a/b.png /c/d.webp");
    assert_eq!(r.images, vec!["/a/b.png", "/c/d.webp"]);
}

#[test]
fn quoted_paths() {
    let r = extract_image_paths("\"/tmp/my screenshot.png\"");
    assert_eq!(r.images, vec!["/tmp/my screenshot.png"]);
}

#[test]
fn non_image_absolute_path() {
    let r = extract_image_paths("read /etc/hosts");
    assert_eq!(r.text, "read /etc/hosts");
    assert!(r.images.is_empty());
}

#[test]
fn all_supported_extensions() {
    for ext in image_extensions_list() {
        let input = format!("/tmp/test.{ext}");
        let r = extract_image_paths(&input);
        assert_eq!(r.images.len(), 1, "failed for .{ext}");
    }
}

#[test]
fn escaped_spaces_and_upper_case_extensions() {
    let r = extract_image_paths("see '/tmp/my\\ shot.PNG' now");
    assert_eq!(r.images, vec!["/tmp/my shot.PNG"]);
    assert_eq!(r.text, "see now");
    let split = extract_image_paths("see /tmp/my\\ shot.png");
    assert!(split.images.is_empty());
    assert!(is_image_path("/x/y.JpEg"));
    assert!(!is_image_path("relative/no_ext"));
}

#[test]
fn tokens_keep_quotes_together() {
    assert_eq!(
        tokenize_respecting_quotes("a 'b c' \"d\te\"  f"),
        vec!["a", "'b c'", "\"d\te\"", "f"]
    );
    assert!(tokenize_respecting_quotes("   ").is_empty());
}
