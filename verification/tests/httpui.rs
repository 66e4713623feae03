use saelora::httpui::{clean_path, is_unsafe_path};

#[test]
fn clean_path_normalizes_slashes_and_strips_leading_and_trailing() {
    assert_eq!(clean_path("/app/"), "app");
    assert_eq!(clean_path("app///"), "app");
    assert_eq!(clean_path("app\\index.html"), "app/index.html");
    assert_eq!(clean_path("/app/index.html"), "app/index.html");
}

#[test]
fn unsafe_path_rejects_dotfiles_and_parent_segments() {
    assert!(is_unsafe_path("../etc/passwd"));
    assert!(is_unsafe_path("a/../b"));
    assert!(is_unsafe_path(".env"));
    assert!(is_unsafe_path("a/.env"));
    assert!(is_unsafe_path("a/.well-known/thing"));

    assert!(!is_unsafe_path("app.js"));
    assert!(!is_unsafe_path("assets/app.css"));
}

#[test]
fn clean_path_of_root_is_empty() {
    assert_eq!(clean_path(""), "");
    assert_eq!(clean_path("///"), "");
}

#[test]
fn path_from_parsed_parts() {
    let p = saelora::uri::UriParts { scheme: None, authority: None, host: None, path: "/a/b".to_string() };
    assert_eq!(saelora::httpui::path_from_parts(Some(p)), vec!['/', 'a', '/', 'b']);
    assert_eq!(saelora::httpui::path_from_parts(None), vec!['/']);
}
