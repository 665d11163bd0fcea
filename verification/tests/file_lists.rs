use std::path::{Path, PathBuf};
use viewskater::files::{
    entry_names, is_hidden_name, is_listed_entry, is_listed_image, is_supported_extension, is_supported_extension_text,
    is_supported_image, listed_order, natural_order, resolve_parts, resolve_path, start_index, str_eq, usable_parent,
    EntryNames,
};

fn strings(names: &[&str]) -> Vec<String> {
    names.iter().map(|s| s.to_string()).collect()
}

#[test]
fn supported_extensions() {
    for ext in ["jpg", "jpeg", "png", "bmp", "webp", "gif", "tiff", "tif", "qoi", "tga"] {
        assert!(is_supported_extension(ext), "{}", ext);
    }
    for ext in ["txt", "JPG", "", "pn", "pngx", "svg", "heic"] {
        assert!(!is_supported_extension(ext), "{}", ext);
    }
}

#[test]
fn supported_images_ignore_case() {
    assert!(is_supported_image(Path::new("photo.jpg")));
    assert!(is_supported_image(Path::new("photo.JPG")));
    assert!(is_supported_image(Path::new("/a/b/scan.TiF")));
    assert!(is_supported_image(Path::new("anim.GIF")));
    assert!(is_supported_image(Path::new(".hidden.png")));
    assert!(!is_supported_image(Path::new("notes.txt")));
    assert!(!is_supported_image(Path::new("README")));
    assert!(!is_supported_image(Path::new("archive.png.zip")));
    assert!(!is_supported_image(Path::new("dir/")));
}

#[test]
fn extension_text_lowercases() {
    assert!(is_supported_extension_text(&Some("PNG".to_string())));
    assert!(is_supported_extension_text(&Some("Jpeg".to_string())));
    assert!(!is_supported_extension_text(&Some("txt".to_string())));
    assert!(!is_supported_extension_text(&None));
}

#[test]
fn hidden_files_are_not_listed() {
    assert!(is_hidden_name(".png"));
    assert!(is_hidden_name(".x.jpg"));
    assert!(!is_hidden_name("x.jpg"));
    assert!(!is_hidden_name(""));
    assert!(is_listed_image(Path::new("/pics/a.png")));
    assert!(!is_listed_image(Path::new("/pics/.a.png")));
    assert!(!is_listed_image(Path::new("/pics/a.doc")));
    assert!(is_listed_entry(&Some("a.webp".to_string()), &Some("webp".to_string())));
    assert!(!is_listed_entry(&Some(".a.webp".to_string()), &Some("webp".to_string())));
    assert!(!is_listed_entry(&None, &Some("webp".to_string())));
    assert!(!is_listed_entry(&Some("a".to_string()), &None));
}

#[test]
fn string_equality() {
    assert!(str_eq("abc", "abc"));
    assert!(!str_eq("abc", "abd"));
    assert!(!str_eq("abc", "ab"));
    assert!(str_eq("", ""));
}

#[test]
fn natural_order_sorts_numbers_by_value() {
    let names = strings(&["img10.png", "img2.png", "img1.png"]);
    assert_eq!(natural_order(&names), vec![2, 1, 0]);
    let names = strings(&["b.png", "a10.png", "a9.png", "a09.png"]);
    let order = natural_order(&names);
    let sorted: Vec<&str> = order.iter().map(|&i| names[i].as_str()).collect();
    let mut expected = names.clone();
    expected.sort_by(|a, b| natord::compare(a, b));
    assert_eq!(sorted, expected.iter().map(|s| s.as_str()).collect::<Vec<_>>());
}

#[test]
fn natural_order_is_stable_permutation() {
    let names = strings(&["x", "x", "a", "x"]);
    assert_eq!(natural_order(&names), vec![2, 0, 1, 3]);
    assert_eq!(natural_order(&Vec::new()), Vec::<usize>::new());
    let names = strings(&["frame_100.jpg", "frame_20.jpg", "Frame_3.jpg", "frame_3.jpg", "frame_001.jpg"]);
    let order = natural_order(&names);
    let mut seen = order.clone();
    seen.sort();
    assert_eq!(seen, vec![0, 1, 2, 3, 4]);
    let mut expected: Vec<usize> = (0..names.len()).collect();
    expected.sort_by(|&a, &b| natord::compare(&names[a], &names[b]));
    assert_eq!(order, expected);
}

#[test]
fn listing_filters_and_sorts() {
    let entry = |n: &str, e: Option<&str>| EntryNames {
        name: Some(n.to_string()),
        ext: e.map(|x| x.to_string()),
        sort_name: n.to_string(),
    };
    let entries = vec![
        entry("img10.png", Some("png")),
        entry("notes.txt", Some("txt")),
        entry(".img0.png", Some("png")),
        entry("img2.JPG", Some("JPG")),
        entry("Makefile", None),
        entry("img1.webp", Some("webp")),
    ];
    assert_eq!(listed_order(&entries), vec![5, 3, 0]);
    assert_eq!(listed_order(&Vec::new()), Vec::<usize>::new());
}

#[test]
fn entry_names_from_paths() {
    let e = entry_names(Path::new("/pics/Shot 7.PNG"));
    assert_eq!(e.name, Some("Shot 7.PNG".to_string()));
    assert_eq!(e.ext, Some("PNG".to_string()));
    assert_eq!(e.sort_name, "Shot 7.PNG");
    let root = entry_names(Path::new("/"));
    assert_eq!(root.name, None);
    assert_eq!(root.ext, None);
    assert_eq!(root.sort_name, "");
}

#[test]
fn start_index_finds_first_match() {
    let names = strings(&["a.png", "b.png", "c.png", "b.png"]);
    assert_eq!(start_index(&names, &Some("b.png".to_string())), 1);
    assert_eq!(start_index(&names, &Some("c.png".to_string())), 2);
    assert_eq!(start_index(&names, &Some("z.png".to_string())), 0);
    assert_eq!(start_index(&names, &None), 0);
    assert_eq!(start_index(&Vec::new(), &Some("a".to_string())), 0);
}

#[test]
fn resolve_parts_of_file_and_directory() {
    let (dir, name) = resolve_parts(
        true,
        PathBuf::from("/pics/a.png"),
        Some(PathBuf::from("/pics")),
        Some("a.png".to_string()),
    );
    assert_eq!(dir, PathBuf::from("/pics"));
    assert_eq!(name, Some("a.png".to_string()));
    let (dir, name) = resolve_parts(true, PathBuf::from("a.png"), None, Some("a.png".to_string()));
    assert_eq!(dir, PathBuf::from("a.png"));
    assert_eq!(name, Some("a.png".to_string()));
    let (dir, name) = resolve_parts(false, PathBuf::from("/pics"), Some(PathBuf::from("/")), Some("pics".to_string()));
    assert_eq!(dir, PathBuf::from("/pics"));
    assert_eq!(name, None);
}

#[test]
fn resolve_path_of_directory_or_missing_path() {
    assert_eq!(resolve_path(Path::new("/")), (PathBuf::from("/"), None));
    let missing = Path::new("/no/such/dir/for/viewskater/x.png");
    assert_eq!(resolve_path(missing), (missing.to_path_buf(), None));
}

#[test]
fn bare_file_name_resolves_to_current_directory() {
    assert_eq!(usable_parent(Some(PathBuf::from(""))), Some(PathBuf::from(".")));
    assert_eq!(usable_parent(Some(PathBuf::from("/pics"))), Some(PathBuf::from("/pics")));
    assert_eq!(usable_parent(None), None);
    assert_eq!(Path::new("a.png").parent(), Some(Path::new("")));
}
