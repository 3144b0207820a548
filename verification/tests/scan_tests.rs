use jinn_imageviewer::images::scan_folder;

fn file(name: &str) -> (String, String, String) {
    let ext = name.rsplit_once('.').map(|(_, e)| e.to_string()).unwrap_or_default();
    (format!("/tmp/folder/{}", name), name.to_string(), ext)
}

#[test]
fn test_scan_folder_empty() {
    let entries = scan_folder(Vec::new());
    assert_eq!(entries.len(), 0, "空目录应返回0个条目");
}

#[test]
fn test_scan_folder_with_images() {
    let entries = scan_folder(vec![file("a.png"), file("b.jpg"), file("c.webp")]);
    assert_eq!(entries.len(), 3, "应识别3个图片文件");
    assert!(entries.iter().any(|e| e.name == "a.png"));
    assert!(entries.iter().any(|e| e.name == "b.jpg"));
    assert!(entries.iter().any(|e| e.name == "c.webp"));
}

#[test]
fn test_scan_folder_ignores_non_images() {
    let entries = scan_folder(vec![file("valid.png"), file("invalid.txt"), file("invalid.exe")]);
    assert_eq!(entries.len(), 1, "应只识别图片文件");
    assert_eq!(entries[0].name, "valid.png");
}

#[test]
fn test_scan_folder_large_directory() {
    let files: Vec<_> = (0..100).map(|i| file(&format!("img_{:03}.png", i))).collect();
    let entries = scan_folder(files);
    assert_eq!(entries.len(), 100, "应识别100个图片");
}

#[test]
fn test_scan_folder_nonexistent() {
    // A folder that cannot be read lists no files.
    let entries = scan_folder(Vec::new());
    assert_eq!(entries.len(), 0, "不存在的路径应返回空列表");
}

#[test]
fn test_image_entry_default_rotation() {
    let entries = scan_folder(vec![file("test.png")]);
    assert_eq!(entries[0].manual_rotation, 0, "新图片旋转角度应为0");
}

#[test]
fn scanned_images_are_in_natural_order() {
    let entries = scan_folder(vec![file("img10.PNG"), file("img2.jpg"), file("notes.md"), file("img1.gif")]);
    let names: Vec<&str> = entries.iter().map(|e| e.name.as_str()).collect();
    assert_eq!(names, vec!["img1.gif", "img2.jpg", "img10.PNG"]);
    assert_eq!(entries[0].path, "/tmp/folder/img1.gif");
    assert!(!entries[0].load_failed);
}
