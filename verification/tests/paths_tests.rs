use mapmap_ui::paths::path_file_name;

#[test]
fn file_names_of_paths() {
    assert_eq!(path_file_name("C:\\media\\clip.mp4"), "clip.mp4");
    assert_eq!(path_file_name("/home/vj/loops/a b.mov"), "a b.mov");
    assert_eq!(path_file_name("mixed/dir\\file.png"), "file.png");
    assert_eq!(path_file_name("plain.jpg"), "plain.jpg");
    assert_eq!(path_file_name("dir/"), "");
    assert_eq!(path_file_name(""), "");
}
