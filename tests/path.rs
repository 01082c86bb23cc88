use remotefs_ssh::{absolutize, resolve};

#[test]
fn absolutize_path() {
    assert_eq!(absolutize("/home/omar", "readme.txt"), "/home/omar/readme.txt");
    assert_eq!(absolutize("/home/omar", "/tmp/readme.txt"), "/tmp/readme.txt");
}

#[test]
fn absolutize_separator_cases() {
    assert_eq!(absolutize("/home/omar/", "readme.txt"), "/home/omar/readme.txt");
    assert_eq!(absolutize("", "readme.txt"), "readme.txt");
    assert_eq!(absolutize("/", "tmp/a"), "/tmp/a");
    assert_eq!(resolve("/a/b"), "/a/b");
}
