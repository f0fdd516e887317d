use ripple::path::FilePath;
use std::path::{Path, PathBuf};

const SAMPLES: [&str; 42] = [
    "", "/", "//", ".", "..", "./", "../", "/.", "/..", "a", "a/", "a//", "/a", "//a", "a/b",
    "a//b", "a/b/", "a/./b", "a/../b", "./a", ".//a", "././a", "/./a", "a/.", "a/./", "a/..",
    "a.b", "a.b.c", ".a", ".a.b", "a.", "..a", "...", "a..", "/a.b/c", "/a/b.c/.", "/x.y/..",
    "./a/b", "../a", "a/.../b", "./..", "/tmp/\u{e9}t\u{e9}.png",
];

fn bytes(path: &Path) -> Vec<u8> {
    path.as_os_str().as_encoded_bytes().to_vec()
}

#[test]
fn file_names_and_extensions_match_the_standard_library() {
    for sample in SAMPLES {
        let path = FilePath::from_text(sample);
        let expected = Path::new(sample);
        assert_eq!(
            path.file_name(),
            expected.file_name().map(|name| name.as_encoded_bytes().to_vec()),
            "{}",
            sample
        );
        assert_eq!(
            path.extension(),
            expected.extension().map(|ending| ending.as_encoded_bytes().to_vec()),
            "{}",
            sample
        );
    }
}

#[test]
fn parents_match_the_standard_library() {
    for sample in SAMPLES {
        assert_eq!(
            FilePath::from_text(sample).parent().map(|folder| folder.bytes),
            Path::new(sample).parent().map(bytes),
            "{}",
            sample
        );
    }
}

#[test]
fn joining_matches_the_standard_library() {
    for base in SAMPLES {
        for tail in SAMPLES {
            assert_eq!(
                FilePath::from_text(base).join(&FilePath::from_text(tail)).bytes,
                bytes(&Path::new(base).join(tail)),
                "{} {}",
                base,
                tail
            );
        }
    }
}

#[test]
fn equality_matches_the_standard_library() {
    for left in SAMPLES {
        for right in SAMPLES {
            assert_eq!(
                FilePath::from_text(left).is_same(&FilePath::from_text(right)),
                Path::new(left) == Path::new(right),
                "{} {}",
                left,
                right
            );
        }
    }
}

#[test]
fn setting_extensions_matches_the_standard_library() {
    for sample in SAMPLES {
        for ending in ["mp4", "", "tar.gz"] {
            let mut path = FilePath::from_text(sample);
            path.set_extension(ending);
            let mut expected = PathBuf::from(sample);
            expected.set_extension(ending);
            assert_eq!(path.bytes, bytes(&expected), "{}", sample);
        }
    }
}

#[test]
fn parts_of_a_path_are_exact() {
    let path = FilePath::from_text("/Users/example/Desktop/ripple.mp4");
    assert_eq!(path.file_name(), Some(b"ripple.mp4".to_vec()));
    assert_eq!(path.extension(), Some(b"mp4".to_vec()));
    assert_eq!(path.parent().unwrap().bytes, b"/Users/example/Desktop".to_vec());
    assert!(path.is_same(&FilePath::from_text("/Users//example/./Desktop/ripple.mp4/")));
    assert!(!path.is_same(&FilePath::from_text("/Users/example/Desktop/ripple.MP4")));
}

#[test]
fn a_set_extension_replaces_what_follows_the_stem() {
    let mut path = FilePath::from_text("/a/b.tar.gz/");
    path.set_extension("mp4");
    assert_eq!(path.bytes, b"/a/b.tar.mp4".to_vec());
    assert_eq!(path.extension(), Some(b"mp4".to_vec()));
    let copy = path.clone();
    path.set_extension("png");
    assert_eq!(copy.bytes, b"/a/b.tar.mp4".to_vec());
    assert_eq!(path.file_name(), Some(b"b.tar.png".to_vec()));
}

#[test]
fn a_joined_file_name_is_the_file_name() {
    let name = FilePath::from_text("ripple.mp4");
    for folder in ["/", "/tmp", "/tmp/", "", "a"] {
        let path = FilePath::from_text(folder).join(&name);
        assert_eq!(path.file_name(), Some(b"ripple.mp4".to_vec()));
    }
}
