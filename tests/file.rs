use rgrep::{compile, FileFilter, FileGrep, GrepError, Visit};

#[test]
fn test_basi_interface() {
    let p = compile("Hel[^\\s]+").unwrap();
    let mut grep = FileGrep::new("./a.md".into(), "a.md".into());
    assert!(grep.read(b"# Hello, world\nnothing here\nsay Hello!\n".to_vec()).is_ok());
    grep.search(&p);
    assert_eq!(grep.heading(), Some("a.md".to_string()));
    let m = grep.matches();
    assert_eq!(m.len(), 2);
    assert_eq!((m[0].line_number, m[0].byte_offset), (1, 2));
    assert_eq!(m[0].matched_text, "Hello,");
    assert_eq!((m[1].line_number, m[1].byte_offset), (3, 4));
    assert_eq!(m[1].matched_text, "Hello!");
    assert_eq!(m[1].suffix, "");
}

#[test]
fn new_file_is_empty() {
    let grep = FileGrep::new("dir/b.txt".into(), "b.txt".into());
    assert_eq!(grep.file_name(), "b.txt");
    assert_eq!(grep.path(), &std::path::PathBuf::from("dir/b.txt"));
    assert!(grep.matches().is_empty());
    assert_eq!(grep.heading(), None);
}

#[test]
fn no_heading_without_matches() {
    let p = compile("zebra").unwrap();
    let mut grep = FileGrep::new("a.txt".into(), "a.txt".into());
    grep.read(b"lion\ntiger\n".to_vec()).unwrap();
    grep.search(&p);
    assert!(grep.matches().is_empty());
    assert_eq!(grep.heading(), None);
}

#[test]
fn invalid_utf8_is_a_decode_failure() {
    let p = compile("a").unwrap();
    let mut grep = FileGrep::new("bin.dat".into(), "bin.dat".into());
    let r = grep.read(vec![b'a', 0xff, b'\n']);
    assert_eq!(r, Err(GrepError::DecodeFailure { file_name: "bin.dat".to_string() }));
    grep.search(&p);
    assert!(grep.matches().is_empty());
}

#[test]
fn read_text_is_searched() {
    let p = compile("é").unwrap();
    let mut grep = FileGrep::new("u.txt".into(), "u.txt".into());
    grep.read("café\n".as_bytes().to_vec()).unwrap();
    grep.search(&p);
    assert_eq!(grep.matches().len(), 1);
    assert_eq!(grep.matches()[0].byte_offset, 3);
    assert_eq!(grep.matches()[0].prefix, "caf");
}

#[test]
fn glob_selects_files() {
    let f = FileFilter::new("*.md").unwrap();
    assert_eq!(f.visit("./a.md", false), Visit::Search);
    assert_eq!(f.visit("./a.rs", false), Visit::Skip);
    assert_eq!(f.visit("./docs", true), Visit::Descend);
}

#[test]
fn invalid_glob_is_rejected() {
    match FileFilter::new("a[") {
        Err(GrepError::InvalidGlob { glob, reason }) => {
            assert_eq!(glob, "a[");
            assert!(!reason.is_empty());
        }
        Err(e) => panic!("unexpected error {:?}", e),
        Ok(_) => panic!("an unclosed class must not compile"),
    }
}

#[test]
fn deeply_nested_glob_is_an_error() {
    let glob = format!("{}{}", "{a".repeat(300), "}".repeat(300));
    match FileFilter::new(&glob) {
        Err(GrepError::InvalidGlob { glob: g, .. }) => assert_eq!(g, glob),
        Err(e) => panic!("unexpected error {:?}", e),
        Ok(_) => panic!("a glob nested this deep must not compile"),
    }
}

#[test]
fn glob_reaches_into_directories() {
    let f = FileFilter::new("**/*.md").unwrap();
    assert_eq!(f.visit("./docs/guide/a.md", false), Visit::Search);
    assert_eq!(f.visit("./docs/guide/a.txt", false), Visit::Skip);
}
