use neutauri_data::{Compress, Config, Data, DataError, Dir, File, SourceEntry};

fn file(name: &str, content: &[u8]) -> SourceEntry {
    SourceEntry::File { name: Some(name.to_string()), content: content.to_vec() }
}

fn dir(name: &str, entries: Vec<SourceEntry>) -> SourceEntry {
    SourceEntry::Directory { name: Some(name.to_string()), entries }
}

fn package(entries: Vec<SourceEntry>, spa: bool) -> Data {
    let mut config = Config::default();
    config.spa = spa;
    Data::from_dir(&entries, config.window_attr(None), config.webview_attr(None, None)).unwrap()
}

const INDEX: &[u8] = b"<h1>hi!</h1>";
const LOGO: &[u8] = b"\x89PNG\r\n\x1a\n\0\0\0\rIHDR";

fn site() -> Vec<SourceEntry> {
    vec![file("index.html", INDEX), dir("img", vec![file("logo.png", LOGO)])]
}

#[test]
fn packaged_site_serves_its_files() {
    assert_eq!(INDEX.len(), 12);
    let data = package(site(), false);
    let mut index = data.open("/index.html").unwrap();
    assert_eq!(index.mimetype(), "text/html");
    assert_eq!(index.decompressed_data(), Ok(INDEX.to_vec()));
    let mut logo = data.open("/img/logo.png").unwrap();
    assert_eq!(logo.mimetype(), "image/png");
    assert_eq!(logo.decompressed_data(), Ok(LOGO.to_vec()));
    assert_eq!(data.open("/missing.js").unwrap_err(), DataError::NotFound);
}

#[test]
fn single_page_application_falls_back_to_the_index() {
    let data = package(site(), true);
    assert_eq!(data.open("/missing.js").unwrap_err(), DataError::NotFound);
    let mut served = data.serve("/missing.js").unwrap();
    assert_eq!(served.mimetype(), "text/html");
    assert_eq!(served.decompressed_data(), Ok(INDEX.to_vec()));
    let mut direct = data.serve("/img/logo.png").unwrap();
    assert_eq!(direct.decompressed_data(), Ok(LOGO.to_vec()));
}

#[test]
fn request_is_answered_with_media_type_and_bytes() {
    let data = package(site(), true);
    let logo = data.respond("/img/logo.png").unwrap();
    assert_eq!(logo.mime, "image/png");
    assert_eq!(logo.body, LOGO);
    let fallback = data.respond("/no/such/page").unwrap();
    assert_eq!(fallback.mime, "text/html");
    assert_eq!(fallback.body, INDEX);
    let strict = package(site(), false);
    assert_eq!(strict.respond("/no/such/page").unwrap_err(), DataError::NotFound);
    let mut root = Dir::new();
    let broken = File::new("text/plain".to_string(), b"no stream".to_vec(), Compress::Brotli);
    root.push_file("broken".to_string(), broken);
    let config = Config::default();
    let data = Data::new(config.window_attr(None), config.webview_attr(None, None), root);
    assert_eq!(data.respond("/broken").unwrap_err(), DataError::DecompressionFailed);
}

#[test]
fn without_single_page_mode_nothing_falls_back() {
    let data = package(site(), false);
    assert_eq!(data.serve("/missing.js").unwrap_err(), DataError::NotFound);
    assert_eq!(data.serve("/index.html").unwrap().mimetype(), "text/html");
}

#[test]
fn fallback_is_not_tried_for_the_index_itself() {
    let data = package(vec![file("about.html", b"about")], true);
    assert_eq!(data.serve("/index.html").unwrap_err(), DataError::NotFound);
    assert_eq!(data.serve("/other").unwrap_err(), DataError::NotFound);
}

#[test]
fn every_spelling_of_a_path_opens_the_same_file() {
    let data = package(vec![dir("a", vec![file("c", b"the file"), dir("b", vec![])])], false);
    for path in ["/a/./b/../c", "a/c", "/a/c", "a//c/", "./a/c", "x/../a/c", "/../a/c"] {
        let mut found = data.open(path).unwrap();
        assert_eq!(found.decompressed_data(), Ok(b"the file".to_vec()));
    }
}

#[test]
fn no_path_leaves_the_tree() {
    let data = package(vec![dir("etc", vec![file("passwd", b"inside the tree")])], false);
    let mut found = data.open("../../etc/passwd").unwrap();
    assert_eq!(found.decompressed_data(), Ok(b"inside the tree".to_vec()));
    let empty = package(vec![], false);
    assert_eq!(empty.open("../../etc/passwd").unwrap_err(), DataError::NotFound);
    assert_eq!(empty.open("/..").unwrap_err(), DataError::NotFound);
}

#[test]
fn root_and_directories_are_not_files() {
    let data = package(site(), false);
    for path in ["", "/", ".", "/img", "/img/", "img/..", "/img/logo.png/.."] {
        assert_eq!(data.open(path).unwrap_err(), DataError::NotFound);
    }
}

#[test]
fn names_match_exactly() {
    let data = package(site(), false);
    let near_misses =
        ["/INDEX.HTML", "/index", "/index.htm", "/index.html ", "/img/Logo.png", "/logo.png"];
    for path in near_misses {
        assert_eq!(data.open(path).unwrap_err(), DataError::NotFound);
    }
}

#[test]
fn a_file_answers_whatever_names_remain() {
    let data = package(site(), false);
    let mut found = data.open("/index.html/and/more").unwrap();
    assert_eq!(found.decompressed_data(), Ok(INDEX.to_vec()));
}

#[test]
fn a_file_takes_priority_over_a_directory_of_the_same_name() {
    let entries = vec![dir("x", vec![file("y", b"deep")]), file("x", b"flat")];
    let data = package(entries, false);
    assert_eq!(data.open("/x").unwrap().decompressed_data(), Ok(b"flat".to_vec()));
    assert_eq!(data.open("/x/y").unwrap().decompressed_data(), Ok(b"flat".to_vec()));
}

#[test]
fn the_first_of_two_entries_with_one_name_is_found() {
    let data = package(vec![file("a", b"first"), file("a", b"second")], false);
    assert_eq!(data.open("a").unwrap().decompressed_data(), Ok(b"first".to_vec()));
    let data = package(
        vec![dir("d", vec![file("f", b"first")]), dir("d", vec![file("f", b"second")])],
        false,
    );
    assert_eq!(data.open("d/f").unwrap().decompressed_data(), Ok(b"first".to_vec()));
    let data = package(vec![dir("d", vec![]), dir("d", vec![file("f", b"second")])], false);
    assert_eq!(data.open("d/f").unwrap_err(), DataError::NotFound);
}

#[test]
fn tree_mirrors_the_source_in_order() {
    let entries = vec![
        file("b.txt", b"1"),
        dir("z", vec![file("inner", b"2")]),
        file("a.txt", b"3"),
        dir("y", vec![]),
    ];
    let data = package(entries, false);
    let root = data.root();
    assert_eq!(root.file_count(), 2);
    assert_eq!(root.file_name(0), "b.txt");
    assert_eq!(root.file_name(1), "a.txt");
    assert_eq!(root.dir_count(), 2);
    assert_eq!(root.dir_name(0), "z");
    assert_eq!(root.dir_name(1), "y");
    assert_eq!(root.dir(0).file_count(), 1);
    assert_eq!(root.dir(0).file_name(0), "inner");
    assert_eq!(root.dir(1).file_count(), 0);
    assert_eq!(root.dir(1).dir_count(), 0);
    assert_eq!(root.file(0).compress(), Compress::Brotli);
    assert_eq!(root.file(1).clone().decompressed_data(), Ok(b"3".to_vec()));
}

#[test]
fn entries_that_are_neither_file_nor_directory_are_skipped() {
    let entries = vec![SourceEntry::Other, file("kept", b"x"), SourceEntry::Other];
    let data = package(entries, false);
    assert_eq!(data.root().file_count(), 1);
    assert_eq!(data.root().dir_count(), 0);
    assert_eq!(data.root().file_name(0), "kept");
}

#[test]
fn entries_without_a_name_are_skipped_and_the_rest_is_kept() {
    let entries = vec![
        file("before", b"1"),
        SourceEntry::File { name: None, content: b"unnamed".to_vec() },
        SourceEntry::Directory { name: None, entries: vec![file("lost", b"2")] },
        file("after", b"3"),
        dir("sub", vec![SourceEntry::File { name: None, content: vec![] }, file("in", b"4")]),
    ];
    let data = package(entries, false);
    assert_eq!(data.root().file_count(), 2);
    assert_eq!(data.root().dir_count(), 1);
    assert_eq!(data.open("before").unwrap().decompressed_data(), Ok(b"1".to_vec()));
    assert_eq!(data.open("after").unwrap().decompressed_data(), Ok(b"3".to_vec()));
    assert_eq!(data.open("sub/in").unwrap().decompressed_data(), Ok(b"4".to_vec()));
    assert_eq!(data.open("lost").unwrap_err(), DataError::NotFound);
    assert_eq!(data.root().dir(0).file_count(), 1);
}

#[test]
fn entries_with_an_empty_name_are_skipped() {
    let entries = vec![
        file("", b"nameless"),
        dir("", vec![file("inside", b"x")]),
        file("named", b"y"),
    ];
    let data = package(entries, false);
    assert_eq!(data.root().file_count(), 1);
    assert_eq!(data.root().dir_count(), 0);
    assert_eq!(data.root().file_name(0), "named");
    assert_eq!(data.open("").unwrap_err(), DataError::NotFound);
    assert_eq!(data.open("/inside").unwrap_err(), DataError::NotFound);
}

#[test]
fn every_file_of_a_deep_source_comes_back() {
    let big: Vec<u8> = (0..100_000u32).map(|i| (i % 7 * 31) as u8).collect();
    let entries = vec![
        file("index.html", INDEX),
        file("empty", b""),
        dir(
            "assets",
            vec![
                file("big.bin", &big),
                dir("css", vec![file("site.css", b"body{}")]),
                dir("js", vec![dir("vendor", vec![file("lib.min.js", b"void 0")])]),
            ],
        ),
    ];
    let data = package(entries, false);
    let expect: [(&str, &[u8], &str); 5] = [
        ("/index.html", INDEX, "text/html"),
        ("/empty", b"", "application/octet-stream"),
        ("/assets/big.bin", &big, "application/octet-stream"),
        ("/assets/css/site.css", b"body{}", "text/css"),
        ("/assets/js/vendor/lib.min.js", b"void 0", "text/javascript"),
    ];
    for (path, raw, mime) in expect {
        let mut found = data.open(path).unwrap();
        assert_eq!(found.mimetype(), mime);
        assert_eq!(found.decompressed_data(), Ok(raw.to_vec()));
    }
}

#[test]
fn fill_with_appends_behind_what_is_there() {
    let mut root = Dir::new();
    root.push_file("first".to_string(), File::from_source("first", b"1").unwrap());
    root.push_dir("old".to_string(), Dir::new());
    assert_eq!(root.fill_with(&vec![file("second", b"2"), dir("new", vec![])]), Ok(()));
    assert_eq!(root.file_count(), 2);
    assert_eq!(root.file_name(0), "first");
    assert_eq!(root.file_name(1), "second");
    assert_eq!(root.dir_count(), 2);
    assert_eq!(root.dir_name(0), "old");
    assert_eq!(root.dir_name(1), "new");
}

#[test]
fn open_file_walks_given_names() {
    let mut sub = Dir::new();
    let stored = File::new("m".to_string(), b"abc".to_vec(), Compress::Uncompressed);
    sub.push_file("f".to_string(), stored);
    let mut root = Dir::new();
    root.push_dir("d".to_string(), sub);
    let names = vec!["d".to_string(), "f".to_string()];
    let found = root.open_file(&names).unwrap();
    assert_eq!(found.mimetype(), "m");
    assert_eq!(found.data(), b"abc");
    assert_eq!(root.open_file(&names[..1]).unwrap_err(), DataError::NotFound);
    assert_eq!(root.open_file(&[]).unwrap_err(), DataError::NotFound);
    assert_eq!(root.open_file(&["..".to_string()]).unwrap_err(), DataError::NotFound);
}

#[test]
fn package_carries_its_records() {
    let mut config = Config::default();
    config.title = "Demo".to_string();
    config.spa = true;
    let data =
        Data::from_dir(&site(), config.window_attr(None), config.webview_attr(None, None)).unwrap();
    assert_eq!(data.window_attr.title, "Demo");
    assert!(data.webview_attr.spa);
    let rebuilt = Data::new(data.window_attr.clone(), data.webview_attr.clone(), Dir::new());
    assert_eq!(rebuilt.window_attr.title, "Demo");
    assert_eq!(rebuilt.root().file_count(), 0);
    assert_eq!(rebuilt.open("/index.html").unwrap_err(), DataError::NotFound);
}
