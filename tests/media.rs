use crust::media::{
    ContentType, ContentUrl, ThumbnailStore, get_filename, infer_mimetype_from_bytes,
    make_content_filename, make_content_folder, make_content_path, MAX_CACHE_SIZE,
};

fn url(authority: Option<&str>, path: &str) -> ContentUrl {
    ContentUrl { authority: authority.map(|a| a.to_string()), path: path.to_string() }
}

#[test]
fn content_type_from_top_level_part() {
    assert_eq!(ContentType::new("image/png"), ContentType::Image);
    assert_eq!(ContentType::new("audio/ogg"), ContentType::Audio);
    assert_eq!(ContentType::new("video/mp4"), ContentType::Video);
    assert_eq!(ContentType::new("application/json"), ContentType::Other);
    assert_eq!(ContentType::new("image"), ContentType::Image);
    assert_eq!(ContentType::new(""), ContentType::Other);
    assert_eq!(ContentType::new("images/png"), ContentType::Other);
    assert_eq!(ContentType::new("/image"), ContentType::Other);
}

#[test]
fn content_type_from_str() {
    assert_eq!(ContentType::from("video/webm"), ContentType::Video);
    let kind: ContentType = "text/plain".into();
    assert_eq!(kind, ContentType::Other);
}

#[test]
fn filename_is_last_component() {
    assert_eq!(get_filename("foo/bar.txt"), "bar.txt");
    assert_eq!(get_filename("bar.txt"), "bar.txt");
    assert_eq!(get_filename("/tmp/foo/"), "foo");
    assert_eq!(get_filename("a/b/."), "b");
    assert_eq!(get_filename("./x"), "x");
    assert_eq!(get_filename("a//b"), "b");
}

#[test]
fn filename_unknown_without_a_name() {
    assert_eq!(get_filename(""), "unknown");
    assert_eq!(get_filename("/"), "unknown");
    assert_eq!(get_filename("."), "unknown");
    assert_eq!(get_filename("a/.."), "unknown");
    assert_eq!(get_filename(".."), "unknown");
}

#[test]
fn mimetype_sniffed_from_bytes() {
    let png = [0x89u8, 0x50, 0x4E, 0x47, 0x0D, 0x0A, 0x1A, 0x0A, 0, 0, 0, 0];
    assert_eq!(infer_mimetype_from_bytes(&png), "image/png");
    assert_eq!(ContentType::new(&infer_mimetype_from_bytes(&png)), ContentType::Image);
}

#[test]
fn mimetype_falls_back_to_octet_stream() {
    assert_eq!(infer_mimetype_from_bytes(&[1, 2, 3]), "application/octet-stream");
    assert_eq!(infer_mimetype_from_bytes(&[]), "application/octet-stream");
}

#[test]
fn content_paths_follow_layout() {
    let u = url(Some("media.example.org:2289"), "/abc/def.png");
    assert_eq!(
        make_content_folder("/data/", &u),
        Some("/data/content/media_example_org:2289".to_string())
    );
    assert_eq!(make_content_filename(&u), Some("abc/def.png".to_string()));
    assert_eq!(
        make_content_path("/data/", &u),
        Some("/data/content/media_example_org:2289/abc/def.png".to_string())
    );
}

#[test]
fn content_paths_need_authority_and_path() {
    assert_eq!(make_content_folder("/data/", &url(None, "/x")), None);
    assert_eq!(make_content_path("/data/", &url(None, "/x")), None);
    assert_eq!(make_content_filename(&url(Some("h"), "")), None);
    assert_eq!(make_content_path("/data/", &url(Some("h"), "")), None);
    assert_eq!(make_content_path("/data/", &url(Some("h"), "//abs")), Some("/abs".to_string()));
}

#[test]
fn cache_put_get_has() {
    let mut store = ThumbnailStore::new();
    let a = url(Some("h"), "/a");
    assert!(!store.has_thumbnail(&a));
    store.put_thumbnail(url(Some("h"), "/a"), vec![1, 2, 3]);
    assert!(store.has_thumbnail(&a));
    assert_eq!(store.get_thumbnail(&a), Some(&vec![1, 2, 3]));
    assert_eq!(store.get_thumbnail(&url(Some("h"), "/b")), None);
    assert_eq!(store.get_thumbnail(&url(None, "/a")), None);
    assert_eq!(store.total_size(), 3);
    assert!(MAX_CACHE_SIZE == 100_000_000);
}

#[test]
fn cache_invalidate_removes_one_entry() {
    let mut store = ThumbnailStore::with_budget(100);
    store.put_thumbnail(url(Some("h"), "/a"), vec![0; 10]);
    store.put_thumbnail(url(Some("h"), "/b"), vec![0; 20]);
    store.invalidate_thumbnail(&url(Some("h"), "/a"));
    assert!(!store.has_thumbnail(&url(Some("h"), "/a")));
    assert!(store.has_thumbnail(&url(Some("h"), "/b")));
    assert_eq!(store.total_size(), 20);
    store.invalidate_thumbnail(&url(Some("h"), "/zzz"));
    assert_eq!(store.total_size(), 20);
}

#[test]
fn cache_never_exceeds_budget() {
    let mut store = ThumbnailStore::with_budget(50);
    for i in 0..40u8 {
        let size = (i as usize * 7) % 23 + 1;
        store.put_thumbnail(url(Some("h"), &format!("/{}", i)), vec![i; size]);
        assert!(store.total_size() <= 50);
    }
}

#[test]
fn cache_rejects_blob_larger_than_budget() {
    let mut store = ThumbnailStore::with_budget(10);
    store.put_thumbnail(url(Some("h"), "/a"), vec![0; 4]);
    store.put_thumbnail(url(Some("h"), "/big"), vec![0; 11]);
    assert!(!store.has_thumbnail(&url(Some("h"), "/big")));
    assert!(store.has_thumbnail(&url(Some("h"), "/a")));
    assert_eq!(store.total_size(), 4);
}

#[test]
fn cache_evicts_oldest_first() {
    let mut store = ThumbnailStore::with_budget(10);
    store.put_thumbnail(url(Some("h"), "/1"), vec![0; 3]);
    store.put_thumbnail(url(Some("h"), "/2"), vec![0; 3]);
    store.put_thumbnail(url(Some("h"), "/3"), vec![0; 3]);
    // 9 held; 4 more overflow: the oldest two go (3 < 4 <= 6).
    store.put_thumbnail(url(Some("h"), "/4"), vec![0; 4]);
    assert!(!store.has_thumbnail(&url(Some("h"), "/1")));
    assert!(!store.has_thumbnail(&url(Some("h"), "/2")));
    assert!(store.has_thumbnail(&url(Some("h"), "/3")));
    assert!(store.has_thumbnail(&url(Some("h"), "/4")));
    assert_eq!(store.total_size(), 7);
}

#[test]
fn cache_fifo_ignores_access_order() {
    let mut store = ThumbnailStore::with_budget(6);
    store.put_thumbnail(url(Some("h"), "/1"), vec![0; 3]);
    store.put_thumbnail(url(Some("h"), "/2"), vec![0; 3]);
    assert!(store.get_thumbnail(&url(Some("h"), "/1")).is_some());
    store.put_thumbnail(url(Some("h"), "/3"), vec![0; 3]);
    assert!(!store.has_thumbnail(&url(Some("h"), "/1")));
    assert!(store.has_thumbnail(&url(Some("h"), "/2")));
    assert!(store.has_thumbnail(&url(Some("h"), "/3")));
}

#[test]
fn cache_drops_blob_when_scan_frees_too_little() {
    let mut store = ThumbnailStore::with_budget(10);
    store.put_thumbnail(url(Some("h"), "/1"), vec![0; 4]);
    // 4 + 7 overflows 10, and evicting all 4 bytes frees less than 7.
    store.put_thumbnail(url(Some("h"), "/2"), vec![0; 7]);
    assert!(store.has_thumbnail(&url(Some("h"), "/1")));
    assert!(!store.has_thumbnail(&url(Some("h"), "/2")));
    assert_eq!(store.total_size(), 4);
}

#[test]
fn cache_put_same_key_replaces() {
    let mut store = ThumbnailStore::with_budget(10);
    store.put_thumbnail(url(Some("h"), "/1"), vec![1; 6]);
    store.put_thumbnail(url(Some("h"), "/1"), vec![2; 8]);
    assert_eq!(store.get_thumbnail(&url(Some("h"), "/1")), Some(&vec![2; 8]));
    assert_eq!(store.total_size(), 8);
}

#[test]
fn cache_takes_blob_of_exactly_the_budget() {
    let mut store = ThumbnailStore::with_budget(10);
    store.put_thumbnail(url(Some("h"), "/full"), vec![0; 10]);
    assert!(store.has_thumbnail(&url(Some("h"), "/full")));
    assert_eq!(store.total_size(), 10);
    // The next blob evicts the full one, which frees enough.
    store.put_thumbnail(url(Some("h"), "/next"), vec![0; 1]);
    assert!(!store.has_thumbnail(&url(Some("h"), "/full")));
    assert!(store.has_thumbnail(&url(Some("h"), "/next")));
    assert_eq!(store.total_size(), 1);
}

#[test]
fn cache_with_zero_budget_holds_only_empty_blobs() {
    let mut store = ThumbnailStore::with_budget(0);
    store.put_thumbnail(url(Some("h"), "/a"), vec![1]);
    assert!(!store.has_thumbnail(&url(Some("h"), "/a")));
    store.put_thumbnail(url(Some("h"), "/e"), vec![]);
    assert!(store.has_thumbnail(&url(Some("h"), "/e")));
    assert_eq!(store.total_size(), 0);
}
