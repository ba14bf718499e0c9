use artchiver::data_path::{get_data_path_for_url, hex_lower_exec, make_temp_path, text_cache_key, url_extension_exec};
use artchiver::environment::{is_wasm_module_path, join, migration_target, Environment};
use artchiver::media::{is_archive, is_audio, is_image, is_pdf, make_preview_thumbnail, media_kind, path_extension_exec, MediaKind};

#[test]
fn test_get_data_path_for_url() {
    let p = get_data_path_for_url("https://example.com/image.jpg");
    assert_eq!(p.relative, "e5/db/82b5bf63d49d80c5533616892d3386f43955369520986d67653c700fc53c.jpg");
    assert_eq!(p.dir, "e5/db");
    let p = get_data_path_for_url("https://example.com/image.jpg?id=1234");
    assert_eq!(p.relative, "2d/fc/1d0596854b006b8c957f01e07bb0694c77a02cc36efec7bd610ba0409c24.jpg");
}

#[test]
fn url_extensions() {
    let ext = |u: &str| -> String { url_extension_exec(u).into_iter().collect() };
    assert_eq!(ext("https://example.com/image.jpg"), "jpg");
    assert_eq!(ext("https://example.com/image.jpg?id=1234"), "jpg");
    assert_eq!(ext("https://example.com/a.b/file"), "file");
    assert_eq!(ext("https://example.com/archive.tar.gz"), "gz");
    assert_eq!(ext("noslash"), "noslash");
}

#[test]
fn digests_in_hexadecimal() {
    let h: String = hex_lower_exec(&[0x00, 0x0f, 0xa0, 0xff]).into_iter().collect();
    assert_eq!(h, "000fa0ff");
    assert_eq!(text_cache_key("abc"), "ba7816bf8f01cfea414140de5dae2223b00361a396177a9cb410ff61f20015ad");
}

#[test]
fn temp_paths_are_random_names_in_the_directory() {
    let a = make_temp_path("/tmp/artx/cache/tmp");
    let b = make_temp_path("/tmp/artx/cache/tmp/");
    assert!(a.starts_with("/tmp/artx/cache/tmp/"));
    let name = &a["/tmp/artx/cache/tmp/".len()..];
    assert_eq!(name.len(), 20);
    assert!(name.chars().all(|c| c.is_ascii_alphanumeric()));
    assert_eq!(b.len(), a.len());
    assert_ne!(a, b);
}

#[test]
fn media_kinds_by_extension() {
    assert!(is_image("/data/aa/bb/x.JPG"));
    assert!(is_image("photo.webp"));
    assert!(!is_image("/data/aa/bb/x.mp3"));
    assert!(is_audio("podcast.Mp3"));
    assert!(is_archive("bundle.tar.gz"));
    assert!(is_pdf("paper.pdf"));
    assert!(!is_image(".png"));
    assert!(!is_image("dir.png/.."));
    assert!(is_image("dir/x.png/"));
    assert!(!is_image("noextension"));
    assert_eq!(path_extension_exec("a/b.c/d.e"), Some("e".to_string()));
    assert_eq!(path_extension_exec("a/.hidden"), None);
    assert_eq!(path_extension_exec("a/b."), Some("".to_string()));
    assert_eq!(media_kind("clip.mkv"), MediaKind::Video);
    assert_eq!(media_kind("clip.flac"), MediaKind::Audio);
}

#[test]
fn previews_that_are_not_images() {
    let (p, m) = make_preview_thumbnail("aa/bb/x.png", "/d/aa/bb/x.png");
    assert_eq!(p, "aa/bb/x.png");
    assert_eq!(m, None);
    let (p, m) = make_preview_thumbnail("aa/bb/x.mp3", "/d/aa/bb/x.mp3");
    assert_eq!(p, "aa/bb/x.mp3");
    assert_eq!(m, Some("TODO: make a preview image for an audio file"));
    let (_, m) = make_preview_thumbnail("aa/bb/x.mp4", "/d/aa/bb/x.mp4");
    assert_eq!(m, Some("TODO: make a preview image for a video file"));
}

#[test]
fn environment_directories() {
    let env = Environment::new("/home/me/artx", "/home/me/.local/state/artchiver");
    assert_eq!(env.prefix(), "/home/me/artx");
    assert_eq!(env.data_dir(), "/home/me/artx/data");
    assert_eq!(env.cache_dir(), "/home/me/artx/cache");
    assert_eq!(env.tmp_dir(), "/home/me/artx/cache/tmp");
    assert_eq!(env.metadata_file_path(), "/home/me/artx/data/metadata.db");
    assert_eq!(env.global_plugin_dir(), "/home/me/.local/state/artchiver/plugins");
    assert_eq!(env.local_plugin_dir(), "/home/me/artx/plugins");
    assert_eq!(join("a/", "b"), "a/b");
    assert_eq!(join("", "b"), "b");
    assert_eq!(join("a", "/b"), "/b");
}

#[test]
fn plugin_modules_and_data_migration() {
    assert!(is_wasm_module_path("/p/nga.wasm"));
    assert!(is_wasm_module_path("/p/MET.WASM"));
    assert!(!is_wasm_module_path("/p/met.wasm.txt"));
    assert!(!is_wasm_module_path("asm"));
    assert_eq!(migration_target("artchiver.ron"), None);
    assert_eq!(migration_target("metadata.db-wal"), None);
    assert_eq!(
        migration_target("e5db82b5bf.jpg"),
        Some(("e5/db".to_string(), "e5/db/82b5bf.jpg".to_string()))
    );
}
