use std::io::Write;
use scratchsmith::unpack::{
    find_blob, layer_tar, missing_blob_message, safe_join, strip_sha256, whiteout_of, whiteout_target, UnpackReport,
    Whiteout,
};

#[test]
fn safe_join_refuses_escapes() {
    let dest = "/tmp/dest";
    assert!(safe_join(dest, "a/b").is_some());
    assert!(safe_join(dest, "../x").is_none());
    assert!(safe_join(dest, "/etc/passwd").is_none());
}

#[test]
fn safe_join_skips_empty_and_current_components() {
    assert_eq!(safe_join("/tmp/dest", "a/b").unwrap(), "/tmp/dest/a/b");
    assert_eq!(safe_join("/tmp/dest", "./a//b/").unwrap(), "/tmp/dest/a/b");
    assert_eq!(safe_join("/tmp/dest", "").unwrap(), "/tmp/dest");
    assert!(safe_join("/tmp/dest", "a/../b").is_none());
    assert_eq!(safe_join("/tmp/dest/", "x").unwrap(), "/tmp/dest/x");
}

#[test]
fn whiteouts_are_read_from_the_file_name() {
    assert_eq!(whiteout_of("gone"), None);
    assert_eq!(whiteout_of(".wh..wh..opq"), Some(Whiteout::Opaque));
    assert_eq!(whiteout_of(".wh.gone"), Some(Whiteout::Remove("gone".into())));
}

#[test]
fn digests_must_be_sha256() {
    assert_eq!(strip_sha256("sha256:abc").unwrap(), "abc");
    assert_eq!(
        strip_sha256("sha512:abc").unwrap_err(),
        "digest is not sha256: sha512:abc"
    );
}

#[test]
fn the_last_blob_stored_under_a_digest_wins() {
    let keys = vec!["a".to_string(), "b".to_string(), "a".to_string()];
    assert_eq!(find_blob(&keys, "a"), Some(2));
    assert_eq!(find_blob(&keys, "c"), None);
    assert_eq!(missing_blob_message("c"), "archive is missing blob sha256:c");
}

#[test]
fn a_gzip_layer_is_decompressed_and_a_plain_one_kept() {
    let mut enc = flate2::write::GzEncoder::new(Vec::new(), flate2::Compression::default());
    enc.write_all(b"layer bytes").unwrap();
    let gz = enc.finish().unwrap();
    assert_eq!(
        layer_tar(&gz, "application/vnd.oci.image.layer.v1.tar+gzip").unwrap(),
        b"layer bytes".to_vec()
    );
    assert_eq!(
        layer_tar(&b"raw".to_vec(), "application/vnd.oci.image.layer.v1.tar").unwrap(),
        b"raw".to_vec()
    );
    assert!(layer_tar(&b"not gzip".to_vec(), "x+gzip").is_none());
}

#[test]
fn the_unpack_report_says_what_landed_where() {
    let r = UnpackReport { source: "app.oci.tar".into(), dir: "./rootfs".into(), layers: 1, files: 12 };
    let text = r.to_text();
    assert!(text.contains("unpacked"));
    assert_eq!(text, "unpacked app.oci.tar into ./rootfs (1 layer(s), 12 file(s))");
}

#[test]
fn joined_paths_stay_under_the_destination() {
    for rel in ["a/b", "./a//b/", "a/./b", "x"] {
        let p = safe_join("/tmp/dest", rel).unwrap();
        assert!(p.starts_with("/tmp/dest/"), "{rel} -> {p}");
    }
    assert_eq!(safe_join("/tmp/dest", "a/../b"), None);
    assert_eq!(safe_join("/tmp/dest", ""), Some("/tmp/dest".to_string()));
}

#[test]
fn a_whiteout_acts_on_its_directory_or_its_sibling() {
    assert_eq!(whiteout_target("/d", "etc", &Whiteout::Opaque).unwrap(), "/d/etc");
    assert_eq!(whiteout_target("/d", "etc", &Whiteout::Remove("gone".into())).unwrap(), "/d/etc/gone");
    assert_eq!(whiteout_target("/d", "", &Whiteout::Remove("gone".into())).unwrap(), "/d/gone");
    assert!(whiteout_target("/d", "", &Whiteout::Remove("..".into())).is_none());
    assert!(whiteout_target("/d", "../up", &Whiteout::Opaque).is_none());
}
