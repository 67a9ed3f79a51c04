use void_edge::normalizer::{resolve_path, NormError, Normalizer};

#[test]
fn test_all_equivalent_to_login() {
    let n = Normalizer::default();
    let cases = vec![
        "/login",
        "//login",
        "/./login",
        "/%2flogin",
        "/%252flogin",
        "/a/../login",
        "/LOGIN",
        "/login/",
    ];
    for case in &cases {
        let r = n.normalize(case).unwrap();
        assert_eq!(r.path, "/login", "Failed for: {}", case);
    }
}

#[test]
fn test_traversal_detected() {
    let n = Normalizer::default();
    let r = n.normalize("/admin/../../etc/passwd").unwrap();
    assert!(r.had_traversal);
    assert_eq!(r.path, "/etc/passwd");
}

#[test]
fn test_double_encoding_counted() {
    let n = Normalizer::default();
    let r = n.normalize("/%252flogin").unwrap();
    assert!(r.encoding_layers >= 2);
}

#[test]
fn test_crlf_detected() {
    let n = Normalizer::default();
    let r = n.normalize("/path\r\nX-Injected: evil").unwrap();
    assert!(r.had_crlf);
}

fn path_of(raw: &str) -> String {
    Normalizer::default().normalize(raw).unwrap().path
}

fn headers(list: &[(&str, &str)]) -> Vec<(String, String)> {
    list.iter().map(|(n, v)| (n.to_string(), v.to_string())).collect()
}

#[test]
fn layers_are_counted_exactly() {
    let n = Normalizer::default();
    assert_eq!(n.normalize("/login").unwrap().encoding_layers, 0);
    assert_eq!(n.normalize("/%6cogin").unwrap().encoding_layers, 1);
    assert_eq!(n.normalize("/%256cogin").unwrap().encoding_layers, 2);
    assert_eq!(n.normalize("/%25252525256c").unwrap_err(), NormError::TooManyEncodingLayers);
    assert_eq!(n.normalize("/%252525256c").unwrap().encoding_layers, 5);
}

#[test]
fn another_layer_changes_only_the_count() {
    let n = Normalizer::default();
    let once = n.normalize("/%61dmin").unwrap();
    let twice = n.normalize("/%2561dmin").unwrap();
    assert_eq!(once.path, "/admin");
    assert_eq!(twice.path, "/admin");
    assert_eq!(twice.encoding_layers, once.encoding_layers + 1);
}

#[test]
fn escapes_of_either_case_are_decoded() {
    assert_eq!(path_of("/%4A%4a"), "/jj");
    assert_eq!(path_of("/%4"), "/%4");
    assert_eq!(path_of("/%zz"), "/%zz");
    assert_eq!(path_of("/%C3%A9"), "/\u{e9}");
}

#[test]
fn bytes_that_are_not_utf8_are_refused() {
    let n = Normalizer::default();
    assert_eq!(n.normalize("/%ff").unwrap_err(), NormError::InvalidEncoding);
    assert_eq!(n.normalize("/%25ff").unwrap_err(), NormError::InvalidEncoding);
}

#[test]
fn query_is_kept_as_it_is() {
    let r = Normalizer::default().normalize("/a?x=%41&y?z").unwrap();
    assert_eq!(r.path, "/a");
    assert_eq!(r.query, "x=%41&y?z");
    assert_eq!(Normalizer::default().normalize("/a").unwrap().query, "");
}

#[test]
fn controls_are_found_and_dropped() {
    let r = Normalizer::default().normalize("/a%00b%0d%0ac%07\u{85}d").unwrap();
    assert!(r.had_null_byte);
    assert!(r.had_crlf);
    assert_eq!(r.path, "/abcd");
}

#[test]
fn characters_are_composed() {
    let r = Normalizer::default().normalize("/cafe\u{301}").unwrap();
    assert!(r.had_unicode_trick);
    assert_eq!(r.path, "/caf\u{e9}");
    assert!(!Normalizer::default().normalize("/caf\u{e9}").unwrap().had_unicode_trick);
}

#[test]
fn slashes_of_both_kinds_collapse() {
    let r = Normalizer::default().normalize("\\a\\\\b//c/").unwrap();
    assert!(r.had_double_slash);
    assert!(!r.had_traversal);
    assert_eq!(r.path, "/a/b/c");
    assert_eq!(path_of(""), "/");
    assert_eq!(path_of("///"), "/");
}

#[test]
fn clean_paths_stay_as_they_are() {
    for raw in ["/a/b/../c", "/..//x/./y", "/", "/a\\b"] {
        let once = resolve_path(raw, 32);
        let twice = resolve_path(&once.path, 32);
        assert_eq!(once.path, twice.path);
        assert!(!twice.had_traversal);
        assert!(!twice.had_double_slash);
    }
    assert_eq!(resolve_path("/a/../../b", 32).path, "/b");
}

#[test]
fn segments_beyond_the_depth_are_cut_off() {
    assert_eq!(resolve_path("/a/b/c/d", 2).path, "/a/b");
    assert_eq!(resolve_path("/a/b/c/../d", 2).path, "/a/d");
    let long = "/x".repeat(40);
    assert_eq!(path_of(&long), "/x".repeat(32));
}

#[test]
fn no_layers_are_allowed_where_the_limit_is_zero() {
    let n = Normalizer { max_encoding_depth: 0, max_path_depth: 1 };
    assert_eq!(n.normalize("/%61").unwrap_err(), NormError::TooManyEncodingLayers);
    assert_eq!(n.normalize("/a/b").unwrap().path, "/a");
}

#[test]
fn quiet_headers_are_not_odd() {
    let a = Normalizer::default()
        .check_headers(&headers(&[("Host", "a"), ("Accept", "*/*"), ("Content-Length", "3")]));
    assert!(!a.crlf_in_header && !a.null_byte_in_header && !a.oversized_header);
    assert!(!a.has_chunked && a.has_content_length && !a.te_cl_conflict && !a.duplicate_host);
}

#[test]
fn odd_headers_are_found() {
    let n = Normalizer::default();
    assert!(n.check_headers(&headers(&[("X", "a\nb")])).crlf_in_header);
    assert!(n.check_headers(&headers(&[("X", "a\rb")])).crlf_in_header);
    assert!(!n.check_headers(&headers(&[("X\n", "a")])).crlf_in_header);
    assert!(n.check_headers(&headers(&[("X\0", "a")])).null_byte_in_header);
    assert!(n.check_headers(&headers(&[("X", "\0")])).null_byte_in_header);
    assert!(!n.check_headers(&headers(&[("X", &"a".repeat(8192))])).oversized_header);
    assert!(n.check_headers(&headers(&[("X", &"a".repeat(8193))])).oversized_header);
    assert!(n.check_headers(&headers(&[("X", &"\u{e9}".repeat(4097))])).oversized_header);
    assert!(n.check_headers(&headers(&[("HOST", "a"), ("host", "b")])).duplicate_host);
}

#[test]
fn body_lengths_must_not_conflict() {
    let n = Normalizer::default();
    let both = n.check_headers(&headers(&[
        ("Content-Length", "5"),
        ("TRANSFER-ENCODING", "gzip, Chunked"),
    ]));
    assert!(both.te_cl_conflict);
    let one = n.check_headers(&headers(&[("Transfer-Encoding", "chunked")]));
    assert!(one.has_chunked && !one.te_cl_conflict);
    let other = n.check_headers(&headers(&[("Transfer-Encoding", "gzip"), ("Content-Length", "1")]));
    assert!(!other.has_chunked && !other.te_cl_conflict);
}

#[test]
fn repeated_parameters_are_found() {
    let n = Normalizer::default();
    assert!(n.check_query_params("a=1&b=2&A=3").parameter_pollution);
    assert!(!n.check_query_params("a=1&b=1").parameter_pollution);
    assert!(!n.check_query_params("&&=1&=2").parameter_pollution);
    assert!(!n.check_query_params("").parameter_pollution);
    assert!(n.check_query_params("x&x").parameter_pollution);
}

#[test]
fn normalized_paths_stay_as_they_are() {
    let n = Normalizer::default();
    for raw in ["/LOGIN", "//A/./b\\C/", "/%2e%2e/x/../Y-1_z~", "", "/a.b/..c/d..", "/x?y=1"] {
        let once = n.normalize(raw).unwrap();
        let twice = n.normalize(&once.path).unwrap();
        assert_eq!(twice.path, once.path);
        assert_eq!(twice.query, "");
        assert_eq!(twice.encoding_layers, 0);
        assert!(!twice.had_traversal && !twice.had_null_byte && !twice.had_crlf);
        assert!(!twice.had_unicode_trick && !twice.had_double_slash);
    }
}

#[test]
fn normalized_paths_are_well_shaped() {
    for raw in ["", "/", "a//b/", "\\..\\", "/%2f%2f/X/..//y/./", "/.../a"] {
        let p = path_of(raw);
        assert!(p.starts_with('/'));
        assert!(!p.contains("//") && !p.contains('\\'));
        assert!(p == "/" || !p.ends_with('/'));
        assert!(p.split('/').all(|part| part != "." && part != ".."));
    }
}
