use zenoh_transport::error::ZError;
use zenoh_transport::key_expr::{includes, intersect, KeyExpr};

#[test]
fn intersect_star_chunk() {
    assert!(intersect("/a/b/c", "/a/*/c"));
}

#[test]
fn intersect_prefix_is_not_enough() {
    assert!(!intersect("/a/b", "/a/b/c"));
}

#[test]
fn include_double_star_suffix() {
    assert!(includes("/a/**", "/a/b/c/d"));
}

#[test]
fn include_concrete_does_not_include_wildcard() {
    assert!(!includes("/a/b/c/d", "/a/**"));
}

#[test]
fn matches_within_admin_space() {
    assert!(zenoh_transport::key_expr::matches("/@/router/x", "/@/router/**"));
}

#[test]
fn matches_across_admin_boundary() {
    assert!(!zenoh_transport::key_expr::matches("/@/x", "/x"));
    assert!(!zenoh_transport::key_expr::matches("/x", "/@/x"));
}

#[test]
fn admin_isolation_even_when_intersecting() {
    assert!(intersect("/**", "/@/x"));
    assert!(!zenoh_transport::key_expr::matches("/**", "/@/x"));
}

#[test]
fn star_does_not_span_chunks() {
    assert!(!intersect("/a/*", "/a/b/c"));
    assert!(intersect("/a/**", "/a/b/c"));
}

#[test]
fn reflexive_on_samples() {
    for e in ["", "/", "/a", "/a/b/c", "/a/*/c", "/a/**", "**", "/a*b/c", "/**/x/*", "*"] {
        assert!(intersect(e, e), "{}", e);
        assert!(includes(e, e), "{}", e);
    }
}

#[test]
fn intersect_symmetric_on_samples() {
    let es = ["", "/a", "/a/b", "/a/*", "/a/**", "**", "/*/b", "/a/b*", "/a/*c", "/@/x", "/**/c"];
    for a in es {
        for b in es {
            assert_eq!(intersect(a, b), intersect(b, a), "{} {}", a, b);
        }
    }
}

#[test]
fn include_implies_intersect_on_samples() {
    let es = ["/a", "/a/b", "/a/*", "/a/**", "/*/b", "/a/b*", "/a/*c", "/**", "/**/c", "/a/b/c"];
    for a in es {
        for b in es {
            if includes(a, b) {
                assert!(intersect(a, b), "{} {}", a, b);
            }
        }
    }
}

#[test]
fn double_star_is_top() {
    for e in ["", "/", "/a", "/a/b/c", "/a/*", "*", "**", "/@/x"] {
        assert!(includes("**", e), "{}", e);
        assert!(intersect("**", e), "{}", e);
    }
}

#[test]
fn empty_meets_only_empty() {
    assert!(intersect("", ""));
    assert!(!intersect("", "/a"));
    assert!(!intersect("/a", ""));
    assert!(!includes("", "/a"));
    assert!(includes("**", ""));
}

#[test]
fn star_needs_a_non_empty_chunk() {
    assert!(intersect("*", "a"));
    assert!(!intersect("*", ""));
    assert!(!intersect("/a/*", "/a/"));
    assert!(!intersect("*", "a/b"));
}

#[test]
fn star_inside_chunk() {
    assert!(intersect("/a/b*", "/a/bcd"));
    assert!(intersect("/a/*d", "/a/bcd"));
    assert!(!intersect("/a/*x", "/a/bcd"));
    assert!(includes("/a/b*", "/a/bcd"));
    assert!(!includes("/a/bcd", "/a/b*"));
}

#[test]
fn non_ascii_chunks() {
    assert!(intersect("/é/*", "/é/ü"));
    assert!(!intersect("/é/b", "/e/b"));
}

#[test]
fn key_expr_strings() {
    let k = KeyExpr::from("/a/b");
    assert_eq!(k.as_str(), "/a/b");
    assert_eq!(k.try_as_str(), Ok("/a/b"));
    assert!(k.has_suffix());
    assert_eq!(k.try_as_id(), Err(ZError::SuffixedKeyExpr));
    let scoped = KeyExpr { scope: 7, suffix: String::from("/c") };
    assert_eq!(scoped.as_str(), "<encoded_expr>");
    assert_eq!(scoped.try_as_str(), Err(ZError::ScopedKeyExpr));
    assert_eq!(scoped.as_id_and_suffix(), (7, "/c"));
    assert_eq!(scoped.clone().try_into_string(), Err(ZError::ScopedKeyExpr));
    assert_eq!(k.clone().try_into_string(), Ok(String::from("/a/b")));
}

#[test]
fn key_expr_ids() {
    let k = KeyExpr::from(5u64);
    assert_eq!(k.as_id(), 5);
    assert!(!k.has_suffix());
    assert_eq!(k.try_as_id(), Ok(5));
    assert_eq!(k.clone().try_into_id(), Ok(5));
    let s = k.with_suffix("/x");
    assert_eq!(s.scope, 5);
    assert_eq!(s.suffix, "/x");
    let t = s.with_suffix("/y");
    assert_eq!(t.suffix, "/x/y");
    assert_eq!(t.to_owned(), t);
    assert_eq!(KeyExpr::from(String::from("/z")), KeyExpr { scope: 0, suffix: String::from("/z") });
}

#[test]
fn key_expr_text_form() {
    assert_eq!(KeyExpr::from("/a/b").to_string(), "/a/b");
    assert_eq!(KeyExpr { scope: 12, suffix: String::from("/b") }.to_string(), "12:/b");
    assert_eq!(KeyExpr::from(7u64).to_string(), "7:");
    assert_eq!(KeyExpr::from(10u64).to_string(), "10:");
    assert_eq!(
        KeyExpr { scope: u64::MAX, suffix: String::from("/x") }.to_string(),
        "18446744073709551615:/x"
    );
}

#[test]
fn star_chunk_does_not_include_empty_chunk() {
    assert!(!includes("*/x", "/x"));
    assert!(!intersect("*/x", "/x"));
    assert!(!includes("*", "/"));
    assert!(!includes("/a/*", "/a/"));
    assert!(includes("*/x", "a/x"));
    assert!(includes("/*/x", "/a/x"));
}

#[test]
fn include_implies_intersect_unrooted() {
    let es = ["", "/", "*", "**", "*/x", "/x", "a/x", "x", "**/x", "*/*", "a*/x", "//x", "x/"];
    for a in es {
        for b in es {
            if includes(a, b) {
                assert!(intersect(a, b), "{} {}", a, b);
            }
        }
    }
}

#[test]
fn empty_key_is_included_only_in_double_star_chains() {
    assert!(includes("**", ""));
    assert!(includes("**/**", ""));
    assert!(intersect("**/**", ""));
    assert!(!includes("*", ""));
    assert!(!includes("/a", ""));
    assert!(!includes("**/a", ""));
    assert!(!intersect("**/a", ""));
}
