use static_render::escape::escape_html;
use static_render::trace::{replace_all, trace_stack, TraceMapping};
use static_render::text::bytes_eq;

#[test]
fn escapes_the_three_special_bytes() {
    let out = escape_html(&b"a&b<c>d".to_vec());
    assert_eq!(out, b"a&amp;b&lt;c&gt;d".to_vec());
}

#[test]
fn escape_leaves_plain_text_alone() {
    let out = escape_html(&b"plain text, nothing special".to_vec());
    assert_eq!(out, b"plain text, nothing special".to_vec());
}

#[test]
fn escape_of_empty_is_empty() {
    assert!(escape_html(&Vec::new()).is_empty());
}

#[test]
fn escape_handles_runs_of_specials() {
    let out = escape_html(&b"<<&>>".to_vec());
    assert_eq!(out, b"&lt;&lt;&amp;&gt;&gt;".to_vec());
}

#[test]
fn replace_all_rewrites_every_occurrence() {
    let out = replace_all(&b"x foo y foo z".to_vec(), &b"foo".to_vec(), &b"bar".to_vec());
    assert_eq!(out, b"x bar y bar z".to_vec());
}

#[test]
fn replace_all_without_a_match_is_identity() {
    let out = replace_all(&b"nothing here".to_vec(), &b"foo".to_vec(), &b"bar".to_vec());
    assert_eq!(out, b"nothing here".to_vec());
}

#[test]
fn trace_rewrites_mapped_locations() {
    let raw = b"ReferenceError: x is not defined\n at foo.js:10:3".to_vec();
    let maps = vec![TraceMapping {
        generated: b"foo.js:10:3".to_vec(),
        original: b"page.jsx:4:1".to_vec(),
    }];
    let out = trace_stack(&raw, &maps);
    assert_eq!(out, b"ReferenceError: x is not defined\n at page.jsx:4:1".to_vec());
}

#[test]
fn trace_with_no_matching_entry_returns_text_unchanged() {
    let raw = b"TypeError: boom\n at other.js:1:1".to_vec();
    let maps = vec![TraceMapping {
        generated: b"foo.js:10:3".to_vec(),
        original: b"page.jsx:4:1".to_vec(),
    }];
    let out = trace_stack(&raw, &maps);
    assert_eq!(out, raw);
}

#[test]
fn trace_with_empty_mapping_returns_text_unchanged() {
    let raw = b"anything at all".to_vec();
    let out = trace_stack(&raw, &Vec::new());
    assert_eq!(out, raw);
}

#[test]
fn byte_equality_follows_contents() {
    assert!(bytes_eq(&b"abc".to_vec(), &b"abc".to_vec()));
    assert!(!bytes_eq(&b"abc".to_vec(), &b"abd".to_vec()));
    assert!(!bytes_eq(&b"abc".to_vec(), &b"ab".to_vec()));
}
