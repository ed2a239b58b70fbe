use diff_libraries::render::prettify_diff;
use diff_libraries::text::{split_str, str_eq, strip_prefix_repeated, trim_str};

#[test]
fn test_prettify_diff_colours_lines() {
    let pretty = prettify_diff("-old line\n+new line\ncontext");
    assert_eq!(
        pretty,
        "<span style=\"color: #d33;\">-old line</span>\n<span style=\"color: #14866d;\">+new line</span>\ncontext"
    );
}

#[test]
fn test_prettify_diff_escapes_html() {
    // The escaping really runs: markup in the input cannot pass through.
    let pretty = prettify_diff("<script>&\"'</script>");
    assert_eq!(pretty, "&lt;script&gt;&amp;&quot;&#x27;&lt;&#x2F;script&gt;");
}

#[test]
fn test_prettify_diff_empty() {
    assert_eq!(prettify_diff(""), "");
}

#[test]
fn test_trim_str() {
    assert_eq!(trim_str("  spaced out \t\n"), "spaced out");
    assert_eq!(trim_str(""), "");
    assert_eq!(trim_str(" \t "), "");
    assert_eq!(trim_str("bare"), "bare");
}

#[test]
fn test_split_str() {
    let parts = split_str("a|bb||c", '|');
    assert_eq!(parts, vec!["a", "bb", "", "c"]);
    let single = split_str("no separator", '|');
    assert_eq!(single, vec!["no separator"]);
}

#[test]
fn test_str_helpers() {
    assert!(str_eq("same", "same"));
    assert!(!str_eq("same", "sane"));
    assert_eq!(strip_prefix_repeated("ababrest", "ab"), "rest");
    assert_eq!(strip_prefix_repeated("rest", "ab"), "rest");
}
