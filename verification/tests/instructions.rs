use conductor::instructions::{intelligent_truncate, split_markdown_sections};

#[test]
fn intelligent_truncate_short() {
    let content = "Short content";
    let result = intelligent_truncate(content, 100);
    assert!(result.contains("Short content"));
}

#[test]
fn split_markdown_sections_basic() {
    let content = "# Heading 1\nContent 1\n## Heading 2\nContent 2\n### Heading 3\nContent 3";
    let sections = split_markdown_sections(content);
    assert!(sections.len() >= 2);
}

#[test]
fn split_markdown_sections_exact_pieces() {
    let content = "intro\n# A\nx\n#### not\n## B\ny";
    let sections = split_markdown_sections(content);
    assert_eq!(sections, vec!["intro\n", "# A\nx\n#### not\n", "## B\ny"]);
    assert_eq!(split_markdown_sections(""), vec![""]);
    assert_eq!(split_markdown_sections("\n# only"), vec!["# only"]);
}

#[test]
fn intelligent_truncate_cuts_two_sections() {
    let result = intelligent_truncate("# A\nabcdef", 6);
    assert_eq!(result, "# A\nab\n\n[...truncated — full file available in project root]");
}

#[test]
fn intelligent_truncate_reduces_middle_sections() {
    let middle = format!("## Mid\nfirst para\n\n{}\n", "z".repeat(300));
    let content = format!("# Top\nhead\n{middle}## End\ntail");
    let result = intelligent_truncate(&content, 200);
    assert!(result.starts_with("# Top\nhead\n"));
    assert!(result.contains("## Mid\nfirst para...\n[...section truncated]\n\n"));
    assert!(result.ends_with("## End\ntail"));
    let tight = intelligent_truncate(&content, 10);
    assert!(tight.contains("## Mid\n[...section truncated]\n\n"));
}
