//! Micron rendering scenarios.

use reticula::page::{render_micron, Page, PageStyle};

    #[test]
    fn parses_headings_comments_and_plain_text() {
        let micron = "\
>Main Title

# this is a comment

Plain paragraph with some text.

>>Sub Heading

Second paragraph.
";
        let (title, lines) = render_micron(micron, "aabb");
        assert_eq!(title, "Main Title");
        assert_eq!(lines.len(), 4);
        assert_eq!(lines[0].style, PageStyle::Heading(1));
        assert_eq!(lines[0].text, "Main Title");
        assert_eq!(lines[1].text, "Plain paragraph with some text.");
        assert_eq!(lines[2].style, PageStyle::Heading(2));
        assert_eq!(lines[2].text, "Sub Heading");
        // Content under a sub-section is indented by one level.
        assert_eq!(lines[3].text, "  Second paragraph.");
    }

    #[test]
    fn backtick_emphasis() {
        let micron = "Text with `!bold`! and `*italics`* and `_underline`_ bits.\n";
        let (_title, lines) = render_micron(micron, "aabb");
        assert_eq!(lines.len(), 1);
        assert_eq!(lines[0].text, "Text with bold and italics and underline bits.");
        assert_eq!(lines[0].style, PageStyle::Emphasized);
    }

    #[test]
    fn extracts_micron_links() {
        let micron = "See `[home`rns://0123456789abcdef/page/index.mu] for more.\n";
        let (_title, lines) = render_micron(micron, "aabb");
        assert_eq!(lines.len(), 1);
        assert_eq!(lines[0].text, "See home for more.");
        assert_eq!(lines[0].links.len(), 1);
        assert_eq!(lines[0].links[0].label, "home");
        assert_eq!(
            lines[0].links[0].target,
            "rns://0123456789abcdef/page/index.mu"
        );
    }

    #[test]
    fn resolves_relative_links_against_source() {
        let (_title, lines) = render_micron("`[Next`/page2.mu]", "0123456789abcdef");
        assert_eq!(
            lines[0].links[0].target,
            "rns://0123456789abcdef/page2.mu"
        );
        let (_title, lines) = render_micron("`[Next`page2.mu]", "0123456789abcdef");
        assert_eq!(
            lines[0].links[0].target,
            "rns://0123456789abcdef/page2.mu"
        );
    }

    #[test]
    fn comment_and_escape() {
        let (_title, lines) = render_micron("# comment\n\\# not a comment\n", "aabb");
        assert_eq!(lines.len(), 1);
        assert_eq!(lines[0].text, "# not a comment");
    }

    #[test]
    fn literal_mode_and_tables() {
        let micron = "`=\n>Not a heading\n`=\n`t\n|Name|Value|\n|---|---|\n|A|1|\n`t\n";
        let (_title, lines) = render_micron(micron, "aabb");
        // Literal line + header row + one data row (alignment row skipped).
        assert_eq!(lines.len(), 3);
        assert!(lines.iter().all(|l| l.style != PageStyle::Heading(1)));
        assert_eq!(lines[0].text, ">Not a heading");
        assert_eq!(lines[0].style, PageStyle::Normal);
        assert_eq!(lines[1].style, PageStyle::Emphasized);
        assert_eq!(lines[1].text, "Name | Value");
        assert_eq!(lines[2].text, "A | 1");
    }

    #[test]
    fn sections_indent_content() {
        let micron = ">Top\n\nSome text.\n\n>>Sub\n\nNested text.\n";
        let (_title, lines) = render_micron(micron, "aabb");
        assert_eq!(lines[0].text, "Top");
        assert_eq!(lines[1].text, "Some text.");
        assert_eq!(lines[2].text, "Sub");
        assert!(lines[3].text.starts_with("  Nested text."));
    }

    #[test]
    fn renders_a_realistic_page() {
        let micron = "\
>Reticula News

# site announcement

Welcome to `!Reticula`! - the `_embedded`_ mesh client.

>>Latest

`t
|Version|Date|
|-------|-----|
|0.1.0  |2026-09-04|
`t

See `[the guide`/guide.mu] or `[home`rns://0123456789abcdef/index.mu].
";
        let (title, lines) = render_micron(micron, "0123456789abcdef");
        assert_eq!(title, "Reticula News");
        assert_eq!(lines[0].text, "Reticula News");
        assert!(lines[1].text.contains("Welcome to Reticula - the embedded mesh client."));
        assert!(lines[1].style == PageStyle::Emphasized);
        assert_eq!(lines[2].text, "Latest");
        assert_eq!(lines[3].text, "Version | Date");
        assert_eq!(lines[4].text, "0.1.0 | 2026-09-04");
        // The two links on the last line.
        let last = lines.last().unwrap();
        assert_eq!(last.links.len(), 2);
        assert_eq!(last.links[0].label, "the guide");
        assert_eq!(last.links[0].target, "rns://0123456789abcdef/guide.mu");
        assert_eq!(last.links[1].label, "home");
        assert_eq!(
            last.links[1].target,
            "rns://0123456789abcdef/index.mu"
        );
    }

#[test]
fn page_from_bytes_keeps_raw_and_renders() {
    let page = Page::from_bytes(b">Hello\nBody `[x`/a.mu]\n", "abcd".to_string());
    assert_eq!(page.title, "Hello");
    assert_eq!(page.source, "abcd");
    assert_eq!(page.raw, b">Hello\nBody `[x`/a.mu]\n".to_vec());
    assert_eq!(page.lines().len(), 2);
    assert_eq!(page.lines()[1].text, "Body x");
    assert_eq!(page.lines()[1].links[0].target, "rns://abcd/a.mu");
}

#[test]
fn page_from_bytes_replaces_invalid_utf8() {
    let page = Page::from_bytes(&[b'a', 0xff, b'b'], "n".to_string());
    assert_eq!(page.lines()[0].text, "a\u{fffd}b");
}

#[test]
fn nomadnetwork_scheme_becomes_rns() {
    let (_t, lines) = render_micron("`[n`nomadnetwork://aa/x.mu]", "s");
    assert_eq!(lines[0].links[0].target, "rns://aa/x.mu");
    let (_t, lines) = render_micron("`[n`http://example.org]", "s");
    assert_eq!(lines[0].links[0].target, "http://example.org");
}

#[test]
fn fields_colours_and_anchors_are_stripped() {
    let (_t, lines) = render_micron("A `Ff00red`f `<name`val> `:anchor-1 end", "s");
    assert_eq!(lines[0].text, "A red val  end");
    let (_t, lines) = render_micron("x `<broken", "s");
    assert_eq!(lines[0].text, "x ");
}

#[test]
fn unterminated_bracket_and_empty_target_are_text() {
    let (_t, lines) = render_micron("a [b c", "s");
    assert_eq!(lines[0].text, "a [b c");
    assert!(lines[0].links.is_empty());
    let (_t, lines) = render_micron("a [b`] c", "s");
    assert_eq!(lines[0].text, "a b` c");
}

#[test]
fn markdown_link_is_consumed_whole() {
    let (_t, lines) = render_micron("[home](/i.mu)", "aa");
    assert_eq!(lines[0].links[0].label, "home");
    assert_eq!(lines[0].links[0].target, "rns://aa/i.mu");
    assert_eq!(lines[0].text, "home");
    let (_t, lines) = render_micron("see [docs](/d.mu) now", "aa");
    assert_eq!(lines[0].text, "see docs now");
    assert_eq!(lines[0].links[0].target, "rns://aa/d.mu");
    // An unclosed parenthesis leaves the bracket without a target.
    let (_t, lines) = render_micron("[docs](/d.mu", "aa");
    assert_eq!(lines[0].text, "docs(/d.mu");
    assert!(lines[0].links.is_empty());
}

#[test]
fn partials_depth_reset_and_heading_levels() {
    let (title, lines) = render_micron("`{f`x}\n`{`}\n>>>>>>Deep\n<\ntext\n", "s");
    assert_eq!(lines[0].text, "[partial: f]");
    assert_eq!(lines[0].style, PageStyle::Emphasized);
    assert_eq!(lines[1].text, "[partial]");
    assert_eq!(lines[2].style, PageStyle::Heading(4));
    assert_eq!(lines[3].text, "text");
    assert_eq!(title, "Deep");
}

#[test]
fn heading_with_field_is_indented_text() {
    let (title, lines) = render_micron(">>Name: `<n`v>\n", "s");
    assert_eq!(title, "");
    assert_eq!(lines[0].text, "  Name: v");
    assert_eq!(lines[0].style, PageStyle::Normal);
}

#[test]
fn open_table_is_flushed_at_end() {
    let (_t, lines) = render_micron("`t\n|a\\|b|c|\n", "s");
    assert_eq!(lines[0].text, "a|b | c");
    assert_eq!(lines[0].style, PageStyle::Emphasized);
}

#[test]
fn crlf_lines_and_escaped_backticks() {
    let (_t, lines) = render_micron("one\r\n\\`two``three\r\n", "s");
    assert_eq!(lines[0].text, "one");
    assert_eq!(lines[1].text, "`two``three");
}
