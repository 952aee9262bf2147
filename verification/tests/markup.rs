use translate_bot::markup::{
    html_to_plain, inline_html, render_html, strip_mx_reply, strip_reply_fallback,
};

#[test]
fn render_html_bold_italic() {
    let html = render_html("This is **bold** and *italic*");
    assert!(html.contains("<strong>bold</strong>"));
    assert!(html.contains("<em>italic</em>"));
}

#[test]
fn render_html_code_block_preserved() {
    let html = render_html("```rust\nlet x = 5;\n```");
    assert!(html.contains("let x = 5;"));
    assert!(html.contains("<code"));
}

#[test]
fn render_html_inline_code_preserved() {
    let html = render_html("Run `cargo build` to compile");
    assert!(html.contains("<code>cargo build</code>"));
}

#[test]
fn render_html_knows_the_enabled_extensions() {
    assert_eq!(render_html("~~gone~~"), "<p><del>gone</del></p>\n");
    assert!(render_html("| a |\n|---|\n| b |").contains("<table>"));
    assert!(render_html("- [x] done").contains("type=\"checkbox\""));
    assert!(render_html("note[^1]\n\n[^1]: text").contains("footnote"));
}

#[test]
fn html_to_plain_strips_tags() {
    let plain = html_to_plain("<p><strong>Hello</strong> world</p>");
    assert_eq!(plain, "Hello world");
}

#[test]
fn html_to_plain_newlines_on_paragraphs() {
    let plain = html_to_plain("<p>First</p><p>Second</p>");
    assert!(plain.contains("First"));
    assert!(plain.contains("Second"));
    // paragraphs separated by newlines
    assert!(plain.contains('\n'));
}

#[test]
fn html_to_plain_list_items() {
    let plain = html_to_plain("<ul><li>Alpha</li><li>Beta</li></ul>");
    assert!(plain.contains("Alpha"));
    assert!(plain.contains("Beta"));
}

#[test]
fn html_to_plain_empty() {
    assert!(html_to_plain("").is_empty());
    assert!(html_to_plain("<p></p>").is_empty());
}

#[test]
fn html_to_plain_breaks_lines_exactly() {
    assert_eq!(
        html_to_plain("<p>a</p><p>b</p>c<br>d<br/>e<br />f<blockquote>q</blockquote>g"),
        "a\n\nb\n\nc\nd\ne\nfq\ng"
    );
    assert_eq!(html_to_plain("<ul><li>x</li><li>y</li></ul>"), "x\ny");
}

#[test]
fn html_to_plain_ends_a_line_at_every_block() {
    assert_eq!(html_to_plain("<div>a</div><div>b</div>"), "a\nb");
    assert_eq!(html_to_plain("<h1>T</h1><h6>U</h6>y"), "T\nU\ny");
    for tag in [
        "address", "article", "aside", "blockquote", "center", "dd", "details", "dialog", "dir",
        "div", "dl", "dt", "fieldset", "figcaption", "figure", "footer", "form", "h1", "h2", "h3",
        "h4", "h5", "h6", "header", "hgroup", "legend", "li", "main", "menu", "nav", "ol", "pre",
        "search", "section", "summary", "table", "tbody", "tfoot", "thead", "tr", "ul",
    ] {
        let html = format!("<{tag}>a</{tag}><{tag}>b</{tag}>");
        assert_eq!(html_to_plain(&html), "a\nb", "{html}");
    }
    assert_eq!(html_to_plain("<p>a</p><p>b</p>"), "a\n\nb");
    assert_eq!(html_to_plain("<b>a</b><span>b</span>"), "ab");
}

#[test]
fn html_to_plain_without_entities_has_no_angle_brackets() {
    for html in ["a > b", "<<b>>", "x <unclosed", "> <i>y</i> <", "<p>a</p>"] {
        let plain = html_to_plain(html);
        assert!(!plain.contains('<') && !plain.contains('>'), "{html}: {plain}");
    }
    assert_eq!(html_to_plain("a > b"), "a  b");
}

#[test]
fn html_to_plain_decodes_amp_first() {
    assert_eq!(html_to_plain("&amp;lt; &quot;x&quot; &#39;y&#39;"), "< \"x\" 'y'");
}

#[test]
fn render_and_strip_roundtrip() {
    let plain = html_to_plain(&render_html("Hello **world**"));
    assert_eq!(plain, "Hello world");
}

#[test]
fn html_to_plain_decodes_entities() {
    let plain = html_to_plain(&render_html("a & b < c > d"));
    assert_eq!(plain, "a & b < c > d");
}

#[test]
fn inline_html_collapses_paragraphs() {
    assert_eq!(inline_html(" <p>a</p>\n<p>b</p><p>c</p>\n"), "a<br>b<br>c");
    assert_eq!(inline_html("<p>only</p>"), "only");
    assert_eq!(inline_html("no tags"), "no tags");
}

#[test]
fn inline_html_breaks_once_between_paragraphs() {
    assert_eq!(inline_html("<p>a</p>\n\n<p>b</p>"), "a<br>b");
    assert_eq!(inline_html("<p>a</p> \r\n\t<p>b</p>  <p>c</p>"), "a<br>b<br>c");
    assert_eq!(inline_html("<p>a</p><p></p><p>b</p>"), "a<br><br>b");
    assert_eq!(inline_html("<p>a</p> x <p>b</p>"), "a x b");
    assert_eq!(inline_html("</p><p>"), "<br>");
}

#[test]
fn strip_mx_reply_removes_wrapper() {
    let html = "<mx-reply><blockquote>quoted</blockquote></mx-reply>Actual message";
    assert_eq!(strip_mx_reply(html), "Actual message");
}

#[test]
fn strip_mx_reply_passthrough_when_no_wrapper() {
    let html = "<p>Normal message</p>";
    assert_eq!(strip_mx_reply(html), html);
}

#[test]
fn strip_mx_reply_trims_leading_whitespace_after_removal() {
    let html = "<mx-reply><blockquote>q</blockquote></mx-reply>\n\n<p>message</p>";
    assert_eq!(strip_mx_reply(html), "<p>message</p>");
}

#[test]
fn strip_mx_reply_keeps_an_unclosed_block() {
    assert_eq!(strip_mx_reply("<mx-reply>open"), "<mx-reply>open");
    assert_eq!(strip_mx_reply("</mx-reply><mx-reply>open"), "</mx-reply><mx-reply>open");
}

#[test]
fn strip_mx_reply_returns_the_html_around_the_block() {
    assert_eq!(strip_mx_reply("Hi <mx-reply>q</mx-reply>there"), "Hi there");
    assert_eq!(strip_mx_reply("pre <mx-reply>q</mx-reply> \n post "), "pre post ");
    assert_eq!(
        strip_mx_reply("a<mx-reply>q</mx-reply>b<mx-reply>r</mx-reply>"),
        "ab<mx-reply>r</mx-reply>"
    );
}

#[test]
fn blockquote_strip_removes_leading_fallback_block() {
    let raw = "> Alice said something\n> more quoted\n\nActual reply text";
    let text: String = strip_reply_fallback(raw);
    assert_eq!(text.trim(), "Actual reply text");
}

#[test]
fn blockquote_strip_preserves_mid_message_blockquotes() {
    // A message that starts normally but has a blockquote mid-text should be untouched
    let raw = "Here is my point:\n> some quote\nAnd my conclusion";
    assert_eq!(strip_reply_fallback(raw), raw);
}

#[test]
fn blockquote_strip_passthrough_when_no_leading_quote() {
    let raw = "Normal message without quotes";
    assert_eq!(strip_reply_fallback(raw), raw);
}

#[test]
fn blockquote_strip_removes_leading_reply_fallback() {
    let raw = "> Alice: original message\n\nActual reply text";
    assert_eq!(strip_reply_fallback(raw), "Actual reply text");
}

#[test]
fn blockquote_strip_handles_carriage_returns_and_later_quotes() {
    assert_eq!(strip_reply_fallback("> q\r\n\r\nA\r\nB"), "A\nB");
    assert_eq!(strip_reply_fallback("> q\n\nA\n> kept\n"), "A\n> kept");
    assert_eq!(strip_reply_fallback("> only quotes\n> here"), "");
    assert_eq!(strip_reply_fallback(">no space"), ">no space");
}

#[test]
fn angle_brackets_of_plain_text_come_from_entities() {
    assert_eq!(html_to_plain("<i>a &lt;b&gt;</i>"), "a <b>");
    assert_eq!(html_to_plain("1 &amp;lt; 2 &gt"), "1 < 2 &gt");
    assert_eq!(html_to_plain("a & b > c"), "a & b  c");
}
