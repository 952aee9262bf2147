//! Matrix message markup: Markdown rendering, HTML to plain text, and the
//! reply fallbacks that clients put in front of a message.
use vstd::prelude::*;

use pulldown_cmark::html::push_html;
use pulldown_cmark::{Options, Parser};

use crate::compose::{join, joined, law_joining};
use crate::text::{
    begins_with, contains, find, find_from, from_chars, from_chars_between, front_bound, in_class,
    law_begins_with, law_lines, law_trimming, lemma_find_is_first_occurrence, lemma_replaced_behind,
    lines, occurs_at, push_all, replace, replaced, rows, same_text, split_lines, starts_with, texts,
    to_chars, trim, trim_chars, trim_front_from, trimmed, trimmed_back, trimmed_front, CharClass,
};

verus! {

// ── Markdown ────────────────────────────────────────────────────────────────
/// The HTML that `pulldown_cmark` writes for a Markdown text under the parser
/// options with the given bits.
pub uninterp spec fn cmark_html(markdown: Seq<char>, option_bits: u32) -> Seq<char>;

/// Calls `pulldown_cmark::html::push_html` on the events of
/// `pulldown_cmark::Parser::new_ext`, starting from an empty string. The HTML
/// depends on the Markdown text and on the option bits alone.
#[verifier::external_body]
fn push_cmark_html(markdown: &str, option_bits: u32) -> (html: String)
    ensures
        html@ == cmark_html(markdown@, option_bits),
{
    let mut html = String::new();
    push_html(&mut html, Parser::new_ext(markdown, Options::from_bits_truncate(option_bits)));
    html
}

/// Tables, footnotes, strikethrough and task lists: bits 1 to 4 of the parser
/// options.
pub const RENDER_OPTIONS: u32 = 0x1e;

/// `markdown` as HTML, with tables, footnotes, strikethrough and task lists.
pub fn render_html(markdown: &str) -> (html: String)
    ensures
        html@ == cmark_html(markdown@, RENDER_OPTIONS),
{
    push_cmark_html(markdown, RENDER_OPTIONS)
}

// ── HTML ────────────────────────────────────────────────────────────────────
/// What follows the break between two paragraphs at the front of `s`: the end of
/// one, any white space, and the start of the next. `None` where there is no
/// such break.
pub open spec fn after_paragraph_break(s: Seq<char>) -> Option<Seq<char>> {
    if begins_with(s, "</p>"@) {
        let next = trimmed_front(s.skip("</p>"@.len() as int), CharClass::Whitespace);
        if begins_with(next, "<p>"@) {
            Some(next.skip("<p>"@.len() as int))
        } else {
            None
        }
    } else {
        None
    }
}

/// What follows a break between two paragraphs is shorter than what begins with
/// it.
pub proof fn lemma_after_paragraph_break_is_shorter(s: Seq<char>)
    ensures
        after_paragraph_break(s) matches Some(rest) ==> rest.len() < s.len(),
{
    reveal_strlit("</p>");
    reveal_strlit("<p>");
    if begins_with(s, "</p>"@) {
        lemma_trimmed_front_is_no_longer(s.skip(4), CharClass::Whitespace);
    }
}

proof fn lemma_trimmed_front_is_no_longer(s: Seq<char>, class: CharClass)
    ensures
        trimmed_front(s, class).len() <= s.len(),
    decreases s.len(),
{
    if s.len() > 0 {
        lemma_trimmed_front_is_no_longer(s.skip(1), class);
    }
}

/// `s` with every break between two paragraphs turned into a line break.
pub open spec fn paragraphs_joined(s: Seq<char>) -> Seq<char>
    decreases s.len(),
{
    if s.len() == 0 {
        s
    } else {
        match after_paragraph_break(s) {
            Some(rest) => {
                proof {
                    lemma_after_paragraph_break_is_shorter(s);
                }
                "<br>"@ + paragraphs_joined(rest)
            },
            None => seq![s[0]] + paragraphs_joined(s.skip(1)),
        }
    }
}

/// `html` with its paragraph tags turned into line breaks between paragraphs.
pub open spec fn inlined(html: Seq<char>) -> Seq<char> {
    let joined = paragraphs_joined(trimmed(html));
    trimmed(replaced(replaced(joined, "</p>"@, ""@), "<p>"@, ""@))
}

/// The position behind the break between two paragraphs that stands in `v` at
/// `at`.
fn paragraph_break_end(v: &[char], at: usize) -> (r: Option<usize>)
    requires
        at <= v@.len(),
    ensures
        match (r, after_paragraph_break(v@.skip(at as int))) {
            (Some(end), Some(rest)) => at < end <= v@.len() && rest == v@.skip(end as int),
            (None, None) => true,
            _ => false,
        },
{
    proof {
        reveal_strlit("</p>");
        reveal_strlit("<p>");
    }
    let close = to_chars("</p>");
    let open = to_chars("<p>");
    let n: usize = v.len();
    if !occurs_at(v, at, &close) {
        return None;
    }
    let behind: usize = at + close.len();
    let next: usize = front_bound(v, behind, n, CharClass::Whitespace);
    assert(v@.subrange(behind as int, n as int) =~= v@.skip(at as int).skip(4));
    assert(v@.subrange(next as int, n as int) =~= v@.skip(next as int));
    if !occurs_at(v, next, &open) {
        return None;
    }
    assert(v@.skip(next as int).skip(3) =~= v@.skip(next + 3));
    Some(next + open.len())
}

fn join_paragraphs(v: &[char]) -> (out: Vec<char>)
    ensures
        out@ == paragraphs_joined(v@),
{
    let br = to_chars("<br>");
    let mut out: Vec<char> = Vec::new();
    let mut i: usize = 0;
    assert(v@.skip(0) =~= v@);
    while i < v.len()
        invariant
            i <= v@.len(),
            br@ == "<br>"@,
            paragraphs_joined(v@) == out@ + paragraphs_joined(v@.skip(i as int)),
        decreases v@.len() - i,
    {
        let ghost rest = v@.skip(i as int);
        let ghost before = out@;
        match paragraph_break_end(v, i) {
            Some(end) => {
                push_all(&mut out, &br);
                assert(before + (br@ + paragraphs_joined(v@.skip(end as int))) =~= out@
                    + paragraphs_joined(v@.skip(end as int)));
                i = end;
            },
            None => {
                out.push(v[i]);
                assert(rest.skip(1) =~= v@.skip(i + 1));
                assert(before + (seq![rest[0]] + paragraphs_joined(v@.skip(i + 1))) =~= out@
                    + paragraphs_joined(v@.skip(i + 1)));
                i = i + 1;
            },
        }
    }
    assert(v@.skip(i as int) =~= Seq::<char>::empty());
    assert(out@ + Seq::<char>::empty() =~= out@);
    out
}

/// Collapses block-level `<p>` tags into inline content that fits in a single
/// Matrix message line. Breaks between paragraphs become `<br>`.
pub fn inline_html(html: &str) -> (r: String)
    ensures
        r@ == inlined(html@),
{
    proof {
        reveal_strlit("</p>");
        reveal_strlit("<p>");
    }
    let t = to_chars(trim(html).as_str());
    let joined = join_paragraphs(&t);
    let a = replace(&joined, "</p>", "");
    let b = replace(&a, "<p>", "");
    trim_chars(&b)
}

/// Whether `name` is that of a block-level element other than the paragraph.
pub open spec fn block_element(name: Seq<char>) -> bool {
    ||| name == "address"@
    ||| name == "article"@
    ||| name == "aside"@
    ||| name == "blockquote"@
    ||| name == "center"@
    ||| name == "dd"@
    ||| name == "details"@
    ||| name == "dialog"@
    ||| name == "dir"@
    ||| name == "div"@
    ||| name == "dl"@
    ||| name == "dt"@
    ||| name == "fieldset"@
    ||| name == "figcaption"@
    ||| name == "figure"@
    ||| name == "footer"@
    ||| name == "form"@
    ||| name == "h1"@
    ||| name == "h2"@
    ||| name == "h3"@
    ||| name == "h4"@
    ||| name == "h5"@
    ||| name == "h6"@
    ||| name == "header"@
    ||| name == "hgroup"@
    ||| name == "legend"@
    ||| name == "li"@
    ||| name == "main"@
    ||| name == "menu"@
    ||| name == "nav"@
    ||| name == "ol"@
    ||| name == "pre"@
    ||| name == "search"@
    ||| name == "section"@
    ||| name == "summary"@
    ||| name == "table"@
    ||| name == "tbody"@
    ||| name == "tfoot"@
    ||| name == "thead"@
    ||| name == "tr"@
    ||| name == "ul"@
}

/// The length of the tag at the front of `s` where it is the closing tag of a
/// block-level element other than the paragraph.
pub open spec fn block_end(s: Seq<char>) -> Option<int> {
    if begins_with(s, "</"@) {
        match find(s.skip(2), ">"@) {
            Some(n) => if block_element(s.subrange(2, 2 + n)) {
                Some(n + 3)
            } else {
                None
            },
            None => None,
        }
    } else {
        None
    }
}

/// The tag at the front of `s` where it ends or breaks a line: its length, and
/// the line feeds that take its place, two for the end of a paragraph.
pub open spec fn line_end(s: Seq<char>) -> Option<(int, Seq<char>)> {
    if begins_with(s, "</p>"@) {
        Some((4, "\n\n"@))
    } else if begins_with(s, "<br>"@) {
        Some((4, "\n"@))
    } else if begins_with(s, "<br/>"@) {
        Some((5, "\n"@))
    } else if begins_with(s, "<br />"@) {
        Some((6, "\n"@))
    } else {
        match block_end(s) {
            Some(n) => Some((n, "\n"@)),
            None => None,
        }
    }
}

/// A tag that ends or breaks a line has a length, and fits in its text.
pub proof fn lemma_line_end_fits(s: Seq<char>)
    ensures
        line_end(s) matches Some((n, _)) ==> 0 < n <= s.len(),
{
    reveal_strlit("</p>");
    reveal_strlit("<br>");
    reveal_strlit("<br/>");
    reveal_strlit("<br />");
    reveal_strlit("</");
    reveal_strlit(">");
    if begins_with(s, "</"@) {
        lemma_find_is_first_occurrence(s.skip(2), ">"@);
    }
}

/// `html` with the tags that end or break a line turned into line feeds.
pub open spec fn broken_into_lines(html: Seq<char>) -> Seq<char>
    decreases html.len(),
{
    if html.len() == 0 {
        html
    } else {
        match line_end(html) {
            Some((n, feeds)) => {
                proof {
                    lemma_line_end_fits(html);
                }
                feeds + broken_into_lines(html.skip(n))
            },
            None => seq![html[0]] + broken_into_lines(html.skip(1)),
        }
    }
}

/// `s` without its tags: what stands from a `<` to the next `>`, both
/// included, and every other `>`. `in_tag` says whether a tag is open.
pub open spec fn without_tags(s: Seq<char>, in_tag: bool) -> Seq<char>
    decreases s.len(),
{
    if s.len() == 0 {
        seq![]
    } else if s[0] == '<' {
        without_tags(s.skip(1), true)
    } else if s[0] == '>' {
        without_tags(s.skip(1), false)
    } else if in_tag {
        without_tags(s.skip(1), true)
    } else {
        seq![s[0]] + without_tags(s.skip(1), false)
    }
}

/// `s` with the five basic HTML entities decoded, `&amp;` first.
pub open spec fn entities_decoded(s: Seq<char>) -> Seq<char> {
    let a = replaced(s, "&amp;"@, "&"@);
    let b = replaced(a, "&lt;"@, "<"@);
    let c = replaced(b, "&gt;"@, ">"@);
    let d = replaced(c, "&quot;"@, "\""@);
    replaced(d, "&#39;"@, "'"@)
}

/// `html` broken into lines, without its tags, and trimmed.
pub open spec fn bare_text(html: Seq<char>) -> Seq<char> {
    trimmed(without_tags(broken_into_lines(html), false))
}

/// The plain text of `html`.
pub open spec fn plain_text(html: Seq<char>) -> Seq<char> {
    entities_decoded(bare_text(html))
}

fn is_block_element(name: &str) -> (r: bool)
    ensures
        r == block_element(name@),
{
    same_text(name, "address")
        || same_text(name, "article")
        || same_text(name, "aside")
        || same_text(name, "blockquote")
        || same_text(name, "center")
        || same_text(name, "dd")
        || same_text(name, "details")
        || same_text(name, "dialog")
        || same_text(name, "dir")
        || same_text(name, "div")
        || same_text(name, "dl")
        || same_text(name, "dt")
        || same_text(name, "fieldset")
        || same_text(name, "figcaption")
        || same_text(name, "figure")
        || same_text(name, "footer")
        || same_text(name, "form")
        || same_text(name, "h1")
        || same_text(name, "h2")
        || same_text(name, "h3")
        || same_text(name, "h4")
        || same_text(name, "h5")
        || same_text(name, "h6")
        || same_text(name, "header")
        || same_text(name, "hgroup")
        || same_text(name, "legend")
        || same_text(name, "li")
        || same_text(name, "main")
        || same_text(name, "menu")
        || same_text(name, "nav")
        || same_text(name, "ol")
        || same_text(name, "pre")
        || same_text(name, "search")
        || same_text(name, "section")
        || same_text(name, "summary")
        || same_text(name, "table")
        || same_text(name, "tbody")
        || same_text(name, "tfoot")
        || same_text(name, "thead")
        || same_text(name, "tr")
        || same_text(name, "ul")
}

/// The position behind the tag that stands in `v` at `at`, and what takes its
/// place, where it ends or breaks a line.
fn line_end_at(v: &[char], at: usize) -> (r: Option<(usize, &'static str)>)
    requires
        at <= v@.len(),
    ensures
        match (r, line_end(v@.skip(at as int))) {
            (Some((end, feeds)), Some((n, wanted))) => {
                &&& at < end <= v@.len()
                &&& end == at + n
                &&& feeds@ == wanted
            },
            (None, None) => true,
            _ => false,
        },
{
    proof {
        reveal_strlit("</p>");
        reveal_strlit("<br>");
        reveal_strlit("<br/>");
        reveal_strlit("<br />");
        reveal_strlit("</");
        reveal_strlit(">");
        lemma_line_end_fits(v@.skip(at as int));
    }
    let n: usize = v.len();
    assert(v@.skip(at as int).len() == n - at);
    if occurs_at(v, at, &to_chars("</p>")) {
        return Some((at + 4, "\n\n"));
    }
    if occurs_at(v, at, &to_chars("<br>")) {
        return Some((at + 4, "\n"));
    }
    if occurs_at(v, at, &to_chars("<br/>")) {
        return Some((at + 5, "\n"));
    }
    if occurs_at(v, at, &to_chars("<br />")) {
        return Some((at + 6, "\n"));
    }
    if !occurs_at(v, at, &to_chars("</")) {
        return None;
    }
    assert(v@.skip(at as int).skip(2) =~= v@.skip(at + 2));
    match find_from(v, at + 2, &to_chars(">")) {
        Some(close) => {
            let name = from_chars_between(v, at + 2, close);
            assert(name@ =~= v@.skip(at as int).subrange(2, close - at));
            if is_block_element(name.as_str()) {
                Some((close + 1, "\n"))
            } else {
                None
            }
        },
        None => None,
    }
}

fn break_into_lines(html: &str) -> (out: Vec<char>)
    ensures
        out@ == broken_into_lines(html@),
{
    let v = to_chars(html);
    let mut out: Vec<char> = Vec::new();
    let mut i: usize = 0;
    assert(v@.skip(0) =~= v@);
    while i < v.len()
        invariant
            i <= v@.len(),
            broken_into_lines(v@) == out@ + broken_into_lines(v@.skip(i as int)),
        decreases v@.len() - i,
    {
        let ghost rest = v@.skip(i as int);
        let ghost before = out@;
        match line_end_at(&v, i) {
            Some((end, feeds)) => {
                push_all(&mut out, &to_chars(feeds));
                assert(rest.skip(end - i) =~= v@.skip(end as int));
                assert(before + (feeds@ + broken_into_lines(v@.skip(end as int))) =~= out@
                    + broken_into_lines(v@.skip(end as int)));
                i = end;
            },
            None => {
                out.push(v[i]);
                assert(rest.skip(1) =~= v@.skip(i + 1));
                assert(before + (seq![rest[0]] + broken_into_lines(v@.skip(i + 1))) =~= out@
                    + broken_into_lines(v@.skip(i + 1)));
                i = i + 1;
            },
        }
    }
    assert(v@.skip(i as int) =~= Seq::<char>::empty());
    assert(out@ + Seq::<char>::empty() =~= out@);
    out
}

fn drop_tags(s: &[char]) -> (out: Vec<char>)
    ensures
        out@ == without_tags(s@, false),
{
    let mut out: Vec<char> = Vec::new();
    let mut in_tag: bool = false;
    let mut i: usize = 0;
    assert(s@.skip(0) =~= s@);
    assert(out@ + without_tags(s@, false) =~= without_tags(s@, false));
    while i < s.len()
        invariant
            i <= s@.len(),
            without_tags(s@, false) == out@ + without_tags(s@.skip(i as int), in_tag),
        decreases s@.len() - i,
    {
        let ghost rest = s@.skip(i as int);
        let ghost before = out@;
        assert(rest.skip(1) =~= s@.skip(i + 1));
        let c = s[i];
        if c == '<' {
            in_tag = true;
        } else if c == '>' {
            in_tag = false;
        } else if !in_tag {
            out.push(c);
            assert(before + (seq![c] + without_tags(s@.skip(i + 1), false)) =~= out@
                + without_tags(s@.skip(i + 1), false));
        }
        i = i + 1;
    }
    assert(s@.skip(i as int) =~= Seq::<char>::empty());
    assert(out@ + Seq::<char>::empty() =~= out@);
    out
}

fn decode_entities(s: &str) -> (r: String)
    ensures
        r@ == entities_decoded(s@),
{
    proof {
        reveal_strlit("&amp;");
        reveal_strlit("&lt;");
        reveal_strlit("&gt;");
        reveal_strlit("&quot;");
        reveal_strlit("&#39;");
    }
    let v = to_chars(s);
    let a = replace(&v, "&amp;", "&");
    let b = replace(&a, "&lt;", "<");
    let c = replace(&b, "&gt;", ">");
    let d = replace(&c, "&quot;", "\"");
    let e = replace(&d, "&#39;", "'");
    from_chars(&e)
}

/// Strips HTML tags to produce the plain-text fallback of a Matrix `body`.
/// Block-level closing tags are replaced with line feeds for readability.
pub fn html_to_plain(html: &str) -> (r: String)
    ensures
        r@ == plain_text(html@),
{
    let broken = break_into_lines(html);
    let bare = drop_tags(&broken);
    let inner = trim_chars(&bare);
    decode_entities(inner.as_str())
}

// ── Reply fallbacks ─────────────────────────────────────────────────────────
/// `html` without its first `<mx-reply>` block and the white space that follows
/// it, or `html` itself where there is no complete block.
pub open spec fn without_mx_reply(html: Seq<char>) -> Seq<char> {
    match find(html, "<mx-reply>"@) {
        Some(start) => match find(html.skip(start), "</mx-reply>"@) {
            Some(rel_end) => html.take(start) + trimmed_front(
                html.skip(start + rel_end + "</mx-reply>"@.len()),
                CharClass::Whitespace,
            ),
            None => html,
        },
        None => html,
    }
}

/// Strips the `<mx-reply>…</mx-reply>` fallback block that Matrix clients
/// prepend to `formatted_body` when a message is a reply. Returns the remaining
/// HTML.
pub fn strip_mx_reply(html: &str) -> (r: String)
    ensures
        r@ == without_mx_reply(html@),
{
    let v = to_chars(html);
    let open = to_chars("<mx-reply>");
    let close = to_chars("</mx-reply>");
    let n: usize = v.len();
    assert(v@.skip(0) =~= v@);
    if let Some(start) = find_from(&v, 0, &open) {
        if let Some(end) = find_from(&v, start, &close) {
            assert(end + close@.len() <= n);
            let mut rest = from_chars_between(&v, 0, start);
            assert(v@.subrange(0, start as int) =~= v@.take(start as int));
            rest.append(trim_front_from(&v, end + close.len()).as_str());
            return rest;
        }
    }
    html.to_owned()
}

/// `ls` without the quoted lines at its front.
pub open spec fn after_quoted(ls: Seq<Seq<char>>) -> Seq<Seq<char>>
    decreases ls.len(),
{
    if ls.len() > 0 && begins_with(ls[0], "> "@) {
        after_quoted(ls.skip(1))
    } else {
        ls
    }
}

/// `ls` without the blank lines at its front.
pub open spec fn after_blank(ls: Seq<Seq<char>>) -> Seq<Seq<char>>
    decreases ls.len(),
{
    if ls.len() > 0 && trimmed(ls[0]).len() == 0 {
        after_blank(ls.skip(1))
    } else {
        ls
    }
}

/// `raw` without the reply fallback at its front.
pub open spec fn without_reply_fallback(raw: Seq<char>) -> Seq<char> {
    if begins_with(raw, "> "@) {
        joined(after_blank(after_quoted(lines(raw))), "\n"@)
    } else {
        raw
    }
}

/// Strips the leading Matrix reply fallback from a plain-text body: the
/// consecutive lines that begin with `> ` at the top and the blank lines after
/// them. Only the top block is removed, so quotations later in the message are
/// preserved.
pub fn strip_reply_fallback(raw: &str) -> (r: String)
    ensures
        r@ == without_reply_fallback(raw@),
{
    if !starts_with(raw, "> ") {
        return raw.to_owned();
    }
    let v = to_chars(raw);
    let all = split_lines(&v);
    let mark = to_chars("> ");
    let mut i: usize = 0;
    let ghost ls = rows(all@);
    assert(ls.skip(0) =~= ls);
    while i < all.len() && occurs_at(&all[i], 0, &mark)
        invariant
            i <= all@.len(),
            ls == rows(all@),
            mark@ == "> "@,
            after_quoted(ls) == after_quoted(ls.skip(i as int)),
        decreases all@.len() - i,
    {
        assert(all@[i as int]@.skip(0) =~= all@[i as int]@);
        assert(ls.skip(i as int).skip(1) =~= ls.skip(i + 1));
        i = i + 1;
    }
    proof {
        if i < all@.len() {
            assert(all@[i as int]@.skip(0) =~= all@[i as int]@);
        }
        assert(after_quoted(ls) == ls.skip(i as int));
    }
    while i < all.len() && trim_chars(&all[i]).as_str().is_empty()
        invariant
            i <= all@.len(),
            ls == rows(all@),
            after_blank(after_quoted(ls)) == after_blank(ls.skip(i as int)),
        decreases all@.len() - i,
    {
        assert(ls.skip(i as int).skip(1) =~= ls.skip(i + 1));
        i = i + 1;
    }
    let mut kept: Vec<String> = Vec::new();
    let mut j: usize = i;
    while j < all.len()
        invariant
            i <= j <= all@.len(),
            ls == rows(all@),
            texts(kept@) == ls.subrange(i as int, j as int),
        decreases all@.len() - j,
    {
        let ghost before = texts(kept@);
        kept.push(from_chars(&all[j]));
        assert(texts(kept@) =~= before.push(ls[j as int]));
        assert(ls.subrange(i as int, j + 1) =~= ls.subrange(i as int, j as int).push(ls[j as int]));
        j = j + 1;
    }
    assert(ls.subrange(i as int, j as int) =~= ls.skip(i as int));
    join(&kept, "\n")
}

// ── Laws ────────────────────────────────────────────────────────────────────
proof fn lemma_replaced_adds_none(s: Seq<char>, p: Seq<char>, r: Seq<char>, c: char)
    requires
        !s.contains(c),
        !r.contains(c),
    ensures
        !replaced(s, p, r).contains(c),
    decreases s.len(),
{
    if s.len() > 0 && p.len() > 0 {
        let out = replaced(s, p, r);
        if begins_with(s, p) {
            let t = s.skip(p.len() as int);
            assert(!t.contains(c)) by {
                if t.contains(c) {
                    let i = choose|i: int| 0 <= i < t.len() && t[i] == c;
                    assert(s[i + p.len()] == c);
                }
            }
            lemma_replaced_adds_none(t, p, r, c);
            let rest = replaced(t, p, r);
            if out.contains(c) {
                let i = choose|i: int| 0 <= i < out.len() && out[i] == c;
                if i < r.len() {
                    assert(r[i] == c);
                } else {
                    assert(rest[i - r.len()] == c);
                }
            }
        } else {
            let t = s.skip(1);
            assert(!t.contains(c)) by {
                if t.contains(c) {
                    let i = choose|i: int| 0 <= i < t.len() && t[i] == c;
                    assert(s[i + 1] == c);
                }
            }
            lemma_replaced_adds_none(t, p, r, c);
            let rest = replaced(t, p, r);
            if out.contains(c) {
                let i = choose|i: int| 0 <= i < out.len() && out[i] == c;
                if i == 0 {
                    assert(s[0] == c);
                } else {
                    assert(rest[i - 1] == c);
                }
            }
        }
    }
}

/// Replacing a pattern leaves a character that does not stand in it.
proof fn lemma_replaced_keeps(s: Seq<char>, p: Seq<char>, r: Seq<char>, c: char)
    requires
        s.contains(c),
        !p.contains(c),
    ensures
        replaced(s, p, r).contains(c),
    decreases s.len(),
{
    if p.len() > 0 {
        let k = choose|k: int| 0 <= k < s.len() && s[k] == c;
        let out = replaced(s, p, r);
        if begins_with(s, p) {
            let t = s.skip(p.len() as int);
            if k < p.len() {
                assert(s.take(p.len() as int)[k] == c);
            }
            assert(t[k - p.len()] == c);
            lemma_replaced_keeps(t, p, r, c);
            let rest = replaced(t, p, r);
            let i = choose|i: int| 0 <= i < rest.len() && rest[i] == c;
            assert(out[r.len() + i] == c);
        } else if k == 0 {
            assert(out[0] == c);
        } else {
            let t = s.skip(1);
            assert(t[k - 1] == c);
            lemma_replaced_keeps(t, p, r, c);
            let rest = replaced(t, p, r);
            let i = choose|i: int| 0 <= i < rest.len() && rest[i] == c;
            assert(out[1 + i] == c);
        }
    }
}

/// Replacing a pattern neither adds nor takes away a character that stands
/// neither in it nor in its replacement.
proof fn lemma_replaced_either(s: Seq<char>, p: Seq<char>, r: Seq<char>, c: char)
    requires
        !p.contains(c),
        !r.contains(c),
    ensures
        replaced(s, p, r).contains(c) <==> s.contains(c),
{
    if s.contains(c) {
        lemma_replaced_keeps(s, p, r, c);
    } else {
        lemma_replaced_adds_none(s, p, r, c);
    }
}

/// Where a pattern occurs, its replacement comes in; where it does not, nothing
/// changes.
proof fn lemma_replaced_where_found(s: Seq<char>, p: Seq<char>, r: Seq<char>, c: char)
    requires
        p.len() > 0,
        r.len() == 1,
        r[0] == c,
    ensures
        contains(s, p) ==> replaced(s, p, r).contains(c),
        !contains(s, p) ==> replaced(s, p, r) == s,
    decreases s.len(),
{
    if s.len() > 0 {
        let out = replaced(s, p, r);
        if begins_with(s, p) {
            assert(out[0] == c);
        } else {
            let t = s.skip(1);
            lemma_replaced_where_found(t, p, r, c);
            let rest = replaced(t, p, r);
            if contains(s, p) {
                let i = choose|i: int| 0 <= i < rest.len() && rest[i] == c;
                assert(out[1 + i] == c);
            } else {
                assert(seq![s[0]] + t =~= s);
            }
        }
    }
}

/// What decoding `&lt;` does to a text that begins with none of it.
proof fn lemma_lt_decoded_front(s: Seq<char>)
    requires
        s.len() > 0,
        s[0] != '&',
    ensures
        replaced(s, "&lt;"@, "<"@) == seq![s[0]] + replaced(s.skip(1), "&lt;"@, "<"@),
{
    reveal_strlit("&lt;");
    if begins_with(s, "&lt;"@) {
        assert(s.take(4)[0] == s[0]);
    }
}

/// Whether `s` begins with `&gt;`, letter by letter.
spec fn at_gt(s: Seq<char>) -> bool {
    s.len() >= 4 && s[0] == '&' && s[1] == 'g' && s[2] == 't' && s[3] == ';'
}

proof fn lemma_at_gt(s: Seq<char>)
    ensures
        begins_with(s, "&gt;"@) <==> at_gt(s),
{
    reveal_strlit("&gt;");
    if begins_with(s, "&gt;"@) {
        let t = s.take(4);
        assert(t[0] == s[0] && t[1] == s[1] && t[2] == s[2] && t[3] == s[3]);
    }
    if at_gt(s) {
        assert(s.take(4) =~= "&gt;"@);
    }
}

/// Decoding `&lt;` neither makes nor takes away a `&gt;` at the front of a text
/// that begins with no `&lt;`.
proof fn lemma_lt_decoded_keeps_gt_front(s: Seq<char>)
    requires
        s.len() > 0,
        !begins_with(s, "&lt;"@),
    ensures
        at_gt(replaced(s, "&lt;"@, "<"@)) <==> at_gt(s),
{
    reveal_strlit("&lt;");
    reveal_strlit("<");
    let p = "&lt;"@;
    let r = "<"@;
    let out = replaced(s, p, r);
    let s1 = s.skip(1);
    let s2 = s1.skip(1);
    let s3 = s2.skip(1);
    let o1 = replaced(s1, p, r);
    let o2 = replaced(s2, p, r);
    let o3 = replaced(s3, p, r);
    assert(out == seq![s[0]] + o1);
    if at_gt(s) {
        lemma_lt_decoded_front(s1);
        lemma_lt_decoded_front(s2);
        lemma_lt_decoded_front(s3);
        assert(out[1] == o1[0] && out[2] == o1[1] && out[3] == o1[2]);
        assert(o1[1] == o2[0] && o1[2] == o2[1] && o2[1] == o3[0]);
    }
    if at_gt(out) {
        assert(o1[0] == 'g' && o1[1] == 't' && o1[2] == ';');
        if s1.len() > 0 && begins_with(s1, p) {
            assert(o1[0] == '<');
        }
        assert(o1 == seq![s1[0]] + o2);
        assert(o2[0] == 't' && o2[1] == ';');
        if s2.len() > 0 && begins_with(s2, p) {
            assert(o2[0] == '<');
        }
        assert(o2 == seq![s2[0]] + o3);
        assert(o3[0] == ';');
        if s3.len() > 0 && begins_with(s3, p) {
            assert(o3[0] == '<');
        }
        assert(s1[0] == s[1] && s2[0] == s[2] && s3[0] == s[3]);
    }
}

/// Decoding `&lt;` neither makes nor takes away a `&gt;`.
proof fn lemma_lt_decoded_keeps_gt(s: Seq<char>)
    ensures
        contains(replaced(s, "&lt;"@, "<"@), "&gt;"@) <==> contains(s, "&gt;"@),
    decreases s.len(),
{
    reveal_strlit("&lt;");
    reveal_strlit("<");
    let p = "&lt;"@;
    let out = replaced(s, p, "<"@);
    if s.len() > 0 {
        lemma_at_gt(s);
        lemma_at_gt(out);
        if begins_with(s, p) {
            let t0 = s.take(4);
            assert(t0[0] == s[0] && t0[1] == s[1] && t0[2] == s[2] && t0[3] == s[3]);
            let s1 = s.skip(1);
            let s2 = s1.skip(1);
            let s3 = s2.skip(1);
            let t = s3.skip(1);
            assert(t =~= s.skip(4));
            lemma_at_gt(s1);
            lemma_at_gt(s2);
            lemma_at_gt(s3);
            assert(contains(s, "&gt;"@) == contains(s1, "&gt;"@));
            assert(contains(s1, "&gt;"@) == contains(s2, "&gt;"@));
            assert(contains(s2, "&gt;"@) == contains(s3, "&gt;"@));
            assert(contains(s3, "&gt;"@) == contains(t, "&gt;"@));
            lemma_lt_decoded_keeps_gt(t);
            assert(out.skip(1) =~= replaced(t, p, "<"@));
        } else {
            lemma_lt_decoded_keeps_gt_front(s);
            lemma_lt_decoded_keeps_gt(s.skip(1));
            assert(out.skip(1) =~= replaced(s.skip(1), p, "<"@));
        }
    }
}

proof fn lemma_without_tags(s: Seq<char>, in_tag: bool, c: char)
    requires
        !s.contains(c) || c == '<' || c == '>',
    ensures
        !without_tags(s, in_tag).contains(c),
    decreases s.len(),
{
    if s.len() > 0 {
        let t = s.skip(1);
        assert(!t.contains(c) || c == '<' || c == '>') by {
            if t.contains(c) {
                let i = choose|i: int| 0 <= i < t.len() && t[i] == c;
                assert(s[i + 1] == c);
            }
        }
        lemma_without_tags(t, true, c);
        lemma_without_tags(t, false, c);
        let out = without_tags(s, in_tag);
        let rest = without_tags(t, false);
        if out.contains(c) && s[0] != '<' && s[0] != '>' && !in_tag {
            let i = choose|i: int| 0 <= i < out.len() && out[i] == c;
            if i == 0 {
                assert(s[0] == c);
                assert(s.contains(c));
            } else {
                assert(rest[i - 1] == c);
            }
        }
    }
}

proof fn lemma_trimmed_front_part(s: Seq<char>, class: CharClass, c: char)
    requires
        !s.contains(c),
    ensures
        !trimmed_front(s, class).contains(c),
    decreases s.len(),
{
    if s.len() > 0 {
        let t = s.skip(1);
        assert(!t.contains(c)) by {
            if t.contains(c) {
                let i = choose|i: int| 0 <= i < t.len() && t[i] == c;
                assert(s[i + 1] == c);
            }
        }
        lemma_trimmed_front_part(t, class, c);
    }
}

proof fn lemma_trimmed_back_part(s: Seq<char>, class: CharClass, c: char)
    requires
        !s.contains(c),
    ensures
        !trimmed_back(s, class).contains(c),
    decreases s.len(),
{
    if s.len() > 0 {
        let t = s.drop_last();
        assert(!t.contains(c)) by {
            if t.contains(c) {
                let i = choose|i: int| 0 <= i < t.len() && t[i] == c;
                assert(s[i] == c);
            }
        }
        lemma_trimmed_back_part(t, class, c);
    }
}

/// Every tag of HTML is stripped: the plain text holds an angle bracket exactly
/// where an entity that stands for one is left once `&amp;` is decoded.
pub proof fn law_tags_are_stripped(html: Seq<char>)
    ensures
        !bare_text(html).contains('<'),
        !bare_text(html).contains('>'),
        plain_text(html).contains('<') <==> contains(
            replaced(bare_text(html), "&amp;"@, "&"@),
            "&lt;"@,
        ),
        plain_text(html).contains('>') <==> contains(
            replaced(bare_text(html), "&amp;"@, "&"@),
            "&gt;"@,
        ),
{
    let broken = broken_into_lines(html);
    let tagless = without_tags(broken, false);
    let front = trimmed_front(tagless, CharClass::Whitespace);
    lemma_without_tags(broken, false, '<');
    lemma_without_tags(broken, false, '>');
    lemma_trimmed_front_part(tagless, CharClass::Whitespace, '<');
    lemma_trimmed_front_part(tagless, CharClass::Whitespace, '>');
    lemma_trimmed_back_part(front, CharClass::Whitespace, '<');
    lemma_trimmed_back_part(front, CharClass::Whitespace, '>');
    reveal_strlit("&amp;");
    reveal_strlit("&");
    reveal_strlit("&lt;");
    reveal_strlit("<");
    reveal_strlit("&gt;");
    reveal_strlit(">");
    reveal_strlit("&quot;");
    reveal_strlit("\"");
    reveal_strlit("&#39;");
    reveal_strlit("'");
    let a = replaced(bare_text(html), "&amp;"@, "&"@);
    lemma_replaced_adds_none(bare_text(html), "&amp;"@, "&"@, '<');
    lemma_replaced_adds_none(bare_text(html), "&amp;"@, "&"@, '>');
    let b = replaced(a, "&lt;"@, "<"@);
    lemma_replaced_where_found(a, "&lt;"@, "<"@, '<');
    lemma_replaced_adds_none(a, "&lt;"@, "<"@, '>');
    let c = replaced(b, "&gt;"@, ">"@);
    lemma_lt_decoded_keeps_gt(a);
    lemma_replaced_where_found(b, "&gt;"@, ">"@, '>');
    lemma_replaced_either(b, "&gt;"@, ">"@, '<');
    let d = replaced(c, "&quot;"@, "\""@);
    lemma_replaced_either(c, "&quot;"@, "\""@, '<');
    lemma_replaced_either(c, "&quot;"@, "\""@, '>');
    lemma_replaced_either(d, "&#39;"@, "'"@, '<');
    lemma_replaced_either(d, "&#39;"@, "'"@, '>');
}

/// The name of a block-level element holds no angle bracket and is longer than
/// that of a paragraph.
proof fn lemma_block_element_is_a_word(name: Seq<char>)
    requires
        block_element(name),
    ensures
        !name.contains('>'),
        name.len() > 1,
{
    reveal_strlit("address");
    reveal_strlit("article");
    reveal_strlit("aside");
    reveal_strlit("blockquote");
    reveal_strlit("center");
    reveal_strlit("dd");
    reveal_strlit("details");
    reveal_strlit("dialog");
    reveal_strlit("dir");
    reveal_strlit("div");
    reveal_strlit("dl");
    reveal_strlit("dt");
    reveal_strlit("fieldset");
    reveal_strlit("figcaption");
    reveal_strlit("figure");
    reveal_strlit("footer");
    reveal_strlit("form");
    reveal_strlit("h1");
    reveal_strlit("h2");
    reveal_strlit("h3");
    reveal_strlit("h4");
    reveal_strlit("h5");
    reveal_strlit("h6");
    reveal_strlit("header");
    reveal_strlit("hgroup");
    reveal_strlit("legend");
    reveal_strlit("li");
    reveal_strlit("main");
    reveal_strlit("menu");
    reveal_strlit("nav");
    reveal_strlit("ol");
    reveal_strlit("pre");
    reveal_strlit("search");
    reveal_strlit("section");
    reveal_strlit("summary");
    reveal_strlit("table");
    reveal_strlit("tbody");
    reveal_strlit("tfoot");
    reveal_strlit("thead");
    reveal_strlit("tr");
    reveal_strlit("ul");
}

/// A closing tag at the front is found as a whole.
proof fn lemma_find_bracket(name: Seq<char>, rest: Seq<char>)
    requires
        !name.contains('>'),
    ensures
        find(name + ">"@ + rest, ">"@) == Some(name.len() as int),
    decreases name.len(),
{
    reveal_strlit(">");
    let s = name + ">"@ + rest;
    if name.len() == 0 {
        assert(s.take(1) =~= ">"@);
    } else {
        assert(s[0] == name[0]);
        assert(s.take(1)[0] == name[0]);
        assert(name.contains(name[0]));
        let t = name.skip(1);
        assert(s.skip(1) =~= t + ">"@ + rest);
        assert(!t.contains('>')) by {
            if t.contains('>') {
                let i = choose|i: int| 0 <= i < t.len() && t[i] == '>';
                assert(name[i + 1] == '>');
            }
        }
        lemma_find_bracket(t, rest);
    }
}

/// The closing tag of a block-level element becomes a line feed, wherever it
/// stands: `before` holds no tag that ends a line, and the closing tag follows.
pub proof fn law_block_end_breaks_the_line(before: Seq<char>, name: Seq<char>, rest: Seq<char>)
    requires
        block_element(name),
        forall|i: int|
            0 <= i < before.len() ==> line_end(
                #[trigger] (before + "</"@ + name + ">"@ + rest).skip(i),
            ) is None,
    ensures
        broken_into_lines(before + "</"@ + name + ">"@ + rest) == before + "\n"@
            + broken_into_lines(rest),
    decreases before.len(),
{
    reveal_strlit("</");
    let html = before + "</"@ + name + ">"@ + rest;
    if before.len() == 0 {
        lemma_block_end_is_found(name, rest);
        assert(html =~= "</"@ + name + ">"@ + rest);
        assert("\n"@ + broken_into_lines(rest) =~= before + "\n"@ + broken_into_lines(rest));
    } else {
        let b = before.skip(1);
        let tail = b + "</"@ + name + ">"@ + rest;
        assert(html.skip(0) =~= html);
        assert(html.skip(1) =~= tail);
        assert forall|i: int| 0 <= i < b.len() implies line_end(#[trigger] tail.skip(i)) is None by {
            assert(tail.skip(i) =~= html.skip(i + 1));
        }
        law_block_end_breaks_the_line(b, name, rest);
        assert(html[0] == before[0]);
        assert(seq![before[0]] + (b + "\n"@ + broken_into_lines(rest)) =~= before + "\n"@
            + broken_into_lines(rest));
    }
}

proof fn lemma_block_end_is_found(name: Seq<char>, rest: Seq<char>)
    requires
        block_element(name),
    ensures
        ({
            let html = "</"@ + name + ">"@ + rest;
            let n = name.len() as int + 3;
            line_end(html) == Some((n, "\n"@)) && html.skip(n) == rest
        }),
{
    reveal_strlit("</p>");
    reveal_strlit("<br>");
    reveal_strlit("<br/>");
    reveal_strlit("<br />");
    reveal_strlit("</");
    reveal_strlit(">");
    let html = "</"@ + name + ">"@ + rest;
    lemma_block_element_is_a_word(name);
    lemma_find_bracket(name, rest);
    assert(html.take(2) =~= "</"@);
    assert(html.skip(2) =~= name + ">"@ + rest);
    assert(html.subrange(2, 2 + name.len() as int) =~= name);
    assert(html.skip(name.len() as int + 3) =~= rest);
    assert(html[1] == '/');
    if begins_with(html, "<br>"@) {
        assert(html.take(4)[1] == html[1]);
    }
    if begins_with(html, "<br/>"@) {
        assert(html.take(5)[1] == html[1]);
    }
    if begins_with(html, "<br />"@) {
        assert(html.take(6)[1] == html[1]);
    }
    if begins_with(html, "</p>"@) {
        assert(html.take(4)[2] == html[2] && html.take(4)[3] == html[3]);
        assert(html[3] == name[1]);
        assert(name.contains(name[1]));
    }
}

/// The break between two paragraphs becomes one line break, whatever white space
/// stands between them.
pub proof fn law_paragraph_break_becomes_line_break(gap: Seq<char>, rest: Seq<char>)
    requires
        forall|i: int| 0 <= i < gap.len() ==> in_class(CharClass::Whitespace, #[trigger] gap[i]),
    ensures
        paragraphs_joined("</p>"@ + gap + "<p>"@ + rest) == "<br>"@ + paragraphs_joined(rest),
{
    reveal_strlit("</p>");
    reveal_strlit("<p>");
    let s = "</p>"@ + gap + "<p>"@ + rest;
    let next = "<p>"@ + rest;
    assert(s.take(4) =~= "</p>"@);
    assert(s.skip(4) =~= gap + next);
    lemma_trimmed_gap(gap, next);
    assert(next.take(3) =~= "<p>"@);
    assert(next.skip(3) =~= rest);
}

proof fn lemma_trimmed_gap(gap: Seq<char>, next: Seq<char>)
    requires
        forall|i: int| 0 <= i < gap.len() ==> in_class(CharClass::Whitespace, #[trigger] gap[i]),
        next.len() > 0,
        next[0] == '<',
    ensures
        trimmed_front(gap + next, CharClass::Whitespace) == next,
    decreases gap.len(),
{
    let s = gap + next;
    if gap.len() == 0 {
        assert(s =~= next);
    } else {
        let t = gap.skip(1);
        assert(s[0] == gap[0]);
        assert(s.skip(1) =~= t + next);
        assert forall|i: int| 0 <= i < t.len() implies in_class(
            CharClass::Whitespace,
            #[trigger] t[i],
        ) by {
            assert(t[i] == gap[i + 1]);
        }
        lemma_trimmed_gap(t, next);
    }
}

/// The reply block is cut out of HTML: what stands before it and what follows it
/// remain, but for the white space right behind it.
pub proof fn law_reply_block_is_cut_out(before: Seq<char>, quoted: Seq<char>, rest: Seq<char>)
    requires
        find(before + "<mx-reply>"@ + quoted + "</mx-reply>"@ + rest, "<mx-reply>"@) == Some(
            before.len() as int,
        ),
        find("<mx-reply>"@ + quoted + "</mx-reply>"@ + rest, "</mx-reply>"@) == Some(
            ("<mx-reply>"@.len() + quoted.len()) as int,
        ),
    ensures
        without_mx_reply(before + "<mx-reply>"@ + quoted + "</mx-reply>"@ + rest) == before
            + trimmed_front(rest, CharClass::Whitespace),
{
    let block = "<mx-reply>"@ + quoted + "</mx-reply>"@;
    let html = before + "<mx-reply>"@ + quoted + "</mx-reply>"@ + rest;
    assert(html.take(before.len() as int) =~= before);
    assert(html.skip(before.len() as int) =~= block + rest);
    assert(html.skip((before.len() + block.len()) as int) =~= rest);
}

/// HTML without a reply block, and a body that does not start with a quotation,
/// are left as they are.
pub proof fn law_only_reply_fallbacks_are_stripped(html: Seq<char>, body: Seq<char>)
    ensures
        !contains(html, "<mx-reply>"@) ==> without_mx_reply(html) == html,
        !begins_with(body, "> "@) ==> without_reply_fallback(body) == body,
{
}

proof fn lemma_tags_behind(a: Seq<char>, rest: Seq<char>)
    requires
        !a.contains('<'),
        !a.contains('>'),
    ensures
        without_tags(a + rest, false) == a + without_tags(rest, false),
    decreases a.len(),
{
    let s = a + rest;
    if a.len() == 0 {
        assert(s =~= rest);
        assert(a + without_tags(rest, false) =~= without_tags(rest, false));
    } else {
        let t = a.skip(1);
        assert(s[0] == a[0] && a.contains(a[0]));
        assert(s.skip(1) =~= t + rest);
        lemma_part_holds_none(a, 1, '<');
        lemma_part_holds_none(a, 1, '>');
        lemma_tags_behind(t, rest);
        assert(seq![a[0]] + (t + without_tags(rest, false)) =~= a + without_tags(rest, false));
    }
}

proof fn lemma_part_holds_none(s: Seq<char>, k: int, c: char)
    requires
        0 <= k <= s.len(),
        !s.contains(c),
    ensures
        !s.skip(k).contains(c),
{
    if s.skip(k).contains(c) {
        let i = choose|i: int| 0 <= i < s.skip(k).len() && s.skip(k)[i] == c;
        assert(s[i + k] == c);
    }
}

proof fn lemma_inside_tag(tag: Seq<char>, rest: Seq<char>)
    requires
        !tag.contains('>'),
    ensures
        without_tags(tag + rest, true) == without_tags(rest, true),
    decreases tag.len(),
{
    let s = tag + rest;
    if tag.len() == 0 {
        assert(s =~= rest);
    } else {
        assert(s[0] == tag[0] && tag.contains(tag[0]));
        assert(s.skip(1) =~= tag.skip(1) + rest);
        lemma_part_holds_none(tag, 1, '>');
        lemma_inside_tag(tag.skip(1), rest);
    }
}

/// Only tags are cut out of a text: what holds no angle bracket is kept as it
/// is. A tag reaches from its `<` to the next `>`, or to the end where there is
/// none, and a `>` of its own is dropped; what stands before and behind remains.
pub proof fn law_only_tags_are_cut_out(a: Seq<char>, tag: Seq<char>, rest: Seq<char>)
    requires
        !a.contains('<'),
        !a.contains('>'),
        !tag.contains('>'),
    ensures
        without_tags(a, false) == a,
        without_tags(a + seq!['<'] + tag + seq!['>'] + rest, false) == a + without_tags(
            rest,
            false,
        ),
        without_tags(a + seq!['>'] + rest, false) == a + without_tags(rest, false),
        without_tags(a + seq!['<'] + tag, false) == a,
{
    lemma_tags_behind(a, seq![]);
    assert(a + seq![] =~= a);
    assert(without_tags(seq![], false) =~= seq![]);
    let open = seq!['<'] + tag + seq!['>'] + rest;
    assert(a + seq!['<'] + tag + seq!['>'] + rest =~= a + open);
    lemma_tags_behind(a, open);
    assert(open.skip(1) =~= tag + (seq!['>'] + rest));
    lemma_inside_tag(tag, seq!['>'] + rest);
    assert((seq!['>'] + rest).skip(1) =~= rest);
    let close = seq!['>'] + rest;
    assert(a + seq!['>'] + rest =~= a + close);
    lemma_tags_behind(a, close);
    let unclosed = seq!['<'] + tag;
    assert(a + seq!['<'] + tag =~= a + unclosed);
    lemma_tags_behind(a, unclosed);
    assert(unclosed.skip(1) =~= tag + seq![]);
    lemma_inside_tag(tag, seq![]);
    assert(without_tags(seq![], true) =~= seq![]);
}

/// These are the block-level elements.
pub proof fn law_block_elements(name: Seq<char>)
    ensures
        block_element(name) <==> seq![
            "address"@,
            "article"@,
            "aside"@,
            "blockquote"@,
            "center"@,
            "dd"@,
            "details"@,
            "dialog"@,
            "dir"@,
            "div"@,
            "dl"@,
            "dt"@,
            "fieldset"@,
            "figcaption"@,
            "figure"@,
            "footer"@,
            "form"@,
            "h1"@,
            "h2"@,
            "h3"@,
            "h4"@,
            "h5"@,
            "h6"@,
            "header"@,
            "hgroup"@,
            "legend"@,
            "li"@,
            "main"@,
            "menu"@,
            "nav"@,
            "ol"@,
            "pre"@,
            "search"@,
            "section"@,
            "summary"@,
            "table"@,
            "tbody"@,
            "tfoot"@,
            "thead"@,
            "tr"@,
            "ul"@,
        ].contains(name),
{
    let all = seq![
        "address"@,
        "article"@,
        "aside"@,
        "blockquote"@,
        "center"@,
        "dd"@,
        "details"@,
        "dialog"@,
        "dir"@,
        "div"@,
        "dl"@,
        "dt"@,
        "fieldset"@,
        "figcaption"@,
        "figure"@,
        "footer"@,
        "form"@,
        "h1"@,
        "h2"@,
        "h3"@,
        "h4"@,
        "h5"@,
        "h6"@,
        "header"@,
        "hgroup"@,
        "legend"@,
        "li"@,
        "main"@,
        "menu"@,
        "nav"@,
        "ol"@,
        "pre"@,
        "search"@,
        "section"@,
        "summary"@,
        "table"@,
        "tbody"@,
        "tfoot"@,
        "thead"@,
        "tr"@,
        "ul"@,
    ];
    if block_element(name) {
        assert(all[0] == "address"@);
        assert(all[1] == "article"@);
        assert(all[2] == "aside"@);
        assert(all[3] == "blockquote"@);
        assert(all[4] == "center"@);
        assert(all[5] == "dd"@);
        assert(all[6] == "details"@);
        assert(all[7] == "dialog"@);
        assert(all[8] == "dir"@);
        assert(all[9] == "div"@);
        assert(all[10] == "dl"@);
        assert(all[11] == "dt"@);
        assert(all[12] == "fieldset"@);
        assert(all[13] == "figcaption"@);
        assert(all[14] == "figure"@);
        assert(all[15] == "footer"@);
        assert(all[16] == "form"@);
        assert(all[17] == "h1"@);
        assert(all[18] == "h2"@);
        assert(all[19] == "h3"@);
        assert(all[20] == "h4"@);
        assert(all[21] == "h5"@);
        assert(all[22] == "h6"@);
        assert(all[23] == "header"@);
        assert(all[24] == "hgroup"@);
        assert(all[25] == "legend"@);
        assert(all[26] == "li"@);
        assert(all[27] == "main"@);
        assert(all[28] == "menu"@);
        assert(all[29] == "nav"@);
        assert(all[30] == "ol"@);
        assert(all[31] == "pre"@);
        assert(all[32] == "search"@);
        assert(all[33] == "section"@);
        assert(all[34] == "summary"@);
        assert(all[35] == "table"@);
        assert(all[36] == "tbody"@);
        assert(all[37] == "tfoot"@);
        assert(all[38] == "thead"@);
        assert(all[39] == "tr"@);
        assert(all[40] == "ul"@);
    }
    if all.contains(name) {
        let i = choose|i: int| 0 <= i < all.len() && all[i] == name;
        assert(all[i] == name);
    }
}

proof fn lemma_lines_behind(a: Seq<char>, rest: Seq<char>)
    requires
        !a.contains('<'),
    ensures
        broken_into_lines(a + rest) == a + broken_into_lines(rest),
    decreases a.len(),
{
    let s = a + rest;
    if a.len() == 0 {
        assert(s =~= rest);
        assert(a + broken_into_lines(rest) =~= broken_into_lines(rest));
    } else {
        let t = a.skip(1);
        assert(s[0] == a[0] && a.contains(a[0]));
        lemma_no_line_end(s);
        assert(s.skip(1) =~= t + rest);
        lemma_part_holds_none(a, 1, '<');
        lemma_lines_behind(t, rest);
        assert(seq![a[0]] + (t + broken_into_lines(rest)) =~= a + broken_into_lines(rest));
    }
}

/// A tag that ends a line begins with `<` and then `/` or `b`.
proof fn lemma_no_line_end(s: Seq<char>)
    requires
        s.len() > 0 ==> s[0] != '<' || s.len() < 2 || (s[1] != '/' && s[1] != 'b'),
    ensures
        line_end(s) is None,
{
    reveal_strlit("</p>");
    reveal_strlit("<br>");
    reveal_strlit("<br/>");
    reveal_strlit("<br />");
    reveal_strlit("</");
    law_begins_with(s, "</p>"@);
    law_begins_with(s, "<br>"@);
    law_begins_with(s, "<br/>"@);
    law_begins_with(s, "<br />"@);
    law_begins_with(s, "</"@);
    assert(begins_with(s, "</p>"@) ==> s[0] == "</p>"@[0] && s[1] == "</p>"@[1]);
    assert(begins_with(s, "<br>"@) ==> s[0] == "<br>"@[0] && s[1] == "<br>"@[1]);
    assert(begins_with(s, "<br/>"@) ==> s[0] == "<br/>"@[0] && s[1] == "<br/>"@[1]);
    assert(begins_with(s, "<br />"@) ==> s[0] == "<br />"@[0] && s[1] == "<br />"@[1]);
    assert(begins_with(s, "</"@) ==> s[0] == "</"@[0] && s[1] == "</"@[1]);
}

/// Breaking HTML into lines keeps what is no tag. The end of a paragraph becomes
/// two line feeds and a line break one; so does the end of a block-level
/// element. The end of any other element stays as it is.
pub proof fn law_breaking_into_lines(a: Seq<char>, name: Seq<char>, rest: Seq<char>)
    requires
        !a.contains('<'),
        !name.contains('>'),
        !name.contains('<'),
    ensures
        broken_into_lines(a) == a,
        broken_into_lines(a + "</p>"@ + rest) == a + seq!['\n', '\n'] + broken_into_lines(rest),
        broken_into_lines(a + "<br>"@ + rest) == a + seq!['\n'] + broken_into_lines(rest),
        broken_into_lines(a + "<br/>"@ + rest) == a + seq!['\n'] + broken_into_lines(rest),
        broken_into_lines(a + "<br />"@ + rest) == a + seq!['\n'] + broken_into_lines(rest),
        block_element(name) ==> broken_into_lines(a + "</"@ + name + ">"@ + rest) == a + seq!['\n']
            + broken_into_lines(rest),
        !block_element(name) && name != seq!['p'] ==> broken_into_lines(
            a + "</"@ + name + ">"@ + rest,
        ) == a + "</"@ + name + ">"@ + broken_into_lines(rest),
        name.len() > 0 && name[0] != '/' && name[0] != 'b' ==> broken_into_lines(
            a + "<"@ + name + ">"@ + rest,
        ) == a + "<"@ + name + ">"@ + broken_into_lines(rest),
{
    lemma_lines_behind(a, seq![]);
    assert(a + seq![] =~= a);
    assert(broken_into_lines(seq![]) =~= seq![]);
    lemma_line_end_literal(a, rest);
    lemma_closing_tag(a, name, rest);
    if name.len() > 0 && name[0] != '/' && name[0] != 'b' {
        lemma_opening_tag(a, name, rest);
    }
}

#[verifier::spinoff_prover]
proof fn lemma_closing_tag(a: Seq<char>, name: Seq<char>, rest: Seq<char>)
    requires
        !a.contains('<'),
        !name.contains('>'),
        !name.contains('<'),
    ensures
        block_element(name) ==> broken_into_lines(a + "</"@ + name + ">"@ + rest) == a + seq!['\n']
            + broken_into_lines(rest),
        !block_element(name) && name != seq!['p'] ==> broken_into_lines(
            a + "</"@ + name + ">"@ + rest,
        ) == a + "</"@ + name + ">"@ + broken_into_lines(rest),
{
    reveal_strlit("\n");
    assert("\n"@ =~= seq!['\n']);
    let close = "</"@ + name + ">"@ + rest;
    assert(a + "</"@ + name + ">"@ + rest =~= a + close);
    lemma_lines_behind(a, close);
    let tail = broken_into_lines(rest);
    if block_element(name) {
        assert(broken_into_lines(close) == "\n"@ + tail) by {
            reveal_strlit("</");
            lemma_block_end_is_found(name, rest);
        }
        assert(a + ("\n"@ + tail) =~= a + seq!['\n'] + tail);
    } else if name != seq!['p'] {
        assert(broken_into_lines(close) == "</"@ + name + ">"@ + tail) by {
            lemma_other_end_stays(name, rest);
        }
        assert(a + ("</"@ + name + ">"@ + tail) =~= a + "</"@ + name + ">"@ + tail);
    }
}

proof fn lemma_opening_tag(a: Seq<char>, name: Seq<char>, rest: Seq<char>)
    requires
        !a.contains('<'),
        !name.contains('<'),
        name.len() > 0 && name[0] != '/' && name[0] != 'b',
    ensures
        broken_into_lines(a + "<"@ + name + ">"@ + rest) == a + "<"@ + name + ">"@
            + broken_into_lines(rest),
{
    reveal_strlit("<");
    reveal_strlit(">");
    let open = "<"@ + name + ">"@ + rest;
    assert(a + "<"@ + name + ">"@ + rest =~= a + open);
    lemma_lines_behind(a, open);
    assert(open[0] == '<' && open[1] == name[0]);
    lemma_no_line_end(open);
    let inner = name + ">"@;
    assert(!">"@.contains('<'));
    lemma_joined_holds_none(name, ">"@, '<');
    assert(open.skip(1) =~= inner + rest);
    lemma_lines_behind(inner, rest);
    assert(a + (seq!['<'] + (inner + broken_into_lines(rest))) =~= a + "<"@ + name + ">"@
        + broken_into_lines(rest));
}

proof fn lemma_line_end_literal(a: Seq<char>, rest: Seq<char>)
    requires
        !a.contains('<'),
    ensures
        broken_into_lines(a + "</p>"@ + rest) == a + seq!['\n', '\n'] + broken_into_lines(rest),
        broken_into_lines(a + "<br>"@ + rest) == a + seq!['\n'] + broken_into_lines(rest),
        broken_into_lines(a + "<br/>"@ + rest) == a + seq!['\n'] + broken_into_lines(rest),
        broken_into_lines(a + "<br />"@ + rest) == a + seq!['\n'] + broken_into_lines(rest),
{
    reveal_strlit("</p>");
    reveal_strlit("<br>");
    reveal_strlit("<br/>");
    reveal_strlit("<br />");
    reveal_strlit("\n\n");
    reveal_strlit("\n");
    assert("\n\n"@ =~= seq!['\n', '\n']);
    assert("\n"@ =~= seq!['\n']);
    let p = "</p>"@ + rest;
    lemma_lines_behind(a, p);
    assert(a + "</p>"@ + rest =~= a + p);
    law_begins_with(rest, "</p>"@);
    assert(p.skip(4) =~= rest);
    assert(a + ("\n\n"@ + broken_into_lines(rest)) =~= a + seq!['\n', '\n'] + broken_into_lines(
        rest,
    ));
    let b = "<br>"@ + rest;
    lemma_lines_behind(a, b);
    assert(a + "<br>"@ + rest =~= a + b);
    law_begins_with(rest, "<br>"@);
    law_begins_with(b, "</p>"@);
    assert(b[1] == 'b' && "</p>"@[1] == '/');
    assert(b.skip(4) =~= rest);
    assert(a + ("\n"@ + broken_into_lines(rest)) =~= a + seq!['\n'] + broken_into_lines(rest));
    let c = "<br/>"@ + rest;
    lemma_lines_behind(a, c);
    assert(a + "<br/>"@ + rest =~= a + c);
    law_begins_with(rest, "<br/>"@);
    law_begins_with(c, "</p>"@);
    law_begins_with(c, "<br>"@);
    assert(c[1] == 'b' && c[3] == '/' && "<br>"@[3] == '>');
    assert(c.skip(5) =~= rest);
    let d = "<br />"@ + rest;
    lemma_lines_behind(a, d);
    assert(a + "<br />"@ + rest =~= a + d);
    law_begins_with(rest, "<br />"@);
    law_begins_with(d, "</p>"@);
    law_begins_with(d, "<br>"@);
    law_begins_with(d, "<br/>"@);
    assert(d[1] == 'b' && d[3] == ' ' && "<br/>"@[3] == '/');
    assert(d.skip(6) =~= rest);
}

proof fn lemma_other_end_stays(name: Seq<char>, rest: Seq<char>)
    requires
        !name.contains('>'),
        !name.contains('<'),
        !block_element(name),
        name != seq!['p'],
    ensures
        broken_into_lines("</"@ + name + ">"@ + rest) == "</"@ + name + ">"@ + broken_into_lines(
            rest,
        ),
{
    reveal_strlit("</p>");
    reveal_strlit("<br>");
    reveal_strlit("<br/>");
    reveal_strlit("<br />");
    reveal_strlit("</");
    reveal_strlit(">");
    let html = "</"@ + name + ">"@ + rest;
    assert(html[0] == '<' && html[1] == '/');
    law_begins_with(html, "<br>"@);
    law_begins_with(html, "<br/>"@);
    law_begins_with(html, "<br />"@);
    law_begins_with(html, "</p>"@);
    assert("<br>"@[1] == 'b' && "<br/>"@[1] == 'b' && "<br />"@[1] == 'b');
    if begins_with(html, "</p>"@) {
        assert(html[2] == "</p>"@[2] && html[3] == "</p>"@[3]);
        if name.len() >= 2 {
            assert(html[3] == name[1]);
            assert(name.contains(name[1]));
        }
        if name.len() == 0 {
            assert(html[2] == '>');
        } else {
            assert(html[2] == name[0]);
            assert(name =~= seq!['p']);
        }
    }
    lemma_find_bracket(name, rest);
    assert(html.skip(2) =~= name + ">"@ + rest);
    assert(html.subrange(2, 2 + name.len() as int) =~= name);
    assert(line_end(html) is None);
    let inner = seq!['/'] + name + ">"@;
    assert(!inner.contains('<')) by {
        if inner.contains('<') {
            let i = choose|i: int| 0 <= i < inner.len() && inner[i] == '<';
            if 0 < i <= name.len() {
                assert(name[i - 1] == '<');
            }
        }
    }
    assert(html.skip(1) =~= inner + rest);
    lemma_lines_behind(inner, rest);
    assert(seq!['<'] + (inner + broken_into_lines(rest)) =~= "</"@ + name + ">"@
        + broken_into_lines(rest));
}

proof fn lemma_entity_behind(front: Seq<char>, rest: Seq<char>, p: Seq<char>, r: Seq<char>)
    requires
        p.len() > 0,
        p[0] == '&',
        front.len() > 0,
        forall|i: int| 1 <= i < front.len() ==> #[trigger] front[i] != '&',
        !begins_with(front + rest, p),
    ensures
        replaced(front + rest, p, r) == front + replaced(rest, p, r),
{
    let s = front + rest;
    assert forall|i: int| 0 <= i < front.len() implies !begins_with(
        #[trigger] (front + rest).skip(i),
        p,
    ) by {
        if i == 0 {
            assert(s.skip(0) =~= s);
        } else {
            law_begins_with(s.skip(i), p);
            assert(s.skip(i)[0] == front[i]);
        }
    }
    lemma_replaced_behind(front, rest, p, r);
}

proof fn lemma_plain_behind(a: Seq<char>, rest: Seq<char>)
    requires
        !a.contains('&'),
    ensures
        entities_decoded(a + rest) == a + entities_decoded(rest),
{
    reveal_strlit("&amp;");
    reveal_strlit("&lt;");
    reveal_strlit("&gt;");
    reveal_strlit("&quot;");
    reveal_strlit("&#39;");
    let r1 = replaced(rest, "&amp;"@, "&"@);
    let r2 = replaced(r1, "&lt;"@, "<"@);
    let r3 = replaced(r2, "&gt;"@, ">"@);
    let r4 = replaced(r3, "&quot;"@, "\""@);
    lemma_replaced_behind_plain(a, rest, "&amp;"@, "&"@);
    lemma_replaced_behind_plain(a, r1, "&lt;"@, "<"@);
    lemma_replaced_behind_plain(a, r2, "&gt;"@, ">"@);
    lemma_replaced_behind_plain(a, r3, "&quot;"@, "\""@);
    lemma_replaced_behind_plain(a, r4, "&#39;"@, "'"@);
}

proof fn lemma_replaced_behind_plain(a: Seq<char>, rest: Seq<char>, p: Seq<char>, r: Seq<char>)
    requires
        p.len() > 0,
        !a.contains(p[0]),
    ensures
        replaced(a + rest, p, r) == a + replaced(rest, p, r),
{
    assert forall|i: int| 0 <= i < a.len() implies !begins_with(#[trigger] (a + rest).skip(i), p) by {
        law_begins_with((a + rest).skip(i), p);
        assert((a + rest).skip(i)[0] == a[i]);
        assert(a.contains(a[i]));
    }
    lemma_replaced_behind(a, rest, p, r);
}

proof fn lemma_entity_here(e: Seq<char>, rest: Seq<char>, r: Seq<char>)
    requires
        e.len() > 0,
    ensures
        replaced(e + rest, e, r) == r + replaced(rest, e, r),
{
    assert((e + rest).take(e.len() as int) =~= e);
    assert((e + rest).skip(e.len() as int) =~= rest);
}

/// Where an entity other than `&amp;` stands at the front, it is decoded, and the
/// rest for itself.
proof fn lemma_entity_decoded(e: Seq<char>, c: char, rest: Seq<char>)
    requires
        (e == "&lt;"@ && c == '<') || (e == "&gt;"@ && c == '>') || (e == "&quot;"@ && c == '"') || (e
            == "&#39;"@ && c == '\''),
    ensures
        entities_decoded(e + rest) == seq![c] + entities_decoded(rest),
{
    reveal_strlit("&amp;");
    reveal_strlit("&lt;");
    reveal_strlit("&gt;");
    reveal_strlit("&quot;");
    reveal_strlit("&#39;");
    reveal_strlit("<");
    reveal_strlit(">");
    reveal_strlit("\"");
    reveal_strlit("'");
    let (p1, p2, p3, p4, p5) = ("&amp;"@, "&lt;"@, "&gt;"@, "&quot;"@, "&#39;"@);
    let r1 = replaced(rest, p1, "&"@);
    let r2 = replaced(r1, p2, "<"@);
    let r3 = replaced(r2, p3, ">"@);
    let r4 = replaced(r3, p4, "\""@);
    let one = seq![c];
    assert("<"@ =~= seq!['<'] && ">"@ =~= seq!['>'] && "\""@ =~= seq!['"'] && "'"@ =~= seq!['\'']);
    lemma_entity_passes(e, rest, p1, "&"@);
    if e == p2 {
        lemma_entity_here(e, r1, "<"@);
        lemma_replaced_behind_plain(one, r2, p3, ">"@);
        lemma_replaced_behind_plain(one, r3, p4, "\""@);
        lemma_replaced_behind_plain(one, r4, p5, "'"@);
    } else {
        lemma_entity_passes(e, r1, p2, "<"@);
        if e == p3 {
            lemma_entity_here(e, r2, ">"@);
            lemma_replaced_behind_plain(one, r3, p4, "\""@);
            lemma_replaced_behind_plain(one, r4, p5, "'"@);
        } else {
            lemma_entity_passes(e, r2, p3, ">"@);
            if e == p4 {
                lemma_entity_here(e, r3, "\""@);
                lemma_replaced_behind_plain(one, r4, p5, "'"@);
            } else {
                lemma_entity_passes(e, r3, p4, "\""@);
                lemma_entity_here(e, r4, "'"@);
            }
        }
    }
}

proof fn lemma_entity_passes(e: Seq<char>, rest: Seq<char>, p: Seq<char>, r: Seq<char>)
    requires
        e.len() > 1,
        p.len() > 1,
        p[0] == '&',
        e[1] != p[1],
        forall|i: int| 1 <= i < e.len() ==> #[trigger] e[i] != '&',
    ensures
        replaced(e + rest, p, r) == e + replaced(rest, p, r),
{
    law_begins_with(e + rest, p);
    assert((e + rest)[1] == e[1]);
    lemma_entity_behind(e, rest, p, r);
}

/// Decoding changes nothing but entities. A text without `&` stays as it is;
/// each of `&lt;`, `&gt;`, `&quot;` and `&#39;` becomes the character it stands
/// for, and so does `&amp;` where what follows makes no entity out of its `&`.
pub proof fn law_entities(a: Seq<char>, rest: Seq<char>)
    requires
        !a.contains('&'),
    ensures
        entities_decoded(a) == a,
        entities_decoded(a + "&lt;"@ + rest) == a + seq!['<'] + entities_decoded(rest),
        entities_decoded(a + "&gt;"@ + rest) == a + seq!['>'] + entities_decoded(rest),
        entities_decoded(a + "&quot;"@ + rest) == a + seq!['"'] + entities_decoded(rest),
        entities_decoded(a + "&#39;"@ + rest) == a + seq!['\''] + entities_decoded(rest),
        rest.len() == 0 || (rest[0] != 'l' && rest[0] != 'g' && rest[0] != 'q' && rest[0] != '#'
            && rest[0] != '&') ==> entities_decoded(a + "&amp;"@ + rest) == a + seq!['&']
            + entities_decoded(rest),
{
    lemma_plain_behind(a, seq![]);
    assert(a + seq![] =~= a);
    assert(entities_decoded(seq![]) =~= seq![]);
    lemma_entity_decoded("&lt;"@, '<', rest);
    lemma_plain_behind(a, "&lt;"@ + rest);
    assert(a + "&lt;"@ + rest =~= a + ("&lt;"@ + rest));
    assert(a + (seq!['<'] + entities_decoded(rest)) =~= a + seq!['<'] + entities_decoded(rest));
    lemma_entity_decoded("&gt;"@, '>', rest);
    lemma_plain_behind(a, "&gt;"@ + rest);
    assert(a + "&gt;"@ + rest =~= a + ("&gt;"@ + rest));
    assert(a + (seq!['>'] + entities_decoded(rest)) =~= a + seq!['>'] + entities_decoded(rest));
    lemma_entity_decoded("&quot;"@, '"', rest);
    lemma_plain_behind(a, "&quot;"@ + rest);
    assert(a + "&quot;"@ + rest =~= a + ("&quot;"@ + rest));
    assert(a + (seq!['"'] + entities_decoded(rest)) =~= a + seq!['"'] + entities_decoded(rest));
    lemma_entity_decoded("&#39;"@, '\'', rest);
    lemma_plain_behind(a, "&#39;"@ + rest);
    assert(a + "&#39;"@ + rest =~= a + ("&#39;"@ + rest));
    assert(a + (seq!['\''] + entities_decoded(rest)) =~= a + seq!['\''] + entities_decoded(rest));
    if rest.len() == 0 || (rest[0] != 'l' && rest[0] != 'g' && rest[0] != 'q' && rest[0] != '#'
        && rest[0] != '&') {
        lemma_amp_decoded(rest);
        lemma_plain_behind(a, "&amp;"@ + rest);
        assert(a + "&amp;"@ + rest =~= a + ("&amp;"@ + rest));
        assert(a + (seq!['&'] + entities_decoded(rest)) =~= a + seq!['&'] + entities_decoded(rest));
    }
}

proof fn lemma_amp_decoded(rest: Seq<char>)
    requires
        rest.len() == 0 || (rest[0] != 'l' && rest[0] != 'g' && rest[0] != 'q' && rest[0] != '#'
            && rest[0] != '&'),
    ensures
        entities_decoded("&amp;"@ + rest) == seq!['&'] + entities_decoded(rest),
{
    reveal_strlit("&amp;");
    reveal_strlit("&lt;");
    reveal_strlit("&gt;");
    reveal_strlit("&quot;");
    reveal_strlit("&#39;");
    reveal_strlit("&");
    let (p1, p2, p3, p4, p5) = ("&amp;"@, "&lt;"@, "&gt;"@, "&quot;"@, "&#39;"@);
    let r1 = replaced(rest, p1, "&"@);
    let r2 = replaced(r1, p2, "<"@);
    let r3 = replaced(r2, p3, ">"@);
    let r4 = replaced(r3, p4, "\""@);
    let amp = seq!['&'];
    assert("&"@ =~= amp);
    lemma_entity_here(p1, rest, "&"@);
    lemma_first_char_kept(rest, p1, "&"@);
    lemma_amp_passes(r1, p2, "<"@);
    lemma_first_char_kept(r1, p2, "<"@);
    lemma_amp_passes(r2, p3, ">"@);
    lemma_first_char_kept(r2, p3, ">"@);
    lemma_amp_passes(r3, p4, "\""@);
    lemma_first_char_kept(r3, p4, "\""@);
    lemma_amp_passes(r4, p5, "'"@);
}

proof fn lemma_first_char_kept(s: Seq<char>, p: Seq<char>, r: Seq<char>)
    requires
        p.len() > 0,
        p[0] == '&',
        s.len() > 0 ==> s[0] != '&',
    ensures
        replaced(s, p, r).len() > 0 <==> s.len() > 0,
        s.len() > 0 ==> replaced(s, p, r)[0] == s[0],
{
    law_begins_with(s, p);
}

proof fn lemma_amp_passes(rest: Seq<char>, p: Seq<char>, r: Seq<char>)
    requires
        p.len() > 1,
        p[0] == '&',
        rest.len() > 0 ==> rest[0] != p[1],
    ensures
        replaced(seq!['&'] + rest, p, r) == seq!['&'] + replaced(rest, p, r),
{
    let s = seq!['&'] + rest;
    law_begins_with(s, p);
    if rest.len() > 0 {
        assert(s[1] == rest[0]);
    }
    lemma_entity_behind(seq!['&'], rest, p, r);
}

/// Whether `s` holds no character that means something in HTML.
pub open spec fn no_markup(s: Seq<char>) -> bool {
    !s.contains('<') && !s.contains('>') && !s.contains('&')
}

/// The steps that make the plain text of HTML: it is broken into lines, loses its
/// tags and the white space around it, and its entities are decoded last. So text
/// without markup is only trimmed, and the end of a paragraph leaves a blank line.
pub proof fn law_plain_text(html: Seq<char>, a: Seq<char>, c: Seq<char>)
    requires
        no_markup(a),
        no_markup(c),
    ensures
        plain_text(html) == entities_decoded(
            trimmed(without_tags(broken_into_lines(html), false)),
        ),
        plain_text(a) == trimmed(a),
        plain_text(a + "</p>"@ + c) == trimmed(a + seq!['\n', '\n'] + c),
{
    lemma_plain_is_trimmed(a);
    let feeds = seq!['\n', '\n'];
    let two = a + feeds + c;
    assert(!feeds.contains('<') && !feeds.contains('>') && !feeds.contains('&'));
    lemma_together(a, feeds, c);
    law_breaking_into_lines(a, seq!['i'], c);
    law_breaking_into_lines(c, seq!['i'], c);
    law_only_tags_are_cut_out(two, seq![], c);
    lemma_trimmed_holds_none(two, '&');
    law_entities(trimmed(two), seq![]);
}

/// An element within a line leaves its text: the plain text is that of what
/// stands before it, in it and behind it.
pub proof fn law_plain_text_of_an_element(
    a: Seq<char>,
    tag: Seq<char>,
    b: Seq<char>,
    name: Seq<char>,
    c: Seq<char>,
)
    requires
        no_markup(a),
        no_markup(tag),
        no_markup(b),
        no_markup(name),
        no_markup(c),
        tag.len() > 0 && tag[0] != '/' && tag[0] != 'b',
        name != seq!['p'],
        !block_element(name),
    ensures
        plain_text(a + "<"@ + tag + ">"@ + (b + "</"@ + name + ">"@ + c)) == trimmed(a + b + c),
{
    reveal_strlit("<");
    reveal_strlit(">");
    reveal_strlit("</");
    let kept = b + "</"@ + name + ">"@ + c;
    let html = a + "<"@ + tag + ">"@ + kept;
    assert(broken_into_lines(kept) == kept) by {
        law_breaking_into_lines(c, name, c);
        law_breaking_into_lines(b, name, c);
    }
    assert(broken_into_lines(html) == html) by {
        law_breaking_into_lines(a, tag, kept);
    }
    assert(without_tags(kept, false) == b + c) by {
        let end = seq!['/'] + name;
        lemma_joined_holds_none(seq!['/'], name, '>');
        assert(kept =~= b + seq!['<'] + end + seq!['>'] + c);
        law_only_tags_are_cut_out(b, end, c);
        law_only_tags_are_cut_out(c, end, c);
    }
    assert(without_tags(html, false) == a + b + c) by {
        assert(html =~= a + seq!['<'] + tag + seq!['>'] + kept);
        law_only_tags_are_cut_out(a, tag, kept);
        assert(a + (b + c) =~= a + b + c);
    }
    lemma_together(a, b, c);
    lemma_trimmed_holds_none(a + b + c, '&');
    law_entities(trimmed(a + b + c), seq![]);
}

/// A block-level element ends its line: what follows it stands on the next one.
pub proof fn law_plain_text_of_a_block(
    a: Seq<char>,
    tag: Seq<char>,
    b: Seq<char>,
    name: Seq<char>,
    c: Seq<char>,
)
    requires
        no_markup(a),
        no_markup(tag),
        no_markup(b),
        no_markup(c),
        tag.len() > 0 && tag[0] != '/' && tag[0] != 'b',
        block_element(name),
    ensures
        plain_text(a + "<"@ + tag + ">"@ + (b + "</"@ + name + ">"@ + c)) == trimmed(
            a + (b + seq!['\n'] + c),
        ),
{
    reveal_strlit("<");
    reveal_strlit(">");
    let inner = b + "</"@ + name + ">"@ + c;
    let kept = b + seq!['\n'] + c;
    lemma_block_name_is_bare(name);
    law_breaking_into_lines(c, name, c);
    law_breaking_into_lines(b, name, c);
    law_breaking_into_lines(a, tag, inner);
    let broken = a + "<"@ + tag + ">"@ + kept;
    assert(broken =~= a + seq!['<'] + tag + seq!['>'] + kept);
    law_only_tags_are_cut_out(a, tag, kept);
    lemma_together(b, seq!['\n'], c);
    law_only_tags_are_cut_out(kept, tag, c);
    lemma_joined_holds_none(a, kept, '&');
    lemma_trimmed_holds_none(a + kept, '&');
    law_entities(trimmed(a + kept), seq![]);
}

proof fn lemma_block_name_is_bare(name: Seq<char>)
    requires
        block_element(name),
    ensures
        !name.contains('<'),
        !name.contains('>'),
{
    reveal_strlit("address");
    reveal_strlit("article");
    reveal_strlit("aside");
    reveal_strlit("blockquote");
    reveal_strlit("center");
    reveal_strlit("dd");
    reveal_strlit("details");
    reveal_strlit("dialog");
    reveal_strlit("dir");
    reveal_strlit("div");
    reveal_strlit("dl");
    reveal_strlit("dt");
    reveal_strlit("fieldset");
    reveal_strlit("figcaption");
    reveal_strlit("figure");
    reveal_strlit("footer");
    reveal_strlit("form");
    reveal_strlit("h1");
    reveal_strlit("h2");
    reveal_strlit("h3");
    reveal_strlit("h4");
    reveal_strlit("h5");
    reveal_strlit("h6");
    reveal_strlit("header");
    reveal_strlit("hgroup");
    reveal_strlit("legend");
    reveal_strlit("li");
    reveal_strlit("main");
    reveal_strlit("menu");
    reveal_strlit("nav");
    reveal_strlit("ol");
    reveal_strlit("pre");
    reveal_strlit("search");
    reveal_strlit("section");
    reveal_strlit("summary");
    reveal_strlit("table");
    reveal_strlit("tbody");
    reveal_strlit("tfoot");
    reveal_strlit("thead");
    reveal_strlit("tr");
    reveal_strlit("ul");
}

proof fn lemma_plain_is_trimmed(a: Seq<char>)
    requires
        !a.contains('<'),
        !a.contains('>'),
        !a.contains('&'),
    ensures
        plain_text(a) == trimmed(a),
{
    law_breaking_into_lines(a, seq!['i'], seq![]);
    law_only_tags_are_cut_out(a, seq![], seq![]);
    lemma_trimmed_holds_none(a, '&');
    law_entities(trimmed(a), seq![]);
}

proof fn lemma_trimmed_holds_none(s: Seq<char>, c: char)
    requires
        !s.contains(c),
    ensures
        !trimmed(s).contains(c),
{
    lemma_trimmed_front_part(s, CharClass::Whitespace, c);
    lemma_trimmed_back_part(trimmed_front(s, CharClass::Whitespace), CharClass::Whitespace, c);
}

proof fn lemma_joined_holds_none(a: Seq<char>, b: Seq<char>, c: char)
    requires
        !a.contains(c),
        !b.contains(c),
    ensures
        !(a + b).contains(c),
{
    if (a + b).contains(c) {
        let i = choose|i: int| 0 <= i < (a + b).len() && (a + b)[i] == c;
        if i < a.len() {
            assert(a[i] == c);
        } else {
            assert(b[i - a.len()] == c);
        }
    }
}

proof fn lemma_together(a: Seq<char>, b: Seq<char>, c: Seq<char>)
    requires
        !a.contains('<') && !a.contains('>') && !a.contains('&'),
        !b.contains('<') && !b.contains('>') && !b.contains('&'),
        !c.contains('<') && !c.contains('>') && !c.contains('&'),
    ensures
        !(a + b + c).contains('<') && !(a + b + c).contains('>') && !(a + b + c).contains('&'),
{
    lemma_joined_holds_none(a, b, '<');
    lemma_joined_holds_none(a, b, '>');
    lemma_joined_holds_none(a, b, '&');
    lemma_joined_holds_none(a + b, c, '<');
    lemma_joined_holds_none(a + b, c, '>');
    lemma_joined_holds_none(a + b, c, '&');
}

proof fn lemma_paragraphs_behind(a: Seq<char>, rest: Seq<char>)
    requires
        !a.contains('<'),
    ensures
        paragraphs_joined(a + rest) == a + paragraphs_joined(rest),
    decreases a.len(),
{
    reveal_strlit("</p>");
    let s = a + rest;
    if a.len() == 0 {
        assert(s =~= rest);
        assert(a + paragraphs_joined(rest) =~= paragraphs_joined(rest));
    } else {
        let t = a.skip(1);
        assert(s[0] == a[0] && a.contains(a[0]));
        law_begins_with(s, "</p>"@);
        assert(s.skip(1) =~= t + rest);
        lemma_part_holds_none(a, 1, '<');
        lemma_paragraphs_behind(t, rest);
        assert(seq![a[0]] + (t + paragraphs_joined(rest)) =~= a + paragraphs_joined(rest));
    }
}

/// Joining paragraphs changes nothing but the breaks between them: what is no tag
/// stays, and so does a `<` at which no paragraph ends, or only an end that is
/// not followed by the start of the next.
pub proof fn law_only_paragraph_breaks_are_joined(a: Seq<char>, s: Seq<char>, gap: Seq<char>)
    requires
        !a.contains('<'),
        forall|i: int| 0 <= i < gap.len() ==> in_class(CharClass::Whitespace, #[trigger] gap[i]),
    ensures
        paragraphs_joined(a) == a,
        paragraphs_joined(a + s) == a + paragraphs_joined(s),
        s.len() > 0 && !begins_with(s, "</p>"@) ==> paragraphs_joined(s) == seq![s[0]]
            + paragraphs_joined(s.skip(1)),
        (s.len() == 0 || !in_class(CharClass::Whitespace, s[0])) && !begins_with(s, "<p>"@)
            ==> paragraphs_joined("</p>"@ + gap + s) == seq!['<'] + paragraphs_joined(
            ("</p>"@ + gap + s).skip(1),
        ),
{
    reveal_strlit("</p>");
    lemma_paragraphs_behind(a, seq![]);
    assert(a + seq![] =~= a);
    lemma_paragraphs_behind(a, s);
    if (s.len() == 0 || !in_class(CharClass::Whitespace, s[0])) && !begins_with(s, "<p>"@) {
        let html = "</p>"@ + gap + s;
        assert(html.skip(4) =~= gap + s);
        lemma_gap_trimmed(gap, s);
        assert(html[0] == '<');
    }
}

proof fn lemma_gap_trimmed(gap: Seq<char>, next: Seq<char>)
    requires
        forall|i: int| 0 <= i < gap.len() ==> in_class(CharClass::Whitespace, #[trigger] gap[i]),
        next.len() == 0 || !in_class(CharClass::Whitespace, next[0]),
    ensures
        trimmed_front(gap + next, CharClass::Whitespace) == next,
    decreases gap.len(),
{
    let s = gap + next;
    if gap.len() == 0 {
        assert(s =~= next);
    } else {
        let t = gap.skip(1);
        assert(s[0] == gap[0]);
        assert(s.skip(1) =~= t + next);
        assert forall|i: int| 0 <= i < t.len() implies in_class(
            CharClass::Whitespace,
            #[trigger] t[i],
        ) by {
            assert(t[i] == gap[i + 1]);
        }
        lemma_gap_trimmed(t, next);
    }
}

/// The inline form of HTML: its paragraphs are joined, the tags of paragraphs
/// that are left are dropped, and it is trimmed before and after. So text without
/// tags is only trimmed, a paragraph leaves its text, and two leave theirs with
/// one line break between.
pub proof fn law_inline_html(html: Seq<char>, x: Seq<char>, gap: Seq<char>, y: Seq<char>)
    requires
        !x.contains('<'),
        !y.contains('<'),
        forall|i: int| 0 <= i < gap.len() ==> in_class(CharClass::Whitespace, #[trigger] gap[i]),
    ensures
        inlined(html) == trimmed(
            replaced(replaced(paragraphs_joined(trimmed(html)), "</p>"@, ""@), "<p>"@, ""@),
        ),
        inlined(x) == trimmed(trimmed(x)),
        inlined("<p>"@ + x + "</p>"@) == trimmed(x),
        inlined("<p>"@ + x + ("</p>"@ + gap + "<p>"@ + (y + "</p>"@))) == trimmed(
            x + "<br>"@ + y,
        ),
{
    reveal_strlit("<p>");
    reveal_strlit("</p>");
    reveal_strlit("<br>");
    reveal_strlit("");
    assert(""@ =~= seq![]);
    let (o, c, br) = ("<p>"@, "</p>"@, "<br>"@);
    // Text without tags.
    let tx = trimmed(x);
    lemma_trimmed_holds_none(x, '<');
    lemma_paragraphs_behind(tx, seq![]);
    assert(tx + seq![] =~= tx);
    lemma_no_tag_replaced(tx, c);
    lemma_no_tag_replaced(tx, o);
    // One paragraph.
    let one = o + x + c;
    lemma_framed_is_trimmed(one);
    lemma_last_paragraph(x);
    assert(one =~= o + (x + c));
    lemma_opened(x + c);
    lemma_tag_dropped(x);
    // Two paragraphs.
    let tail = c + gap + o + (y + c);
    let two = o + x + tail;
    assert(two.last() == '>');
    lemma_framed_is_trimmed(two);
    assert(two =~= o + (x + tail));
    lemma_opened(x + tail);
    lemma_paragraphs_behind(x, tail);
    law_paragraph_break_becomes_line_break(gap, y + c);
    lemma_last_paragraph(y);
    let mid = x + (br + (y + c));
    assert(paragraphs_joined(two) == o + mid);
    assert(mid =~= x + br + y + c);
    lemma_two_dropped(x, y);
}

proof fn lemma_no_tag_replaced(s: Seq<char>, p: Seq<char>)
    requires
        !s.contains('<'),
        p.len() > 0,
        p[0] == '<',
    ensures
        replaced(s, p, seq![]) == s,
{
    lemma_replaced_behind_plain(s, seq![], p, seq![]);
    assert(s + seq![] =~= s);
}

proof fn lemma_framed_is_trimmed(s: Seq<char>)
    requires
        s.len() > 0,
        s[0] == '<',
        s.last() == '>',
    ensures
        trimmed(s) == s,
{
}

/// The start of a paragraph stays for itself.
proof fn lemma_opened(rest: Seq<char>)
    ensures
        paragraphs_joined("<p>"@ + rest) == "<p>"@ + paragraphs_joined(rest),
{
    reveal_strlit("<p>");
    reveal_strlit("</p>");
    let s = "<p>"@ + rest;
    law_begins_with(s, "</p>"@);
    assert(s[1] == 'p' && "</p>"@[1] == '/');
    let t = seq!['p', '>'];
    assert(!t.contains('<'));
    assert(s.skip(1) =~= t + rest);
    lemma_paragraphs_behind(t, rest);
    assert(seq!['<'] + (t + paragraphs_joined(rest)) =~= "<p>"@ + paragraphs_joined(rest));
}

/// The last paragraph keeps its end.
proof fn lemma_last_paragraph(y: Seq<char>)
    requires
        !y.contains('<'),
    ensures
        paragraphs_joined(y + "</p>"@) == y + "</p>"@,
{
    reveal_strlit("</p>");
    reveal_strlit("<p>");
    let c = "</p>"@;
    lemma_paragraphs_behind(y, c);
    assert(c.skip(4) =~= seq![]);
    law_begins_with(seq![], "<p>"@);
    assert(after_paragraph_break(c) is None);
    let t = c.skip(1);
    assert(!t.contains('<'));
    lemma_paragraphs_behind(t, seq![]);
    assert(t + seq![] =~= t);
    assert(seq!['<'] + t =~= c);
}

/// Dropping the tags of a paragraph around `x` leaves `x`.
proof fn lemma_tag_dropped(x: Seq<char>)
    requires
        !x.contains('<'),
    ensures
        replaced(replaced("<p>"@ + (x + "</p>"@), "</p>"@, seq![]), "<p>"@, seq![]) == x,
{
    reveal_strlit("<p>");
    reveal_strlit("</p>");
    let (o, c) = ("<p>"@, "</p>"@);
    let e: Seq<char> = seq![];
    lemma_open_passes(x + c);
    lemma_replaced_behind_plain(x, c, c, e);
    lemma_entity_here(c, e, e);
    assert(c + e =~= c);
    assert(e + replaced(e, c, e) =~= e);
    assert(x + e =~= x);
    lemma_entity_here(o, x, e);
    lemma_no_tag_replaced(x, o);
    assert(e + x =~= x);
}

/// The end of a paragraph is not found in its start.
proof fn lemma_open_passes(rest: Seq<char>)
    ensures
        replaced("<p>"@ + rest, "</p>"@, seq![]) == "<p>"@ + replaced(rest, "</p>"@, seq![]),
{
    reveal_strlit("<p>");
    reveal_strlit("</p>");
    let s = "<p>"@ + rest;
    assert forall|i: int| 0 <= i < 3 implies !begins_with(#[trigger] s.skip(i), "</p>"@) by {
        law_begins_with(s.skip(i), "</p>"@);
        assert(s.skip(i)[0] == s[i]);
        assert(i == 0 ==> s.skip(i)[1] == 'p');
        assert("</p>"@[1] == '/');
    }
    lemma_replaced_behind("<p>"@, rest, "</p>"@, seq![]);
}

proof fn lemma_two_dropped(x: Seq<char>, y: Seq<char>)
    requires
        !x.contains('<'),
        !y.contains('<'),
    ensures
        replaced(
            replaced("<p>"@ + (x + "<br>"@ + y + "</p>"@), "</p>"@, seq![]),
            "<p>"@,
            seq![],
        ) == x + "<br>"@ + y,
{
    reveal_strlit("<p>");
    reveal_strlit("</p>");
    reveal_strlit("<br>");
    let (o, c, br) = ("<p>"@, "</p>"@, "<br>"@);
    let e: Seq<char> = seq![];
    let mid = x + br + y + c;
    lemma_open_passes(mid);
    assert(mid =~= x + (br + (y + c)));
    lemma_replaced_behind_plain(x, br + (y + c), c, e);
    lemma_break_passes(y + c, c);
    lemma_replaced_behind_plain(y, c, c, e);
    lemma_entity_here(c, e, e);
    assert(c + e =~= c);
    assert(e + replaced(e, c, e) =~= e);
    assert(y + e =~= y);
    let left = x + (br + y);
    lemma_entity_here(o, left, e);
    lemma_replaced_behind_plain(x, br + y, o, e);
    lemma_break_passes(y, o);
    lemma_no_tag_replaced(y, o);
    assert(e + left =~= x + br + y);
}

/// A line break is no tag of a paragraph.
proof fn lemma_break_passes(rest: Seq<char>, p: Seq<char>)
    requires
        p == "<p>"@ || p == "</p>"@,
    ensures
        replaced("<br>"@ + rest, p, seq![]) == "<br>"@ + replaced(rest, p, seq![]),
{
    reveal_strlit("<p>");
    reveal_strlit("</p>");
    reveal_strlit("<br>");
    let s = "<br>"@ + rest;
    assert forall|i: int| 0 <= i < 4 implies !begins_with(#[trigger] s.skip(i), p) by {
        law_begins_with(s.skip(i), p);
        assert(s.skip(i)[0] == s[i]);
        assert(i == 0 ==> s.skip(i)[1] == 'b');
        assert(p[1] != 'b' && p[0] == '<');
    }
    lemma_replaced_behind("<br>"@, rest, p, seq![]);
}

/// A reply block that is never closed is none: the HTML stays as it is.
pub proof fn law_unclosed_reply_block_stays(html: Seq<char>, start: int)
    requires
        find(html, "<mx-reply>"@) == Some(start),
        !contains(html.skip(start), "</mx-reply>"@),
    ensures
        without_mx_reply(html) == html,
{
}

/// `ls` one after another, each with a line feed behind it.
pub open spec fn terminated(ls: Seq<Seq<char>>) -> Seq<char>
    decreases ls.len(),
{
    if ls.len() == 0 {
        seq![]
    } else {
        ls[0] + seq!['\n'] + terminated(ls.skip(1))
    }
}

/// Whether `l` can be a line: it holds no line feed and does not end with a
/// carriage return.
pub open spec fn is_line(l: Seq<char>) -> bool {
    !l.contains('\n') && !(l.len() > 0 && l.last() == '\r')
}

proof fn lemma_terminated_lines(ls: Seq<Seq<char>>, rest: Seq<char>)
    requires
        forall|i: int| 0 <= i < ls.len() ==> is_line(#[trigger] ls[i]),
    ensures
        lines(terminated(ls) + rest) == ls + lines(rest),
    decreases ls.len(),
{
    if ls.len() == 0 {
        assert(terminated(ls) + rest =~= rest);
        assert(ls + lines(rest) =~= lines(rest));
    } else {
        let tail = ls.skip(1);
        assert(is_line(ls[0]));
        assert forall|i: int| 0 <= i < tail.len() implies is_line(#[trigger] tail[i]) by {
            assert(tail[i] == ls[i + 1]);
        }
        lemma_terminated_lines(tail, rest);
        law_lines(ls[0], terminated(tail) + rest);
        assert(terminated(ls) + rest =~= ls[0] + seq!['\n'] + (terminated(tail) + rest));
        assert(seq![ls[0]] + (tail + lines(rest)) =~= ls + lines(rest));
    }
}

proof fn lemma_lines_joined(text: Seq<char>)
    requires
        !text.contains('\r'),
        text.len() > 0 ==> text.last() != '\n',
    ensures
        joined(lines(text), "\n"@) == text,
        text.len() > 0 ==> lines(text).len() > 0,
    decreases text.len(),
{
    reveal_strlit("\n");
    assert("\n"@ =~= seq!['\n']);
    if text.len() == 0 {
        law_joining(seq![], seq![], "\n"@);
        assert(lines(text) =~= seq![]);
    } else {
        let k = lemma_first_feed(text);
        let line = text.take(k);
        assert(!line.contains('\n')) by {
            if line.contains('\n') {
                let i = choose|i: int| 0 <= i < line.len() && line[i] == '\n';
                assert(text[i] == '\n');
            }
        }
        assert(!(line.len() > 0 && line.last() == '\r')) by {
            if line.len() > 0 && line.last() == '\r' {
                assert(text[k - 1] == '\r');
            }
        }
        if k == text.len() {
            assert(line =~= text);
            law_lines(text, seq![]);
            law_joining(text, seq![], "\n"@);
        } else {
            let rest = text.skip(k + 1);
            assert(text =~= line + seq!['\n'] + rest);
            assert(rest.len() > 0) by {
                if rest.len() == 0 {
                    assert(text.last() == text[k]);
                }
            }
            assert(rest.last() == text.last());
            lemma_part_holds_none(text, k + 1, '\r');
            lemma_lines_joined(rest);
            law_lines(line, rest);
            law_joining(line, lines(rest), "\n"@);
        }
    }
}

/// The position of the first line feed, or the length.
proof fn lemma_first_feed(s: Seq<char>) -> (k: int)
    ensures
        0 <= k <= s.len(),
        forall|i: int| 0 <= i < k ==> #[trigger] s[i] != '\n',
        k < s.len() ==> s[k] == '\n',
    decreases s.len(),
{
    if s.len() == 0 || s[0] == '\n' {
        0
    } else {
        let t = s.skip(1);
        let k = lemma_first_feed(t);
        assert forall|i: int| 0 <= i < k + 1 implies #[trigger] s[i] != '\n' by {
            if i > 0 {
                assert(t[i - 1] == s[i]);
            }
        }
        if k < t.len() {
            assert(t[k] == s[k + 1]);
        }
        k + 1
    }
}

proof fn lemma_quoted_skipped(quoted: Seq<Seq<char>>, rest: Seq<Seq<char>>)
    requires
        forall|i: int| 0 <= i < quoted.len() ==> begins_with(#[trigger] quoted[i], "> "@),
        rest.len() > 0 ==> !begins_with(rest[0], "> "@),
    ensures
        after_quoted(quoted + rest) == rest,
    decreases quoted.len(),
{
    let all = quoted + rest;
    if quoted.len() == 0 {
        assert(all =~= rest);
    } else {
        let t = quoted.skip(1);
        assert(all[0] == quoted[0]);
        assert(all.skip(1) =~= t + rest);
        assert forall|i: int| 0 <= i < t.len() implies begins_with(#[trigger] t[i], "> "@) by {
            assert(t[i] == quoted[i + 1]);
        }
        lemma_quoted_skipped(t, rest);
    }
}

proof fn lemma_blank_skipped(blank: Seq<Seq<char>>, rest: Seq<Seq<char>>)
    requires
        forall|i: int| 0 <= i < blank.len() ==> is_blank(#[trigger] blank[i]),
        rest.len() > 0 ==> !is_blank(rest[0]),
    ensures
        after_blank(blank + rest) == rest,
    decreases blank.len(),
{
    let all = blank + rest;
    if blank.len() == 0 {
        assert(all =~= rest);
        if rest.len() > 0 {
            lemma_blank(rest[0]);
        }
    } else {
        let t = blank.skip(1);
        assert(all[0] == blank[0]);
        lemma_blank(blank[0]);
        assert(all.skip(1) =~= t + rest);
        assert forall|i: int| 0 <= i < t.len() implies is_blank(#[trigger] t[i]) by {
            assert(t[i] == blank[i + 1]);
        }
        lemma_blank_skipped(t, rest);
    }
}

/// Whether `l` holds nothing but white space.
pub open spec fn is_blank(l: Seq<char>) -> bool {
    forall|i: int| 0 <= i < l.len() ==> in_class(CharClass::Whitespace, #[trigger] l[i])
}

proof fn lemma_blank(l: Seq<char>)
    ensures
        trimmed(l).len() == 0 <==> is_blank(l),
{
    let (lo, hi) = law_trimming(l, CharClass::Whitespace);
    if lo < hi {
        assert(!in_class(CharClass::Whitespace, l[lo]));
    }
}

/// Stripping takes away the quoted lines at the top and the blank lines behind
/// them, and nothing of the text that follows, however many lines or paragraphs
/// it has: `first` is the first line of that text, which is neither quoted nor
/// blank, and `more` what comes after it. Where nothing follows, nothing is left.
pub proof fn law_reply_fallback_is_stripped(
    quoted: Seq<Seq<char>>,
    blank: Seq<Seq<char>>,
    first: Seq<char>,
    more: Seq<char>,
)
    requires
        quoted.len() > 0,
        forall|i: int|
            0 <= i < quoted.len() ==> is_line(#[trigger] quoted[i]) && quoted[i].len() >= 2
                && quoted[i][0] == '>' && quoted[i][1] == ' ',
        forall|i: int| 0 <= i < blank.len() ==> is_line(#[trigger] blank[i]) && is_blank(blank[i]),
        !first.contains('\n'),
        !first.contains('\r'),
        !(first.len() >= 2 && first[0] == '>' && first[1] == ' '),
        !is_blank(first),
        more.len() > 0 ==> more[0] == '\n' && more.last() != '\n',
        !more.contains('\r'),
    ensures
        without_reply_fallback(terminated(quoted) + (terminated(blank) + (first + more))) == first
            + more,
        without_reply_fallback(terminated(quoted) + terminated(blank)) == Seq::<char>::empty(),
{
    reveal_strlit("> ");
    let text = first + more;
    assert(first.len() > 0);
    assert(text.last() != '\n') by {
        if more.len() == 0 {
            assert(text.last() == first.last());
            assert(first.contains(first.last()));
        } else {
            assert(text.last() == more.last());
        }
    }
    lemma_joined_holds_none(first, more, '\r');
    assert(blank.len() >= 0);
    lemma_terminated_lines(blank, text);
    lemma_terminated_lines(quoted, terminated(blank) + text);
    lemma_lines_joined(text);
    lemma_first_line(first, more);
    let rest = lines(text);
    assert forall|i: int| 0 <= i < quoted.len() implies begins_with(#[trigger] quoted[i], "> "@) by {
        law_begins_with(quoted[i], "> "@);
        assert(is_line(quoted[i]));
    }
    assert forall|i: int| 0 <= i < blank.len() implies !begins_with(#[trigger] blank[i], "> "@) by {
        law_begins_with(blank[i], "> "@);
        if begins_with(blank[i], "> "@) {
            assert(blank[i][0] == "> "@[0]);
            assert(is_line(blank[i]) && is_blank(blank[i]));
            assert(in_class(CharClass::Whitespace, blank[i][0]));
        }
    }
    assert forall|i: int| 0 <= i < blank.len() implies is_blank(#[trigger] blank[i]) by {
        assert(is_line(blank[i]));
    }
    law_begins_with(first, "> "@);
    let behind = blank + rest;
    assert(!begins_with(behind[0], "> "@)) by {
        if blank.len() > 0 {
            assert(behind[0] == blank[0]);
        } else {
            assert(behind[0] == rest[0]);
            if begins_with(first, "> "@) {
                assert(first[0] == "> "@[0] && first[1] == "> "@[1]);
            }
        }
    }
    lemma_quoted_skipped(quoted, behind);
    lemma_blank_skipped(blank, rest);
    let raw = terminated(quoted) + (terminated(blank) + text);
    lemma_starts_quoted(quoted, terminated(blank) + text);
    assert(without_reply_fallback(raw) == text);
    // Where nothing follows.
    let none: Seq<char> = seq![];
    assert(lines(none) =~= seq![]);
    lemma_terminated_lines(blank, none);
    lemma_terminated_lines(quoted, terminated(blank) + none);
    assert(terminated(blank) + none =~= terminated(blank));
    assert(blank + lines(none) =~= blank);
    if blank.len() > 0 {
        assert(!begins_with(blank[0], "> "@));
    }
    lemma_quoted_skipped(quoted, blank);
    lemma_blank_skipped(blank, seq![]);
    assert(blank + Seq::<Seq<char>>::empty() =~= blank);
    lemma_starts_quoted(quoted, terminated(blank));
    law_joining(none, seq![], "\n"@);
}

proof fn lemma_starts_quoted(quoted: Seq<Seq<char>>, rest: Seq<char>)
    requires
        quoted.len() > 0,
        begins_with(quoted[0], "> "@),
    ensures
        begins_with(terminated(quoted) + rest, "> "@),
{
    reveal_strlit("> ");
    let raw = terminated(quoted) + rest;
    law_begins_with(quoted[0], "> "@);
    law_begins_with(raw, "> "@);
    assert forall|i: int| 0 <= i < 2 implies #[trigger] raw[i] == "> "@[i] by {
        assert(raw[i] == quoted[0][i]);
    }
}

proof fn lemma_first_line(first: Seq<char>, more: Seq<char>)
    requires
        first.len() > 0,
        !first.contains('\n'),
        !first.contains('\r'),
        more.len() > 0 ==> more[0] == '\n',
    ensures
        lines(first + more).len() > 0,
        lines(first + more)[0] == first,
{
    if more.len() == 0 {
        assert(first + more =~= first);
        law_lines(first, seq![]);
    } else {
        let rest = more.skip(1);
        assert(first + more =~= first + seq!['\n'] + rest);
        assert(first.last() != '\r') by {
            assert(first.contains(first.last()));
        }
        law_lines(first, rest);
    }
}

/// Nothing else breaks a line: where neither a paragraph ends, nor a line break
/// stands, nor a block-level element ends, the character stays as it is.
pub proof fn law_nothing_else_breaks_a_line(s: Seq<char>)
    requires
        s.len() > 0,
        !begins_with(s, "</p>"@),
        !begins_with(s, "<br>"@),
        !begins_with(s, "<br/>"@),
        !begins_with(s, "<br />"@),
        forall|name: Seq<char>| #[trigger]
            block_element(name) ==> !begins_with(s, "</"@ + name + ">"@),
    ensures
        broken_into_lines(s) == seq![s[0]] + broken_into_lines(s.skip(1)),
{
    reveal_strlit("</");
    reveal_strlit(">");
    if begins_with(s, "</"@) {
        let after = s.skip(2);
        lemma_find_is_first_occurrence(after, ">"@);
        if let Some(n) = find(after, ">"@) {
            let name = s.subrange(2, 2 + n);
            assert(after.subrange(n, n + 1)[0] == '>');
            assert(s[2 + n] == '>');
            let tag = "</"@ + name + ">"@;
            assert(s.take(2)[0] == '<' && s.take(2)[1] == '/');
            assert(s.take(tag.len() as int) =~= tag);
            assert(begins_with(s, tag));
            assert(!block_element(name));
        }
    }
    assert(line_end(s) is None);
}

/// The entities are decoded in turn, `&amp;` before the others: what it leaves
/// may be one of them. No other entity is decoded.
pub proof fn law_entities_are_decoded_in_turn(s: Seq<char>)
    ensures
        ({
            let amp = replaced(s, seq!['&', 'a', 'm', 'p', ';'], seq!['&']);
            let lt = replaced(amp, seq!['&', 'l', 't', ';'], seq!['<']);
            let gt = replaced(lt, seq!['&', 'g', 't', ';'], seq!['>']);
            let quot = replaced(gt, seq!['&', 'q', 'u', 'o', 't', ';'], seq!['"']);
            entities_decoded(s) == replaced(quot, seq!['&', '#', '3', '9', ';'], seq!['\''])
        }),
{
    reveal_strlit("&amp;");
    reveal_strlit("&");
    reveal_strlit("&lt;");
    reveal_strlit("<");
    reveal_strlit("&gt;");
    reveal_strlit(">");
    reveal_strlit("&quot;");
    reveal_strlit("\"");
    reveal_strlit("&#39;");
    reveal_strlit("'");
    assert("&amp;"@ =~= seq!['&', 'a', 'm', 'p', ';'] && "&"@ =~= seq!['&']);
    assert("&lt;"@ =~= seq!['&', 'l', 't', ';'] && "<"@ =~= seq!['<']);
    assert("&gt;"@ =~= seq!['&', 'g', 't', ';'] && ">"@ =~= seq!['>']);
    assert("&quot;"@ =~= seq!['&', 'q', 'u', 'o', 't', ';'] && "\""@ =~= seq!['"']);
    assert("&#39;"@ =~= seq!['&', '#', '3', '9', ';'] && "'"@ =~= seq!['\'']);
}

/// The lines of a body that starts with a quotation: the first `q` are quoted and
/// the next is not, those up to `b` are blank and the next is not, and from there
/// on every line is left.
pub proof fn law_lines_behind_a_quotation(raw: Seq<char>) -> (r: (int, int))
    requires
        raw.len() >= 2,
        raw[0] == '>',
        raw[1] == ' ',
    ensures
        ({
            let ls = lines(raw);
            let (q, b) = r;
            let is_quoted = |l: Seq<char>| l.len() >= 2 && l[0] == '>' && l[1] == ' ';
            &&& 0 <= q <= b <= ls.len()
            &&& forall|i: int| 0 <= i < q ==> is_quoted(#[trigger] ls[i])
            &&& q < ls.len() ==> !is_quoted(ls[q])
            &&& forall|i: int| q <= i < b ==> is_blank(#[trigger] ls[i])
            &&& b < ls.len() ==> !is_blank(ls[b])
            &&& without_reply_fallback(raw) == joined(ls.skip(b), seq!['\n'])
        }),
{
    reveal_strlit("> ");
    reveal_strlit("\n");
    assert("\n"@ =~= seq!['\n']);
    assert(raw.take(2) =~= "> "@);
    let ls = lines(raw);
    let q = lemma_after_quoted(ls);
    let rest = ls.skip(q);
    let n = lemma_after_blank(rest);
    assert(rest.skip(n) =~= ls.skip(q + n));
    assert forall|i: int| q <= i < q + n implies is_blank(#[trigger] ls[i]) by {
        assert(rest[i - q] == ls[i]);
    }
    if q + n < ls.len() {
        assert(rest[n] == ls[q + n]);
    }
    (q, q + n)
}

proof fn lemma_after_quoted(ls: Seq<Seq<char>>) -> (q: int)
    ensures
        0 <= q <= ls.len(),
        forall|i: int|
            0 <= i < q ==> (#[trigger] ls[i]).len() >= 2 && ls[i][0] == '>' && ls[i][1] == ' ',
        q < ls.len() ==> !(ls[q].len() >= 2 && ls[q][0] == '>' && ls[q][1] == ' '),
        after_quoted(ls) == ls.skip(q),
    decreases ls.len(),
{
    reveal_strlit("> ");
    if ls.len() > 0 && begins_with(ls[0], "> "@) {
        let t = ls.skip(1);
        let q = lemma_after_quoted(t);
        assert(ls[0].take(2)[0] == '>' && ls[0].take(2)[1] == ' ');
        assert forall|i: int| 0 <= i < q + 1 implies (#[trigger] ls[i]).len() >= 2 && ls[i][0]
            == '>' && ls[i][1] == ' ' by {
            if i > 0 {
                assert(t[i - 1] == ls[i]);
            }
        }
        assert(t.skip(q) =~= ls.skip(q + 1));
        if q + 1 < ls.len() {
            assert(t[q] == ls[q + 1]);
        }
        q + 1
    } else {
        if ls.len() > 0 && ls[0].len() >= 2 && ls[0][0] == '>' && ls[0][1] == ' ' {
            assert(ls[0].take(2) =~= "> "@);
        }
        assert(ls.skip(0) =~= ls);
        0
    }
}

proof fn lemma_after_blank(ls: Seq<Seq<char>>) -> (n: int)
    ensures
        0 <= n <= ls.len(),
        forall|i: int| 0 <= i < n ==> is_blank(#[trigger] ls[i]),
        n < ls.len() ==> !is_blank(ls[n]),
        after_blank(ls) == ls.skip(n),
    decreases ls.len(),
{
    if ls.len() > 0 {
        let (lo, hi) = law_trimming(ls[0], CharClass::Whitespace);
        if trimmed(ls[0]).len() == 0 {
            let t = ls.skip(1);
            let n = lemma_after_blank(t);
            assert forall|i: int| 0 <= i < n + 1 implies is_blank(#[trigger] ls[i]) by {
                if i > 0 {
                    assert(t[i - 1] == ls[i]);
                }
            }
            assert(t.skip(n) =~= ls.skip(n + 1));
            if n + 1 < ls.len() {
                assert(t[n] == ls[n + 1]);
            }
            n + 1
        } else {
            assert(!in_class(CharClass::Whitespace, ls[0][lo]));
            assert(ls.skip(0) =~= ls);
            0
        }
    } else {
        assert(ls.skip(0) =~= ls);
        0
    }
}

/// Markdown is rendered with tables, footnotes, strikethrough and task lists: the
/// bits one to four, and no other.
pub proof fn law_render_options()
    ensures
        RENDER_OPTIONS == 2 + 4 + 8 + 16,
{
}

} // verus!
