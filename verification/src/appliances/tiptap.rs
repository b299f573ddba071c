//! TipTap rich-text documents: HTML rendering for guests, plain-text
//! extraction and how-to steps, over the JSON tree of a description.

use vstd::prelude::*;

use crate::json::{
    array_member, digits_value, get_array, get_of, get_path, get_str, is_digit_text, json_parse,
    lemma_array_member_smaller, parse_json, path_of, str_of, JsonValue,
};
use crate::text::{chars_of, is_blank, push_char, str_eq, trim, trim_str};

verus! {

/// `opt.unwrap_or(default)` for texts.
pub open spec fn text_or(o: Option<Seq<char>>, default: Seq<char>) -> Seq<char> {
    match o {
        Some(s) => s,
        None => default,
    }
}

/// The node's `type` (empty when missing or not a string).
pub open spec fn type_of(v: JsonValue) -> Seq<char> {
    text_or(str_of(get_of(v, "type"@)), Seq::empty())
}

/// The node's `content` array, if it has one.
pub open spec fn content_of(v: JsonValue) -> Option<Seq<JsonValue>> {
    array_member(v, "content"@)
}

/// HTML escape of one character.
pub open spec fn escape_char(c: char) -> Seq<char> {
    if c == '&' {
        "&amp;"@
    } else if c == '<' {
        "&lt;"@
    } else if c == '>' {
        "&gt;"@
    } else if c == '"' {
        "&quot;"@
    } else if c == '\'' {
        "&#39;"@
    } else {
        seq![c]
    }
}

/// HTML escape of a text: `& < > " '` become entities.
pub open spec fn escaped(s: Seq<char>) -> Seq<char>
    decreases s.len(),
{
    if s.len() == 0 {
        Seq::empty()
    } else {
        escaped(s.drop_last()) + escape_char(s.last())
    }
}

/// Characters that never appear raw in escaped text.
pub open spec fn is_markup_char(c: char) -> bool {
    c == '<' || c == '>' || c == '"' || c == '\''
}

/// Heading level: `attrs.level` as an unsigned integer (2 when absent),
/// clamped to `1..=3`.
pub open spec fn heading_level(node: JsonValue) -> nat {
    let raw: nat = match path_of(node, "attrs"@, "level"@) {
        Some(JsonValue::Number(t)) => if is_digit_text(t@) {
            digits_value(t@)
        } else {
            2
        },
        _ => 2,
    };
    if raw < 1 {
        1
    } else if raw > 3 {
        3
    } else {
        raw
    }
}

/// Text of a heading level (`1`, `2` or `3`).
pub open spec fn level_text(l: nat) -> Seq<char> {
    if l == 1 {
        "1"@
    } else if l == 2 {
        "2"@
    } else {
        "3"@
    }
}

/// A text node's HTML wrapped by one mark.
pub open spec fn apply_mark(mark: JsonValue, html: Seq<char>) -> Seq<char> {
    let t = type_of(mark);
    if t == "bold"@ || t == "strong"@ {
        "<strong>"@ + html + "</strong>"@
    } else if t == "italic"@ || t == "em"@ {
        "<em>"@ + html + "</em>"@
    } else if t == "underline"@ {
        "<u>"@ + html + "</u>"@
    } else if t == "code"@ {
        "<code>"@ + html + "</code>"@
    } else if t == "link"@ {
        let href = text_or(str_of(path_of(mark, "attrs"@, "href"@)), "#"@);
        "<a href=\""@ + escaped(href) + "\" rel=\"noopener noreferrer\" target=\"_blank\">"@ + html
            + "</a>"@
    } else {
        html
    }
}

/// Marks applied in order, the first innermost.
pub open spec fn apply_marks(marks: Seq<JsonValue>, html: Seq<char>) -> Seq<char>
    decreases marks.len(),
{
    if marks.len() == 0 {
        html
    } else {
        apply_mark(marks.last(), apply_marks(marks.drop_last(), html))
    }
}

/// HTML of an inline node.
pub open spec fn inline_html(node: JsonValue) -> Seq<char>
    decreases node, 0int,
{
    let t = type_of(node);
    if t == "text"@ {
        let text = text_or(str_of(get_of(node, "text"@)), Seq::empty());
        match array_member(node, "marks"@) {
            Some(marks) => apply_marks(marks, escaped(text)),
            None => escaped(text),
        }
    } else if t == "hardBreak"@ {
        "<br/>"@
    } else {
        proof {
            lemma_array_member_smaller(node, "content"@);
        }
        match content_of(node) {
            Some(children) => inlines_html(children),
            None => Seq::empty(),
        }
    }
}

/// HTML of inline nodes, in order.
pub open spec fn inlines_html(s: Seq<JsonValue>) -> Seq<char>
    decreases s, 0int,
{
    if s.len() == 0 {
        Seq::empty()
    } else {
        inlines_html(s.drop_last()) + inline_html(s.last())
    }
}

/// HTML of a node's inline children (nothing without a `content` array).
pub open spec fn inline_children_html(node: JsonValue) -> Seq<char> {
    match content_of(node) {
        Some(children) => inlines_html(children),
        None => Seq::empty(),
    }
}

/// HTML of a block node.
pub open spec fn block_html(node: JsonValue) -> Seq<char>
    decreases node, 2int,
{
    let t = type_of(node);
    proof {
        lemma_array_member_smaller(node, "content"@);
    }
    if t == "paragraph"@ {
        "<p>"@ + inline_children_html(node) + "</p>"@
    } else if t == "heading"@ {
        let l = level_text(heading_level(node));
        "<h"@ + l + ">"@ + inline_children_html(node) + "</h"@ + l + ">"@
    } else if t == "bulletList"@ || t == "orderedList"@ {
        "<ol class=\"appliance-steps\">"@ + match content_of(node) {
            Some(items) => items_html(items),
            None => Seq::empty(),
        } + "</ol>"@
    } else if t == "blockquote"@ {
        "<blockquote>"@ + match content_of(node) {
            Some(children) => blocks_html(children),
            None => Seq::empty(),
        } + "</blockquote>"@
    } else if t == "codeBlock"@ {
        "<pre><code>"@ + inline_children_html(node) + "</code></pre>"@
    } else if t == "hardBreak"@ {
        "<br/>"@
    } else if t == "horizontalRule"@ {
        "<hr/>"@
    } else {
        match content_of(node) {
            Some(children) => blocks_html(children),
            None => match str_of(get_of(node, "text"@)) {
                Some(text) => escaped(text),
                None => Seq::empty(),
            },
        }
    }
}

/// HTML of block nodes, in order.
pub open spec fn blocks_html(s: Seq<JsonValue>) -> Seq<char>
    decreases s, 2int,
{
    if s.len() == 0 {
        Seq::empty()
    } else {
        blocks_html(s.drop_last()) + block_html(s.last())
    }
}

/// List items, each as `<li>..</li>`.
pub open spec fn items_html(s: Seq<JsonValue>) -> Seq<char>
    decreases s, 2int,
{
    if s.len() == 0 {
        Seq::empty()
    } else {
        items_html(s.drop_last()) + "<li>"@ + item_body_html(s.last()) + "</li>"@
    }
}

/// Body of a list item: paragraphs inline, separated by `<br/>`; other
/// blocks rendered as blocks.
pub open spec fn item_body_html(item: JsonValue) -> Seq<char>
    decreases item, 2int,
{
    proof {
        lemma_array_member_smaller(item, "content"@);
    }
    match content_of(item) {
        Some(children) => item_parts_html(children),
        None => Seq::empty(),
    }
}

/// The children of a list item, the first at position 0.
pub open spec fn item_parts_html(s: Seq<JsonValue>) -> Seq<char>
    decreases s, 2int,
{
    if s.len() == 0 {
        Seq::empty()
    } else {
        let c = s.last();
        let part = if type_of(c) == "paragraph"@ {
            (if s.len() > 1 {
                "<br/>"@
            } else {
                Seq::empty()
            }) + inline_children_html(c)
        } else {
            block_html(c)
        };
        item_parts_html(s.drop_last()) + part
    }
}

/// Non-empty `text` values of a node and its descendants, depth first.
pub open spec fn texts_of(node: JsonValue) -> Seq<Seq<char>>
    decreases node, 0int,
{
    let own: Seq<Seq<char>> = match str_of(get_of(node, "text"@)) {
        Some(t) => if t.len() > 0 {
            seq![t]
        } else {
            Seq::empty()
        },
        None => Seq::empty(),
    };
    proof {
        lemma_array_member_smaller(node, "content"@);
    }
    own + match content_of(node) {
        Some(children) => texts_list(children),
        None => Seq::empty(),
    }
}

/// Texts of nodes, in order.
pub open spec fn texts_list(s: Seq<JsonValue>) -> Seq<Seq<char>>
    decreases s, 0int,
{
    if s.len() == 0 {
        Seq::empty()
    } else {
        texts_list(s.drop_last()) + texts_of(s.last())
    }
}

/// Parts joined with a separator.
pub open spec fn join(parts: Seq<Seq<char>>, sep: Seq<char>) -> Seq<char>
    decreases parts.len(),
{
    if parts.len() == 0 {
        Seq::empty()
    } else if parts.len() == 1 {
        parts[0]
    } else {
        join(parts.drop_last(), sep) + sep + parts.last()
    }
}

/// The parsed document, when the text is a TipTap `doc`.
pub open spec fn doc_of(trimmed: Seq<char>) -> Option<JsonValue> {
    match json_parse(trimmed) {
        Some(v) => if str_of(get_of(v, "type"@)) == Some("doc"@) {
            Some(v)
        } else {
            None
        },
        None => None,
    }
}

/// Guest HTML of a description: the document's blocks; a text that is not a
/// TipTap document becomes one escaped paragraph; blank gives nothing.
pub open spec fn description_html(description: Seq<char>) -> Seq<char> {
    let t = trim(description);
    if t.len() == 0 {
        Seq::empty()
    } else {
        match doc_of(t) {
            Some(v) => match content_of(v) {
                Some(children) => blocks_html(children),
                None => Seq::empty(),
            },
            None => "<p>"@ + escaped(t) + "</p>"@,
        }
    }
}

/// Plain text of a description: the document's texts, one per line; a text
/// that is not a TipTap document is returned trimmed.
pub open spec fn description_text(description: Seq<char>) -> Seq<char> {
    let t = trim(description);
    if t.len() == 0 {
        Seq::empty()
    } else {
        match doc_of(t) {
            Some(v) => join(texts_of(v), "\n"@),
            None => t,
        }
    }
}

/// Steps of one list: each item's texts joined by spaces and trimmed, blank
/// items dropped.
pub open spec fn list_steps(items: Seq<JsonValue>) -> Seq<Seq<char>>
    decreases items.len(),
{
    if items.len() == 0 {
        Seq::empty()
    } else {
        let text = trim(join(texts_of(items.last()), " "@));
        list_steps(items.drop_last()) + if text.len() > 0 {
            seq![text]
        } else {
            Seq::empty()
        }
    }
}

/// Steps of the top-level bullet and ordered lists, in order.
pub open spec fn blocks_steps(blocks: Seq<JsonValue>) -> Seq<Seq<char>>
    decreases blocks.len(),
{
    if blocks.len() == 0 {
        Seq::empty()
    } else {
        let b = blocks.last();
        let t = type_of(b);
        blocks_steps(blocks.drop_last()) + if t == "bulletList"@ || t == "orderedList"@ {
            match content_of(b) {
                Some(items) => list_steps(items),
                None => Seq::empty(),
            }
        } else {
            Seq::empty()
        }
    }
}

/// How-to steps of a description (none unless it is a TipTap document).
pub open spec fn description_steps(description: Seq<char>) -> Seq<Seq<char>> {
    let t = trim(description);
    if t.len() == 0 {
        Seq::empty()
    } else {
        match doc_of(t) {
            Some(v) => match content_of(v) {
                Some(children) => blocks_steps(children),
                None => Seq::empty(),
            },
            None => Seq::empty(),
        }
    }
}

fn push_escaped_char(out: &mut String, c: char)
    ensures
        final(out)@ == old(out)@ + escape_char(c),
{
    if c == '&' {
        out.append("&amp;");
    } else if c == '<' {
        out.append("&lt;");
    } else if c == '>' {
        out.append("&gt;");
    } else if c == '"' {
        out.append("&quot;");
    } else if c == '\'' {
        out.append("&#39;");
    } else {
        push_char(out, c);
        assert(out@ =~= old(out)@ + seq![c]);
    }
}

/// Appends the HTML-escaped text.
fn push_escaped(out: &mut String, input: &str)
    ensures
        final(out)@ == old(out)@ + escaped(input@),
{
    let c = chars_of(input);
    let mut i: usize = 0;
    while i < c.len()
        invariant
            c@ == input@,
            i <= c@.len(),
            out@ == old(out)@ + escaped(c@.subrange(0, i as int)),
        decreases c.len() - i,
    {
        assert(c@.subrange(0, i + 1).drop_last() =~= c@.subrange(0, i as int));
        push_escaped_char(out, c[i]);
        i = i + 1;
        assert(out@ =~= old(out)@ + escaped(c@.subrange(0, i as int)));
    }
    assert(c@.subrange(0, i as int) =~= input@);
}

/// HTML-escaped copy of a text.
pub fn escape_html(input: &str) -> (r: String)
    ensures
        r@ == escaped(input@),
{
    let mut out = String::new();
    push_escaped(&mut out, input);
    assert(out@ =~= escaped(input@));
    out
}

/// Attribute values are escaped as text is.
pub fn escape_attr(input: &str) -> (r: String)
    ensures
        r@ == escaped(input@),
{
    escape_html(input)
}

/// Escaped text holds no raw `<`, `>`, `"` or `'`: nothing a text puts
/// through the escape can open or close a tag or an attribute.
pub proof fn lemma_escaped_has_no_markup(s: Seq<char>)
    ensures
        forall|i: int| 0 <= i < escaped(s).len() ==> !is_markup_char(#[trigger] escaped(s)[i]),
    decreases s.len(),
{
    reveal_strlit("&amp;");
    reveal_strlit("&lt;");
    reveal_strlit("&gt;");
    reveal_strlit("&quot;");
    reveal_strlit("&#39;");
    if s.len() > 0 {
        lemma_escaped_has_no_markup(s.drop_last());
        let a = escaped(s.drop_last());
        let b = escape_char(s.last());
        assert forall|i: int| 0 <= i < escaped(s).len() implies !is_markup_char(
            #[trigger] escaped(s)[i],
        ) by {
            if i < a.len() {
                assert(escaped(s)[i] == a[i]);
            } else {
                assert(escaped(s)[i] == b[i - a.len()]);
            }
        }
    }
}

/// Type of a node, as `node.get("type").and_then(as_str).unwrap_or("")`.
fn node_type(node: &JsonValue) -> (r: &str)
    ensures
        r@ == type_of(*node),
{
    match get_str(node, "type") {
        Some(t) => t,
        None => {
            proof {
                reveal_strlit("");
            }
            ""
        },
    }
}

/// Capped value of a digit text: `min(value, 4)`, enough for the clamp.
fn heading_level_of(node: &JsonValue) -> (r: usize)
    ensures
        r == heading_level(*node),
{
    let raw: usize = match get_path(node, "attrs", "level") {
        Some(JsonValue::Number(t)) => {
            let c = chars_of(t.as_str());
            let mut v: usize = 0;
            let mut ok = c.len() > 0;
            let mut i: usize = 0;
            while i < c.len()
                invariant
                    c@ == t@,
                    i <= c@.len(),
                    ok == (c@.len() > 0 && forall|k: int|
                        0 <= k < i ==> '0' <= #[trigger] c@[k] <= '9'),
                    ok ==> v == (if digits_value(c@.subrange(0, i as int)) < 4 {
                        digits_value(c@.subrange(0, i as int))
                    } else {
                        4
                    }),
                decreases c.len() - i,
            {
                let ch = c[i];
                assert(c@.subrange(0, i + 1).drop_last() =~= c@.subrange(0, i as int));
                if ch >= '0' && ch <= '9' {
                    let d = (ch as u32 - '0' as u32) as usize;
                    if ok {
                        v = if v >= 4 {
                            4
                        } else {
                            let n = v * 10 + d;
                            if n < 4 {
                                n
                            } else {
                                4
                            }
                        };
                    }
                } else {
                    ok = false;
                }
                i = i + 1;
            }
            assert(c@.subrange(0, i as int) =~= t@);
            if ok {
                v
            } else {
                2
            }
        },
        _ => 2,
    };
    if raw < 1 {
        1
    } else if raw > 3 {
        3
    } else {
        raw
    }
}

fn push_level(out: &mut String, level: usize)
    requires
        1 <= level <= 3,
    ensures
        final(out)@ == old(out)@ + level_text(level as nat),
{
    if level == 1 {
        out.append("1");
    } else if level == 2 {
        out.append("2");
    } else {
        out.append("3");
    }
}

fn apply_mark_exec(mark: &JsonValue, html: String) -> (r: String)
    ensures
        r@ == apply_mark(*mark, html@),
{
    let t = node_type(mark);
    let mut out = String::new();
    if str_eq(t, "bold") || str_eq(t, "strong") {
        out.append("<strong>");
        out.append(html.as_str());
        out.append("</strong>");
    } else if str_eq(t, "italic") || str_eq(t, "em") {
        out.append("<em>");
        out.append(html.as_str());
        out.append("</em>");
    } else if str_eq(t, "underline") {
        out.append("<u>");
        out.append(html.as_str());
        out.append("</u>");
    } else if str_eq(t, "code") {
        out.append("<code>");
        out.append(html.as_str());
        out.append("</code>");
    } else if str_eq(t, "link") {
        let href: &str = match get_path(mark, "attrs", "href") {
            Some(h) => match h.as_str() {
                Some(s) => s,
                None => "#",
            },
            None => "#",
        };
        out.append("<a href=\"");
        let esc = escape_attr(href);
        out.append(esc.as_str());
        out.append("\" rel=\"noopener noreferrer\" target=\"_blank\">");
        out.append(html.as_str());
        out.append("</a>");
    } else {
        return html;
    }
    assert(out@ =~= apply_mark(*mark, html@));
    out
}

fn render_inline(node: &JsonValue, out: &mut String)
    ensures
        final(out)@ == old(out)@ + inline_html(*node),
    decreases node, 1int,
{
    let t = node_type(node);
    if str_eq(t, "text") {
        let text: &str = match get_str(node, "text") {
            Some(s) => s,
            None => {
                proof {
                    reveal_strlit("");
                }
                ""
            },
        };
        let mut html = escape_html(text);
        match get_array(node, "marks") {
            Some(marks) => {
                let mut i: usize = 0;
                while i < marks.len()
                    invariant
                        i <= marks@.len(),
                        html@ == apply_marks(marks@.subrange(0, i as int), escaped(text@)),
                    decreases marks.len() - i,
                {
                    assert(marks@.subrange(0, i + 1).drop_last() =~= marks@.subrange(0, i as int));
                    html = apply_mark_exec(&marks[i], html);
                    i = i + 1;
                }
                assert(marks@.subrange(0, i as int) =~= marks@);
            },
            None => {},
        }
        out.append(html.as_str());
    } else if str_eq(t, "hardBreak") {
        out.append("<br/>");
    } else {
        render_inline_children(node, out);
    }
}

fn render_inline_children(node: &JsonValue, out: &mut String)
    ensures
        final(out)@ == old(out)@ + inline_children_html(*node),
    decreases node, 0int,
{
    proof {
        lemma_array_member_smaller(*node, "content"@);
    }
    match get_array(node, "content") {
        Some(children) => {
            let ghost start = out@;
            let mut i: usize = 0;
            while i < children.len()
                invariant
                    i <= children@.len(),
                    content_of(*node) == Some(children@),
                    decreases_to!(*node => children@),
                    out@ == start + inlines_html(children@.subrange(0, i as int)),
                decreases children.len() - i,
            {
                let ghost sub = children@.subrange(0, i + 1);
                assert(sub.drop_last() =~= children@.subrange(0, i as int));
                assert(decreases_to!(children@ => children@[i as int]));
                render_inline(&children[i], out);
                i = i + 1;
                assert(out@ =~= start + inlines_html(children@.subrange(0, i as int)));
            }
            assert(children@.subrange(0, i as int) =~= children@);
        },
        None => {},
    }
    assert(out@ =~= old(out)@ + inline_children_html(*node));
}

fn render_blocks(children: &Vec<JsonValue>, out: &mut String, Ghost(parent): Ghost<JsonValue>)
    requires
        decreases_to!(parent => children@),
    ensures
        final(out)@ == old(out)@ + blocks_html(children@),
    decreases parent, 0int,
{
    let mut i: usize = 0;
    while i < children.len()
        invariant
            i <= children@.len(),
            decreases_to!(parent => children@),
            out@ == old(out)@ + blocks_html(children@.subrange(0, i as int)),
        decreases children.len() - i,
    {
        assert(children@.subrange(0, i + 1).drop_last() =~= children@.subrange(0, i as int));
        assert(decreases_to!(children@ => children@[i as int]));
        render_block(&children[i], out);
        i = i + 1;
        assert(out@ =~= old(out)@ + blocks_html(children@.subrange(0, i as int)));
    }
    assert(children@.subrange(0, i as int) =~= children@);
}

fn render_list_item_body(item: &JsonValue, out: &mut String)
    ensures
        final(out)@ == old(out)@ + item_body_html(*item),
    decreases item, 1int,
{
    proof {
        lemma_array_member_smaller(*item, "content"@);
    }
    match get_array(item, "content") {
        Some(children) => {
            let mut i: usize = 0;
            while i < children.len()
                invariant
                    i <= children@.len(),
                    content_of(*item) == Some(children@),
                    decreases_to!(*item => children@),
                    out@ == old(out)@ + item_parts_html(children@.subrange(0, i as int)),
                decreases children.len() - i,
            {
                assert(children@.subrange(0, i + 1).drop_last() =~= children@.subrange(0, i as int));
                assert(decreases_to!(children@ => children@[i as int]));
                let child = &children[i];
                if str_eq(node_type(child), "paragraph") {
                    if i > 0 {
                        out.append("<br/>");
                    } else {
                        proof {
                            reveal_strlit("");
                        }
                    }
                    render_inline_children(child, out);
                } else {
                    render_block(child, out);
                }
                i = i + 1;
                assert(out@ =~= old(out)@ + item_parts_html(children@.subrange(0, i as int)));
            }
            assert(children@.subrange(0, i as int) =~= children@);
        },
        None => {},
    }
    assert(out@ =~= old(out)@ + item_body_html(*item));
}

fn render_block(node: &JsonValue, out: &mut String)
    ensures
        final(out)@ == old(out)@ + block_html(*node),
    decreases node, 2int,
{
    proof {
        lemma_array_member_smaller(*node, "content"@);
    }
    let t = node_type(node);
    if str_eq(t, "paragraph") {
        out.append("<p>");
        render_inline_children(node, out);
        out.append("</p>");
    } else if str_eq(t, "heading") {
        let level = heading_level_of(node);
        out.append("<h");
        push_level(out, level);
        out.append(">");
        render_inline_children(node, out);
        out.append("</h");
        push_level(out, level);
        out.append(">");
    } else if str_eq(t, "bulletList") || str_eq(t, "orderedList") {
        out.append("<ol class=\"appliance-steps\">");
        let ghost mid = out@;
        match get_array(node, "content") {
            Some(items) => {
                let mut i: usize = 0;
                while i < items.len()
                    invariant
                        i <= items@.len(),
                        decreases_to!(*node => items@),
                        out@ == mid + items_html(items@.subrange(0, i as int)),
                    decreases items.len() - i,
                {
                    assert(items@.subrange(0, i + 1).drop_last() =~= items@.subrange(0, i as int));
                    assert(decreases_to!(items@ => items@[i as int]));
                    out.append("<li>");
                    render_list_item_body(&items[i], out);
                    out.append("</li>");
                    i = i + 1;
                    assert(out@ =~= mid + items_html(items@.subrange(0, i as int)));
                }
                assert(items@.subrange(0, i as int) =~= items@);
            },
            None => {},
        }
        out.append("</ol>");
    } else if str_eq(t, "blockquote") {
        out.append("<blockquote>");
        match get_array(node, "content") {
            Some(children) => render_blocks(children, out, Ghost(*node)),
            None => {},
        }
        out.append("</blockquote>");
    } else if str_eq(t, "codeBlock") {
        out.append("<pre><code>");
        render_inline_children(node, out);
        out.append("</code></pre>");
    } else if str_eq(t, "hardBreak") {
        out.append("<br/>");
    } else if str_eq(t, "horizontalRule") {
        out.append("<hr/>");
    } else {
        match get_array(node, "content") {
            Some(children) => render_blocks(children, out, Ghost(*node)),
            None => match get_str(node, "text") {
                Some(text) => push_escaped(out, text),
                None => {},
            },
        }
    }
    assert(out@ =~= old(out)@ + block_html(*node));
}

fn collect_text(node: &JsonValue, out: &mut Vec<String>)
    ensures
        final(out).deep_view() == old(out).deep_view() + texts_of(*node),
    decreases node, 1int,
{
    proof {
        lemma_array_member_smaller(*node, "content"@);
    }
    match get_str(node, "text") {
        Some(text) => {
            if text.unicode_len() > 0 {
                let ghost before = out.deep_view();
                out.push(text.to_owned());
                assert(out.deep_view() =~= before.push(text@));
            }
        },
        None => {},
    }
    let ghost mid = out.deep_view();
    match get_array(node, "content") {
        Some(children) => {
            let mut i: usize = 0;
            while i < children.len()
                invariant
                    i <= children@.len(),
                    decreases_to!(*node => children@),
                    out.deep_view() == mid + texts_list(children@.subrange(0, i as int)),
                decreases children.len() - i,
            {
                assert(children@.subrange(0, i + 1).drop_last() =~= children@.subrange(0, i as int));
                assert(decreases_to!(children@ => children@[i as int]));
                collect_text(&children[i], out);
                i = i + 1;
                assert(out.deep_view() =~= mid + texts_list(children@.subrange(0, i as int)));
            }
            assert(children@.subrange(0, i as int) =~= children@);
        },
        None => {},
    }
    assert(out.deep_view() =~= old(out).deep_view() + texts_of(*node));
}

/// Parts joined with a separator.
pub fn join_parts(parts: &Vec<String>, sep: &str) -> (r: String)
    ensures
        r@ == join(parts.deep_view(), sep@),
{
    let mut out = String::new();
    let mut i: usize = 0;
    while i < parts.len()
        invariant
            i <= parts@.len(),
            out@ == join(parts.deep_view().subrange(0, i as int), sep@),
        decreases parts.len() - i,
    {
        let ghost sub = parts.deep_view().subrange(0, i + 1);
        assert(sub.drop_last() =~= parts.deep_view().subrange(0, i as int));
        if i > 0 {
            out.append(sep);
        }
        out.append(parts[i].as_str());
        i = i + 1;
        assert(out@ =~= join(parts.deep_view().subrange(0, i as int), sep@));
    }
    assert(parts.deep_view().subrange(0, i as int) =~= parts.deep_view());
    out
}

/// The parsed TipTap document of a trimmed description, if it is one.
pub fn parse_doc(trimmed: &str) -> (r: Option<JsonValue>)
    ensures
        r == doc_of(trimmed@),
{
    match parse_json(trimmed) {
        Some(v) => {
            let is_doc = match get_str(&v, "type") {
                Some(t) => str_eq(t, "doc"),
                None => false,
            };
            if is_doc {
                Some(v)
            } else {
                None
            }
        },
        None => None,
    }
}

/// A text node with one mark renders as its escaped text inside the mark's
/// tag: bold/strong as `<strong>`, italic/em as `<em>`, underline as `<u>`,
/// code as `<code>`; a mark of another kind (not a link) leaves the text
/// as it is.
pub proof fn lemma_single_mark_html(node: JsonValue, mark: JsonValue, t: Seq<char>)
    requires
        type_of(node) == "text"@,
        str_of(get_of(node, "text"@)) == Some(t),
        array_member(node, "marks"@) == Some(seq![mark]),
    ensures
        (type_of(mark) == "bold"@ || type_of(mark) == "strong"@) ==> inline_html(node) == "<strong>"@
            + escaped(t) + "</strong>"@,
        (type_of(mark) == "italic"@ || type_of(mark) == "em"@) ==> inline_html(node) == "<em>"@ + escaped(t)
            + "</em>"@,
        type_of(mark) == "underline"@ ==> inline_html(node) == "<u>"@ + escaped(t) + "</u>"@,
        type_of(mark) == "code"@ ==> inline_html(node) == "<code>"@ + escaped(t) + "</code>"@,
        !(type_of(mark) == "bold"@ || type_of(mark) == "strong"@ || type_of(mark) == "italic"@ || type_of(mark)
            == "em"@ || type_of(mark) == "underline"@ || type_of(mark) == "code"@ || type_of(mark) == "link"@)
            ==> inline_html(node) == escaped(t),
{
    reveal_strlit("bold");
    reveal_strlit("strong");
    reveal_strlit("italic");
    reveal_strlit("em");
    reveal_strlit("underline");
    reveal_strlit("code");
    reveal_strlit("link");
    reveal_strlit("text");
    assert("bold"@.len() != "strong"@.len());
    assert("bold"@.len() != "italic"@.len());
    assert("bold"@.len() != "em"@.len());
    assert("bold"@.len() != "underline"@.len());
    assert("bold"@[0] != "code"@[0]);
    assert("bold"@[0] != "link"@[0]);
    assert("strong"@[0] != "italic"@[0]);
    assert("strong"@.len() != "em"@.len());
    assert("strong"@.len() != "underline"@.len());
    assert("strong"@.len() != "code"@.len());
    assert("strong"@.len() != "link"@.len());
    assert("italic"@.len() != "em"@.len());
    assert("italic"@.len() != "underline"@.len());
    assert("italic"@.len() != "code"@.len());
    assert("italic"@.len() != "link"@.len());
    assert("em"@.len() != "underline"@.len());
    assert("em"@.len() != "code"@.len());
    assert("em"@.len() != "link"@.len());
    assert("underline"@.len() != "code"@.len());
    assert("underline"@.len() != "link"@.len());
    assert("code"@[0] != "link"@[0]);
    let marks = seq![mark];
    assert(marks.drop_last() =~= Seq::<JsonValue>::empty());
    assert(marks.last() == mark);
    assert(apply_marks(Seq::<JsonValue>::empty(), escaped(t)) == escaped(t));
    assert(apply_marks(marks, escaped(t)) == apply_mark(mark, escaped(t)));
}

/// The step of one list item: its texts joined by spaces, trimmed.
pub open spec fn item_step(item: JsonValue) -> Seq<char> {
    trim(join(texts_of(item), " "@))
}

/// The steps of a list follow its items: there are never more steps than
/// items, and when every item has text, the k-th step is the k-th item's
/// text.
pub proof fn lemma_list_steps_in_item_order(items: Seq<JsonValue>)
    ensures
        list_steps(items).len() <= items.len(),
        (forall|k: int| 0 <= k < items.len() ==> #[trigger] item_step(items[k]).len() > 0) ==> {
            &&& list_steps(items).len() == items.len()
            &&& forall|k: int| 0 <= k < items.len() ==> #[trigger] list_steps(items)[k] == item_step(items[k])
        },
    decreases items.len(),
{
    if items.len() > 0 {
        let front = items.drop_last();
        lemma_list_steps_in_item_order(front);
        if forall|k: int| 0 <= k < items.len() ==> #[trigger] item_step(items[k]).len() > 0 {
            assert forall|k: int| 0 <= k < front.len() implies #[trigger] item_step(front[k]).len() > 0 by {
                assert(front[k] == items[k]);
                assert(item_step(items[k]).len() > 0);
            }
            assert(item_step(items[items.len() - 1]).len() > 0);
            let r = list_steps(items);
            assert(r == list_steps(front) + seq![item_step(items.last())]);
            assert forall|k: int| 0 <= k < items.len() implies #[trigger] list_steps(items)[k] == item_step(items[k]) by {
                if k < front.len() {
                    assert(front[k] == items[k]);
                    assert(list_steps(front)[k] == item_step(front[k]));
                }
            }
        }
    }
}

/// How-to steps of a document made of one list: the list's steps, in item
/// order.
pub proof fn lemma_single_list_document_steps(list: JsonValue, items: Seq<JsonValue>)
    requires
        type_of(list) == "bulletList"@ || type_of(list) == "orderedList"@,
        content_of(list) == Some(items),
    ensures
        blocks_steps(seq![list]) == list_steps(items),
{
    let blocks = seq![list];
    assert(blocks.drop_last() =~= Seq::<JsonValue>::empty());
    assert(blocks.last() == list);
    assert(blocks_steps(Seq::<JsonValue>::empty()) =~= Seq::<Seq<char>>::empty());
    reveal_strlit("bulletList");
    reveal_strlit("orderedList");
    assert(blocks_steps(blocks) =~= Seq::<Seq<char>>::empty() + list_steps(items));
}

/// Escaping works character by character: the escape of two texts put
/// together is their escapes put together; `&`, `<`, `>`, `"` and `'`
/// become `&amp;`, `&lt;`, `&gt;`, `&quot;` and `&#39;`; every other
/// character stays as it is.
pub proof fn lemma_escape_by_character(a: Seq<char>, b: Seq<char>, c: char)
    ensures
        escaped(a + b) == escaped(a) + escaped(b),
        escaped(seq![c]) == (if c == '&' {
            "&amp;"@
        } else if c == '<' {
            "&lt;"@
        } else if c == '>' {
            "&gt;"@
        } else if c == '"' {
            "&quot;"@
        } else if c == '\'' {
            "&#39;"@
        } else {
            seq![c]
        }),
    decreases b.len(),
{
    assert(seq![c].drop_last() =~= Seq::<char>::empty());
    assert(escaped(Seq::<char>::empty()) =~= Seq::<char>::empty());
    if b.len() == 0 {
        assert(a + b =~= a);
        assert(escaped(a) + escaped(b) =~= escaped(a));
    } else {
        lemma_escape_by_character(a, b.drop_last(), c);
        assert((a + b).drop_last() =~= a + b.drop_last());
        assert((a + b).last() == b.last());
    }
}

/// Marks nest in order, the first innermost: a text with two marks is the
/// second mark around the first mark around the escaped text.
pub proof fn lemma_two_marks_nest(node: JsonValue, m1: JsonValue, m2: JsonValue, t: Seq<char>)
    requires
        type_of(node) == "text"@,
        str_of(get_of(node, "text"@)) == Some(t),
        array_member(node, "marks"@) == Some(seq![m1, m2]),
    ensures
        inline_html(node) == apply_mark(m2, apply_mark(m1, escaped(t))),
{
    let marks = seq![m1, m2];
    assert(marks.drop_last() =~= seq![m1]);
    assert(seq![m1].drop_last() =~= Seq::<JsonValue>::empty());
    assert(apply_marks(Seq::<JsonValue>::empty(), escaped(t)) == escaped(t));
    assert(apply_marks(seq![m1], escaped(t)) == apply_mark(m1, escaped(t)));
}

/// Steps come from lists only, block after block: the steps of two runs of
/// blocks are the steps of the first followed by those of the second, a
/// block that is not a bullet or ordered list gives none, and an item with
/// no text gives none.
pub proof fn lemma_steps_by_block(a: Seq<JsonValue>, b: Seq<JsonValue>, block: JsonValue, item: JsonValue)
    ensures
        blocks_steps(a + b) == blocks_steps(a) + blocks_steps(b),
        !(type_of(block) == "bulletList"@ || type_of(block) == "orderedList"@) ==> blocks_steps(seq![block])
            == Seq::<Seq<char>>::empty(),
        item_step(item).len() == 0 ==> list_steps(seq![item]) == Seq::<Seq<char>>::empty(),
        item_step(item).len() > 0 ==> list_steps(seq![item]) == seq![item_step(item)],
    decreases b.len(),
{
    assert(seq![block].drop_last() =~= Seq::<JsonValue>::empty());
    assert(seq![item].drop_last() =~= Seq::<JsonValue>::empty());
    assert(blocks_steps(Seq::<JsonValue>::empty()) =~= Seq::<Seq<char>>::empty());
    assert(list_steps(Seq::<JsonValue>::empty()) =~= Seq::<Seq<char>>::empty());
    if b.len() == 0 {
        assert(a + b =~= a);
        assert(blocks_steps(a) + blocks_steps(b) =~= blocks_steps(a));
    } else {
        lemma_steps_by_block(a, b.drop_last(), block, item);
        assert((a + b).drop_last() =~= a + b.drop_last());
        assert((a + b).last() == b.last());
        assert(blocks_steps(a + b) =~= blocks_steps(a) + blocks_steps(b));
    }
}

/// Block shapes: a paragraph is `<p>` around its inline content, a heading
/// `<hN>` with N its level clamped to 1..=3, a bullet or ordered list a
/// numbered `<ol>` of `<li>` items.
pub proof fn lemma_block_shapes(node: JsonValue)
    ensures
        1 <= heading_level(node) <= 3,
        type_of(node) == "paragraph"@ ==> block_html(node) == "<p>"@ + inline_children_html(node) + "</p>"@,
        type_of(node) == "heading"@ ==> block_html(node) == "<h"@ + level_text(heading_level(node)) + ">"@
            + inline_children_html(node) + "</h"@ + level_text(heading_level(node)) + ">"@,
        (type_of(node) == "bulletList"@ || type_of(node) == "orderedList"@) ==> block_html(node)
            == "<ol class=\"appliance-steps\">"@ + match content_of(node) {
            Some(items) => items_html(items),
            None => Seq::empty(),
        } + "</ol>"@,
{
    reveal_strlit("paragraph");
    reveal_strlit("heading");
    reveal_strlit("bulletList");
    reveal_strlit("orderedList");
    assert("paragraph"@.len() != "heading"@.len());
    assert("paragraph"@.len() != "bulletList"@.len());
    assert("paragraph"@.len() != "orderedList"@.len());
    assert("heading"@.len() != "bulletList"@.len());
    assert("heading"@.len() != "orderedList"@.len());
}

/// `<p>` with the escaped text.
pub fn wrap_paragraph(text: &str) -> (r: String)
    ensures
        r@ == "<p>"@ + escaped(text@) + "</p>"@,
{
    let mut out = String::new();
    out.append("<p>");
    push_escaped(&mut out, text);
    out.append("</p>");
    out
}

/// TipTap JSON to guest HTML (bullet and ordered lists become numbered
/// steps).
pub fn description_to_html(description: &str) -> (r: String)
    ensures
        r@ == description_html(description@),
{
    let trimmed = trim_str(description);
    if trimmed.unicode_len() == 0 {
        return String::new();
    }
    match parse_doc(trimmed) {
        Some(v) => {
            let mut out = String::new();
            proof {
                lemma_array_member_smaller(v, "content"@);
            }
            match get_array(&v, "content") {
                Some(children) => render_blocks(children, &mut out, Ghost(v)),
                None => {},
            }
            out
        },
        None => wrap_paragraph(trimmed),
    }
}

/// Rough plain text of a TipTap description (host preview and fallbacks).
pub fn description_plain_text(description: &str) -> (r: String)
    ensures
        r@ == description_text(description@),
{
    let trimmed = trim_str(description);
    if trimmed.unicode_len() == 0 {
        return String::new();
    }
    match parse_doc(trimmed) {
        Some(v) => {
            let mut parts: Vec<String> = Vec::new();
            collect_text(&v, &mut parts);
            assert(parts.deep_view() =~= texts_of(v));
            join_parts(&parts, "\n")
        },
        None => trimmed.to_owned(),
    }
}

/// Ordered how-to steps from the document's top-level bullet and ordered
/// lists.
pub fn extract_howto_steps(description: &str) -> (r: Vec<String>)
    ensures
        r.deep_view() == description_steps(description@),
{
    let mut steps: Vec<String> = Vec::new();
    let trimmed = trim_str(description);
    if trimmed.unicode_len() == 0 {
        return steps;
    }
    let v = match parse_doc(trimmed) {
        Some(v) => v,
        None => return steps,
    };
    let children = match get_array(&v, "content") {
        Some(c) => c,
        None => return steps,
    };
    let mut i: usize = 0;
    while i < children.len()
        invariant
            i <= children@.len(),
            steps.deep_view() == blocks_steps(children@.subrange(0, i as int)),
        decreases children.len() - i,
    {
        assert(children@.subrange(0, i + 1).drop_last() =~= children@.subrange(0, i as int));
        let child = &children[i];
        let t = node_type(child);
        let ghost before = steps.deep_view();
        if str_eq(t, "bulletList") || str_eq(t, "orderedList") {
            match get_array(child, "content") {
                Some(items) => {
                    let mut j: usize = 0;
                    while j < items.len()
                        invariant
                            j <= items@.len(),
                            steps.deep_view() == before + list_steps(items@.subrange(0, j as int)),
                        decreases items.len() - j,
                    {
                        assert(items@.subrange(0, j + 1).drop_last() =~= items@.subrange(0, j as int));
                        let mut parts: Vec<String> = Vec::new();
                        collect_text(&items[j], &mut parts);
                        assert(parts.deep_view() =~= texts_of(items@[j as int]));
                        let joined = join_parts(&parts, " ");
                        let text = trim_str(joined.as_str());
                        let ghost mid = steps.deep_view();
                        if text.unicode_len() > 0 {
                            steps.push(text.to_owned());
                            assert(steps.deep_view() =~= mid.push(text@));
                        }
                        j = j + 1;
                        assert(steps.deep_view() =~= before + list_steps(items@.subrange(0, j as int)));
                    }
                    assert(items@.subrange(0, j as int) =~= items@);
                },
                None => {},
            }
        }
        i = i + 1;
        assert(steps.deep_view() =~= blocks_steps(children@.subrange(0, i as int)));
    }
    assert(children@.subrange(0, i as int) =~= children@);
    steps
}

} // verus!
