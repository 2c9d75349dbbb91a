//! Laying out sanitized HTML as styled text. A fragment is cleaned with
//! `ammonia`, parsed with `scraper`, and walked in document order as a
//! stream of opening tags, closing tags and texts. The walk keeps the
//! current text style (bold, italic, code, links, headings, quotes, lists)
//! and produces the drawing steps of the message view: labels of styled
//! text runs, gaps between blocks, and rules; it also collects the links.
use vstd::prelude::*;
use crate::markup::{collapse_whitespace, collapse_ws};
use crate::mime::{clean_html, sanitized_html};
use crate::numbers::{decimal, decimal_text};
use crate::security::text_is;
use crate::text::{chars_of, extend, push_str, string_from_chars, trim, trimmed};

verus! {

// ------------------------------------------------------------------ tokens

/// One step of a document-order walk of a parsed fragment: an element
/// opens (with its tag and its `href` and `alt` attributes), an element
/// closes, a text, or anything else (comments, the end of a text).
#[derive(Debug, Clone)]
pub enum HtmlToken {
    Open(String, Option<String>, Option<String>),
    Close(String),
    Text(String),
    Other,
}

pub enum TokenView {
    Open(Seq<char>, Option<Seq<char>>, Option<Seq<char>>),
    Close(Seq<char>),
    Text(Seq<char>),
    Other,
}

pub open spec fn opt_chars(o: Option<String>) -> Option<Seq<char>> {
    match o {
        Some(s) => Some(s@),
        None => None,
    }
}

pub open spec fn token_view(t: HtmlToken) -> TokenView {
    match t {
        HtmlToken::Open(tag, href, alt) => TokenView::Open(tag@, opt_chars(href), opt_chars(alt)),
        HtmlToken::Close(tag) => TokenView::Close(tag@),
        HtmlToken::Text(s) => TokenView::Text(s@),
        HtmlToken::Other => TokenView::Other,
    }
}

pub open spec fn tokens_view(ts: Seq<HtmlToken>) -> Seq<TokenView> {
    ts.map_values(|t: HtmlToken| token_view(t))
}

/// What a document-order walk (`traverse`) of the root element of
/// `Html::parse_fragment` of a text yields.
pub uninterp spec fn fragment_walk(html: Seq<char>) -> Seq<TokenView>;

/// `scraper`: `Html::parse_fragment`, then the `traverse` of its root
/// element, each edge as a token: an element's opening with its local name
/// and `href` and `alt` attributes, its closing, a text's opening as the
/// text, any other edge as `Other`.
#[verifier::external_body]
fn fragment_tokens(html: &str) -> (r: Vec<HtmlToken>)
    ensures
        tokens_view(r@) == fragment_walk(html@),
{
    let doc = scraper::Html::parse_fragment(html);
    doc.root_element().traverse().map(|edge| match edge {
        ego_tree::iter::Edge::Open(n) => match n.value() {
            scraper::Node::Element(e) => HtmlToken::Open(e.name().to_string(), e.attr("href").map(|s| s.to_string()), e.attr("alt").map(|s| s.to_string())),
            scraper::Node::Text(t) => HtmlToken::Text(t.text.to_string()),
            _ => HtmlToken::Other,
        },
        ego_tree::iter::Edge::Close(n) => match n.value() {
            scraper::Node::Element(e) => HtmlToken::Close(e.name().to_string()),
            _ => HtmlToken::Other,
        },
    }).collect()
}

// ------------------------------------------------------------------ styles and steps

/// The colour a run of text is drawn in, by its role.
#[derive(Debug, Clone, Copy, PartialEq, Eq, Structural)]
pub enum TextColor {
    Text,
    Link,
    CodeFg,
    Quote,
    Gray,
}

/// How a run of text is drawn: the heading level (0 for body text; the
/// font size follows from it and from boldness), monospace, colour, the
/// code background, italics, underline and strikethrough.
#[derive(Debug, Clone, Copy, PartialEq, Eq, Structural)]
pub struct TextStyle {
    pub heading: u8,
    pub bold: bool,
    pub monospace: bool,
    pub color: TextColor,
    pub code_background: bool,
    pub italics: bool,
    pub underline: bool,
    pub strikethrough: bool,
}

/// One drawing step: a label of styled runs, the gap between two blocks,
/// or a horizontal rule.
#[derive(Debug, Clone)]
pub enum RenderOp {
    Label(Vec<(String, TextStyle)>),
    Space,
    Separator,
}

pub enum OpView {
    Label(Seq<(Seq<char>, TextStyle)>),
    Space,
    Separator,
}

pub open spec fn runs_view(v: Seq<(String, TextStyle)>) -> Seq<(Seq<char>, TextStyle)> {
    v.map_values(|r: (String, TextStyle)| (r.0@, r.1))
}

pub open spec fn op_view(o: RenderOp) -> OpView {
    match o {
        RenderOp::Label(v) => OpView::Label(runs_view(v@)),
        RenderOp::Space => OpView::Space,
        RenderOp::Separator => OpView::Separator,
    }
}

pub open spec fn ops_view(v: Seq<RenderOp>) -> Seq<OpView> {
    v.map_values(|o: RenderOp| op_view(o))
}

pub open spec fn links_view(v: Seq<(String, String)>) -> Seq<(Seq<char>, Seq<char>)> {
    v.map_values(|l: (String, String)| (l.0@, l.1@))
}

/// An open list: ordered or not, and the number of its last item.
#[derive(Debug, Clone, Copy, PartialEq, Eq, Structural)]
pub struct ListLevel {
    pub ordered: bool,
    pub idx: u32,
}

// ------------------------------------------------------------------ the walk's state

/// The state of a walk: the text of the label being built and its runs;
/// how many bold, italic, code, underline and strikethrough elements are
/// open; the open link and its text; the heading level; whether inside
/// `pre`; the quote depth; the open lists; whether a block came before;
/// whether a label was drawn; the links found; the steps so far; and the
/// depth of a skipped `style` or `script` element.
pub struct HtmlLayout {
    pub job_text: Vec<char>,
    pub job: Vec<(String, TextStyle)>,
    pub bold: u32,
    pub italic: u32,
    pub code: u32,
    pub uline: u32,
    pub strike: u32,
    pub link_href: Option<String>,
    pub link_text: Vec<char>,
    pub heading: u8,
    pub pre: bool,
    pub bq: u32,
    pub lists: Vec<ListLevel>,
    pub gap: bool,
    pub rendered: bool,
    pub links: Vec<(String, String)>,
    pub ops: Vec<RenderOp>,
    pub skip: usize,
}

#[verifier::ext_equal]
pub struct LayoutView {
    pub job_text: Seq<char>,
    pub job: Seq<(Seq<char>, TextStyle)>,
    pub bold: u32,
    pub italic: u32,
    pub code: u32,
    pub uline: u32,
    pub strike: u32,
    pub link_href: Option<Seq<char>>,
    pub link_text: Seq<char>,
    pub heading: u8,
    pub pre: bool,
    pub bq: u32,
    pub lists: Seq<ListLevel>,
    pub gap: bool,
    pub rendered: bool,
    pub links: Seq<(Seq<char>, Seq<char>)>,
    pub ops: Seq<OpView>,
    pub skip: nat,
}

impl View for HtmlLayout {
    type V = LayoutView;

    open spec fn view(&self) -> LayoutView {
        LayoutView {
            job_text: self.job_text@,
            job: runs_view(self.job@),
            bold: self.bold,
            italic: self.italic,
            code: self.code,
            uline: self.uline,
            strike: self.strike,
            link_href: opt_chars(self.link_href),
            link_text: self.link_text@,
            heading: self.heading,
            pre: self.pre,
            bq: self.bq,
            lists: self.lists@,
            gap: self.gap,
            rendered: self.rendered,
            links: links_view(self.links@),
            ops: ops_view(self.ops@),
            skip: self.skip as nat,
        }
    }
}

pub open spec fn initial_layout() -> LayoutView {
    LayoutView {
        job_text: Seq::empty(),
        job: Seq::empty(),
        bold: 0,
        italic: 0,
        code: 0,
        uline: 0,
        strike: 0,
        link_href: None,
        link_text: Seq::empty(),
        heading: 0,
        pre: false,
        bq: 0,
        lists: Seq::empty(),
        gap: false,
        rendered: false,
        links: Seq::empty(),
        ops: Seq::empty(),
        skip: 0,
    }
}

/// The style of text added now: a link's colour over code's over a
/// quote's; monospace in code or `pre`; the code background in inline code
/// only; links underlined.
pub open spec fn style_of(s: LayoutView) -> TextStyle {
    TextStyle {
        heading: s.heading,
        bold: s.bold > 0,
        monospace: s.code > 0 || s.pre,
        color: if s.link_href is Some {
            TextColor::Link
        } else if s.code > 0 {
            TextColor::CodeFg
        } else if s.bq > 0 {
            TextColor::Quote
        } else {
            TextColor::Text
        },
        code_background: s.code > 0 && !s.pre,
        italics: s.italic > 0,
        underline: s.link_href is Some || s.uline > 0,
        strikethrough: s.strike > 0,
    }
}

pub open spec fn appended(s: LayoutView, text: Seq<char>, st: TextStyle) -> LayoutView {
    LayoutView { job_text: s.job_text + text, job: s.job.push((text, st)), ..s }
}

/// The label being built is drawn, when it has text.
pub open spec fn flushed(s: LayoutView) -> LayoutView {
    if s.job_text.len() == 0 {
        s
    } else {
        LayoutView { job_text: Seq::empty(), job: Seq::empty(), rendered: true, ops: s.ops.push(OpView::Label(s.job)), ..s }
    }
}

/// A block starts or ends: the label is drawn, with a gap after an earlier
/// block.
pub open spec fn block_break(s: LayoutView) -> LayoutView {
    let f = flushed(s);
    LayoutView { gap: true, ops: if f.gap { f.ops.push(OpView::Space) } else { f.ops }, ..f }
}

pub open spec fn inc(x: u32) -> u32 {
    (x + 1) as u32
}

pub open spec fn sat_dec(x: u32) -> u32 {
    if x > 0 { (x - 1) as u32 } else { 0 }
}

pub open spec fn block_tag(t: Seq<char>) -> bool {
    ||| t == "p"@ || t == "div"@ || t == "section"@ || t == "article"@ || t == "main"@ || t == "header"@
    ||| t == "footer"@ || t == "nav"@ || t == "figure"@ || t == "figcaption"@ || t == "center"@ || t == "dl"@
}

pub open spec fn heading_of(t: Seq<char>) -> u8 {
    if t == "h1"@ { 1 } else if t == "h2"@ { 2 } else if t == "h3"@ { 3 } else if t == "h4"@ { 4 } else if t == "h5"@ { 5 } else if t == "h6"@ { 6 } else { 0 }
}

pub open spec fn bold_tag(t: Seq<char>) -> bool { t == "b"@ || t == "strong"@ }

pub open spec fn italic_tag(t: Seq<char>) -> bool { t == "i"@ || t == "em"@ || t == "cite"@ }

pub open spec fn code_tag(t: Seq<char>) -> bool { t == "code"@ || t == "kbd"@ || t == "samp"@ }

pub open spec fn uline_tag(t: Seq<char>) -> bool { t == "u"@ || t == "ins"@ }

pub open spec fn strike_tag(t: Seq<char>) -> bool { t == "s"@ || t == "del"@ || t == "strike"@ }

pub open spec fn spaces(n: nat) -> Seq<char> {
    Seq::new(n, |i: int| ' ')
}

/// The marker of a list item at nesting depth `depth`: two spaces per
/// level, then its number and a dot, or a bullet.
pub open spec fn list_marker(l: ListLevel, depth: nat) -> Seq<char> {
    spaces(2 * depth) + if l.ordered { decimal(l.idx as nat) + ". "@ } else { "\u{2022} "@ }
}

/// A list item: a block, the next number of the innermost list, and its
/// marker.
pub open spec fn item_entered(s: LayoutView) -> LayoutView {
    let b = block_break(s);
    if b.lists.len() == 0 {
        b
    } else {
        let l = ListLevel { ordered: b.lists.last().ordered, idx: inc(b.lists.last().idx) };
        let b2 = LayoutView { lists: b.lists.update(b.lists.len() - 1, l), ..b };
        appended(b2, list_marker(l, b.lists.len()), style_of(b2))
    }
}

/// A table cell: a column separator unless the line is empty, and bold
/// for a header cell.
pub open spec fn cell_entered(s: LayoutView, header: bool) -> LayoutView {
    let a = if s.job_text.len() > 0 && s.job_text.last() != '\n' { appended(s, "  \u{2502}  "@, style_of(s)) } else { s };
    if header { LayoutView { bold: inc(a.bold), ..a } } else { a }
}

/// What opening an element does, and whether its content is walked
/// (`style` and `script` are skipped whole).
pub open spec fn entered(s: LayoutView, tag: Seq<char>, href: Option<Seq<char>>, alt: Option<Seq<char>>) -> (LayoutView, bool) {
    if tag == "style"@ || tag == "script"@ {
        (s, false)
    } else if block_tag(tag) || tag == "dd"@ || tag == "table"@ {
        (block_break(s), true)
    } else if tag == "br"@ {
        (appended(s, "\n"@, style_of(s)), true)
    } else if tag == "hr"@ {
        let b = block_break(s);
        (LayoutView { ops: b.ops.push(OpView::Separator), ..b }, true)
    } else if heading_of(tag) > 0 {
        (LayoutView { heading: heading_of(tag), ..block_break(s) }, true)
    } else if tag == "blockquote"@ {
        let b = block_break(s);
        (LayoutView { bq: inc(b.bq), ..b }, true)
    } else if tag == "pre"@ {
        (LayoutView { pre: true, ..block_break(s) }, true)
    } else if tag == "ul"@ || tag == "ol"@ {
        let b = block_break(s);
        (LayoutView { lists: b.lists.push(ListLevel { ordered: tag == "ol"@, idx: 0 }), ..b }, true)
    } else if tag == "li"@ {
        (item_entered(s), true)
    } else if tag == "dt"@ {
        let b = block_break(s);
        (LayoutView { bold: inc(b.bold), ..b }, true)
    } else if tag == "tr"@ {
        (if s.job_text.len() > 0 { appended(s, "\n"@, style_of(s)) } else { s }, true)
    } else if tag == "td"@ || tag == "th"@ {
        (cell_entered(s, tag == "th"@), true)
    } else if bold_tag(tag) {
        (LayoutView { bold: inc(s.bold), ..s }, true)
    } else if italic_tag(tag) {
        (LayoutView { italic: inc(s.italic), ..s }, true)
    } else if code_tag(tag) {
        (LayoutView { code: inc(s.code), ..s }, true)
    } else if uline_tag(tag) {
        (LayoutView { uline: inc(s.uline), ..s }, true)
    } else if strike_tag(tag) {
        (LayoutView { strike: inc(s.strike), ..s }, true)
    } else if tag == "a"@ {
        (LayoutView { link_href: href, link_text: Seq::empty(), ..s }, true)
    } else if tag == "img"@ {
        let st = TextStyle { italics: true, color: TextColor::Gray, ..style_of(s) };
        (appended(s, "["@ + (match alt { Some(a) => a, None => "image"@ }) + "]"@, st), true)
    } else {
        (s, true)
    }
}

/// A closed link is kept with its text, trimmed, as label (its address
/// when the text is blank).
pub open spec fn link_closed(s: LayoutView) -> LayoutView {
    match s.link_href {
        Some(h) => LayoutView {
            link_href: None,
            link_text: Seq::empty(),
            links: s.links.push((if trim(s.link_text).len() == 0 { h } else { trim(s.link_text) }, h)),
            ..s
        },
        None => s,
    }
}

/// What closing an element does.
pub open spec fn left(s: LayoutView, tag: Seq<char>) -> LayoutView {
    if block_tag(tag) || tag == "table"@ {
        block_break(s)
    } else if heading_of(tag) > 0 {
        block_break(LayoutView { heading: 0, ..s })
    } else if tag == "blockquote"@ {
        let b = block_break(s);
        LayoutView { bq: sat_dec(b.bq), ..b }
    } else if tag == "pre"@ {
        block_break(LayoutView { pre: false, ..s })
    } else if tag == "ul"@ || tag == "ol"@ {
        block_break(LayoutView { lists: if s.lists.len() > 0 { s.lists.drop_last() } else { s.lists }, ..s })
    } else if tag == "dt"@ || bold_tag(tag) || tag == "th"@ {
        LayoutView { bold: sat_dec(s.bold), ..s }
    } else if italic_tag(tag) {
        LayoutView { italic: sat_dec(s.italic), ..s }
    } else if code_tag(tag) {
        LayoutView { code: sat_dec(s.code), ..s }
    } else if uline_tag(tag) {
        LayoutView { uline: sat_dec(s.uline), ..s }
    } else if strike_tag(tag) {
        LayoutView { strike: sat_dec(s.strike), ..s }
    } else if tag == "a"@ {
        link_closed(s)
    } else {
        s
    }
}

/// A text: kept for the open link; added as is inside `pre`, else with
/// whitespace runs collapsed (nothing when that leaves it empty).
pub open spec fn text_pushed(s: LayoutView, text: Seq<char>) -> LayoutView {
    if text.len() == 0 {
        s
    } else {
        let s1 = if s.link_href is Some { LayoutView { link_text: s.link_text + text, ..s } } else { s };
        if s.pre {
            appended(s1, text, style_of(s))
        } else if collapse_whitespace(text).len() > 0 {
            appended(s1, collapse_whitespace(text), style_of(s))
        } else {
            s1
        }
    }
}

/// One token of the walk; inside a skipped element only the nesting is
/// followed.
pub open spec fn stepped(s: LayoutView, t: TokenView) -> LayoutView {
    if s.skip > 0 {
        match t {
            TokenView::Open(_, _, _) => LayoutView { skip: s.skip + 1, ..s },
            TokenView::Close(_) => LayoutView { skip: (s.skip - 1) as nat, ..s },
            _ => s,
        }
    } else {
        match t {
            TokenView::Open(tag, href, alt) => {
                let (s1, go) = entered(s, tag, href, alt);
                if go { s1 } else { LayoutView { skip: 1, ..s1 } }
            },
            TokenView::Close(tag) => left(s, tag),
            TokenView::Text(x) => text_pushed(s, x),
            TokenView::Other => s,
        }
    }
}

pub open spec fn walked(s: LayoutView, ts: Seq<TokenView>) -> LayoutView
    decreases ts.len(),
{
    if ts.len() == 0 {
        s
    } else {
        stepped(walked(s, ts.drop_last()), ts.last())
    }
}

/// The counters, the skip depth and the list numbers are at most `n`.
pub open spec fn bounded(s: LayoutView, n: nat) -> bool {
    &&& s.bold <= n && s.italic <= n && s.code <= n && s.uline <= n && s.strike <= n && s.bq <= n
    &&& s.skip <= n && s.lists.len() <= n
    &&& forall|k: int| 0 <= k < s.lists.len() ==> (#[trigger] s.lists[k]).idx <= n
}

proof fn lemma_break_keeps(s: LayoutView)
    ensures
        ({
            let b = block_break(s);
            b.bold == s.bold && b.italic == s.italic && b.code == s.code && b.uline == s.uline
                && b.strike == s.strike && b.bq == s.bq && b.skip == s.skip && b.lists == s.lists
                && b.heading == s.heading && b.pre == s.pre && b.link_href == s.link_href
        }),
{
}

proof fn lemma_entered_bounded(s: LayoutView, tag: Seq<char>, href: Option<Seq<char>>, alt: Option<Seq<char>>, n: nat)
    requires
        bounded(s, n),
    ensures
        bounded(entered(s, tag, href, alt).0, n + 1),
        entered(s, tag, href, alt).0.skip == s.skip,
{
    lemma_break_keeps(s);
    let b = block_break(s);
    let e = entered(s, tag, href, alt).0;
    if tag == "li"@ {
        if b.lists.len() > 0 {
            assert forall|k: int| 0 <= k < e.lists.len() implies (#[trigger] e.lists[k]).idx <= n + 1 by {
                if k < b.lists.len() - 1 {
                    assert(e.lists[k] == b.lists[k]);
                }
            }
        }
    } else if tag == "ul"@ || tag == "ol"@ {
        assert forall|k: int| 0 <= k < e.lists.len() implies (#[trigger] e.lists[k]).idx <= n + 1 by {
            if k < b.lists.len() {
                assert(e.lists[k] == b.lists[k]);
            }
        }
    }
}

proof fn lemma_left_bounded(s: LayoutView, tag: Seq<char>, n: nat)
    requires
        bounded(s, n),
    ensures
        bounded(left(s, tag), n),
        left(s, tag).skip == s.skip,
{
    lemma_break_keeps(s);
    let l = left(s, tag);
    if tag == "ul"@ || tag == "ol"@ {
        lemma_break_keeps(LayoutView { lists: if s.lists.len() > 0 { s.lists.drop_last() } else { s.lists }, ..s });
        assert forall|k: int| 0 <= k < l.lists.len() implies (#[trigger] l.lists[k]).idx <= n by {
            assert(l.lists[k] == s.lists[k]);
        }
    } else if heading_of(tag) > 0 {
        lemma_break_keeps(LayoutView { heading: 0, ..s });
    } else if tag == "pre"@ {
        lemma_break_keeps(LayoutView { pre: false, ..s });
    }
}

/// One token raises every counter, the skip depth, the list depth and any
/// list number by at most one.
pub proof fn lemma_step_bounded(s: LayoutView, t: TokenView, n: nat)
    requires
        bounded(s, n),
    ensures
        bounded(stepped(s, t), n + 1),
{
    if s.skip == 0 {
        match t {
            TokenView::Open(tag, href, alt) => {
                lemma_entered_bounded(s, tag, href, alt, n);
            },
            TokenView::Close(tag) => {
                lemma_left_bounded(s, tag, n);
            },
            _ => {},
        }
    }
}

/// The walk of a stream of `n` tokens keeps every counter at most `n`.
pub proof fn lemma_walk_bounded(ts: Seq<TokenView>)
    ensures
        bounded(walked(initial_layout(), ts), ts.len()),
    decreases ts.len(),
{
    if ts.len() > 0 {
        lemma_walk_bounded(ts.drop_last());
        lemma_step_bounded(walked(initial_layout(), ts.drop_last()), ts.last(), ts.drop_last().len());
    }
}

/// Some step draws a label.
pub open spec fn draws_label(ops: Seq<OpView>) -> bool {
    exists|i: int| 0 <= i < ops.len() && (#[trigger] ops[i]) is Label
}

/// The walk says it drew something exactly when one of its steps is a label.
pub open spec fn rendered_honest(s: LayoutView) -> bool {
    s.rendered <==> draws_label(s.ops)
}

proof fn lemma_push_label(ops: Seq<OpView>, o: OpView)
    ensures
        draws_label(ops.push(o)) <==> (draws_label(ops) || o is Label),
{
    let p = ops.push(o);
    if draws_label(ops) {
        let i = choose|i: int| 0 <= i < ops.len() && (#[trigger] ops[i]) is Label;
        assert(p[i] == ops[i]);
    }
    if o is Label {
        assert(p[ops.len() as int] == o);
    }
    if draws_label(p) {
        let i = choose|i: int| 0 <= i < p.len() && (#[trigger] p[i]) is Label;
        if i < ops.len() {
            assert(ops[i] == p[i]);
        }
    }
}

proof fn lemma_break_honest(s: LayoutView)
    requires
        rendered_honest(s),
    ensures
        rendered_honest(flushed(s)),
        rendered_honest(block_break(s)),
{
    if s.job_text.len() > 0 {
        lemma_push_label(s.ops, OpView::Label(s.job));
    }
    let f = flushed(s);
    if f.gap {
        lemma_push_label(f.ops, OpView::Space);
    }
}

proof fn lemma_step_honest(s: LayoutView, t: TokenView)
    requires
        rendered_honest(s),
    ensures
        rendered_honest(stepped(s, t)),
{
    lemma_break_honest(s);
    if s.skip == 0 {
        match t {
            TokenView::Open(tag, href, alt) => {
                if tag == "hr"@ {
                    lemma_push_label(block_break(s).ops, OpView::Separator);
                }
            },
            TokenView::Close(tag) => {
                lemma_break_honest(LayoutView { heading: 0, ..s });
                lemma_break_honest(LayoutView { pre: false, ..s });
                lemma_break_honest(LayoutView { lists: if s.lists.len() > 0 { s.lists.drop_last() } else { s.lists }, ..s });
            },
            _ => {},
        }
    }
}

/// The walk reports that it drew something exactly when its plan holds a
/// label: whatever the tokens, the flag and the steps agree.
pub proof fn lemma_plan_rendered_iff_label(ts: Seq<TokenView>)
    ensures
        plan_of(ts).rendered <==> draws_label(plan_of(ts).ops),
{
    lemma_walk_honest(ts);
    lemma_break_honest(walked(initial_layout(), ts));
}

proof fn lemma_walk_honest(ts: Seq<TokenView>)
    ensures
        rendered_honest(walked(initial_layout(), ts)),
    decreases ts.len(),
{
    if ts.len() > 0 {
        lemma_walk_honest(ts.drop_last());
        lemma_step_honest(walked(initial_layout(), ts.drop_last()), ts.last());
    }
}

// ------------------------------------------------------------------ the walk

/// No counter, skip depth, list depth or list number is at its limit.
pub open spec fn room(s: LayoutView) -> bool {
    &&& s.bold < u32::MAX && s.italic < u32::MAX && s.code < u32::MAX && s.uline < u32::MAX
    &&& s.strike < u32::MAX && s.bq < u32::MAX && s.skip < u32::MAX && s.lists.len() < u32::MAX
    &&& forall|k: int| 0 <= k < s.lists.len() ==> (#[trigger] s.lists[k]).idx < u32::MAX
}

fn is_block_tag(tag: &str) -> (r: bool)
    ensures
        r == block_tag(tag@),
{
    text_is(tag, "p") || text_is(tag, "div") || text_is(tag, "section") || text_is(tag, "article")
        || text_is(tag, "main") || text_is(tag, "header") || text_is(tag, "footer") || text_is(tag, "nav")
        || text_is(tag, "figure") || text_is(tag, "figcaption") || text_is(tag, "center") || text_is(tag, "dl")
}

fn heading_level(tag: &str) -> (r: u8)
    ensures
        r == heading_of(tag@),
{
    if text_is(tag, "h1") {
        1
    } else if text_is(tag, "h2") {
        2
    } else if text_is(tag, "h3") {
        3
    } else if text_is(tag, "h4") {
        4
    } else if text_is(tag, "h5") {
        5
    } else if text_is(tag, "h6") {
        6
    } else {
        0
    }
}

fn copy_text(o: &Option<String>) -> (r: Option<String>)
    ensures
        opt_chars(r) == opt_chars(*o),
{
    match o {
        Some(t) => Some(t.clone()),
        None => None,
    }
}

impl HtmlLayout {
    /// The state before the walk: nothing drawn, nothing open.
    pub fn new() -> (r: HtmlLayout)
        ensures
            r@ == initial_layout(),
    {
        let r = HtmlLayout {
            job_text: Vec::new(),
            job: Vec::new(),
            bold: 0,
            italic: 0,
            code: 0,
            uline: 0,
            strike: 0,
            link_href: None,
            link_text: Vec::new(),
            heading: 0,
            pre: false,
            bq: 0,
            lists: Vec::new(),
            gap: false,
            rendered: false,
            links: Vec::new(),
            ops: Vec::new(),
            skip: 0,
        };
        assert(r@.job =~= Seq::<(Seq<char>, TextStyle)>::empty());
        assert(r@.links =~= Seq::<(Seq<char>, Seq<char>)>::empty());
        assert(r@.ops =~= Seq::<OpView>::empty());
        r
    }

    fn style(&self) -> (r: TextStyle)
        ensures
            r == style_of(self@),
    {
        let color = if self.link_href.is_some() {
            TextColor::Link
        } else if self.code > 0 {
            TextColor::CodeFg
        } else if self.bq > 0 {
            TextColor::Quote
        } else {
            TextColor::Text
        };
        TextStyle {
            heading: self.heading,
            bold: self.bold > 0,
            monospace: self.code > 0 || self.pre,
            color,
            code_background: self.code > 0 && !self.pre,
            italics: self.italic > 0,
            underline: self.link_href.is_some() || self.uline > 0,
            strikethrough: self.strike > 0,
        }
    }

    fn append(&mut self, text: &[char], st: TextStyle)
        ensures
            final(self)@ == appended(old(self)@, text@, st),
    {
        extend(&mut self.job_text, text);
        let ghost j0 = self.job@;
        self.job.push((string_from_chars(text), st));
        assert(runs_view(self.job@) =~= runs_view(j0).push((text@, st)));
    }

    fn flush(&mut self)
        ensures
            final(self)@ == flushed(old(self)@),
    {
        if self.job_text.len() == 0 {
            return;
        }
        self.rendered = true;
        let mut job: Vec<(String, TextStyle)> = Vec::new();
        std::mem::swap(&mut job, &mut self.job);
        let ghost jg = job;
        let ghost o0 = self.ops@;
        self.ops.push(RenderOp::Label(job));
        assert(ops_view(self.ops@) =~= ops_view(o0).push(op_view(RenderOp::Label(jg))));
        self.job_text = Vec::new();
        assert(runs_view(self.job@) =~= Seq::<(Seq<char>, TextStyle)>::empty());
    }

    fn push_op(&mut self, op: RenderOp)
        ensures
            final(self)@ == (LayoutView { ops: old(self)@.ops.push(op_view(op)), ..old(self)@ }),
    {
        let ghost o0 = self.ops@;
        let ghost og = op;
        self.ops.push(op);
        assert(ops_view(self.ops@) =~= ops_view(o0).push(op_view(og)));
    }

    fn blk(&mut self)
        ensures
            final(self)@ == block_break(old(self)@),
    {
        self.flush();
        if self.gap {
            self.push_op(RenderOp::Space);
        }
        self.gap = true;
    }

    fn item(&mut self)
        requires
            room(old(self)@),
        ensures
            final(self)@ == item_entered(old(self)@),
    {
        proof {
            lemma_break_keeps(self@);
        }
        self.blk();
        let depth = self.lists.len();
        if depth == 0 {
            return;
        }
        let last = self.lists[depth - 1];
        let l = ListLevel { ordered: last.ordered, idx: last.idx + 1 };
        self.lists.set(depth - 1, l);
        let mut marker: Vec<char> = Vec::new();
        let mut k: usize = 0;
        while k < depth
            invariant
                k <= depth,
                marker@ == spaces(2 * k as nat),
            decreases depth - k,
        {
            marker.push(' ');
            marker.push(' ');
            assert(marker@ =~= spaces(2 * (k + 1) as nat));
            k = k + 1;
        }
        if l.ordered {
            let d = decimal_text(l.idx as u64);
            extend(&mut marker, d.as_slice());
            push_str(&mut marker, ". ");
        } else {
            push_str(&mut marker, "\u{2022} ");
        }
        assert(marker@ =~= list_marker(l, depth as nat));
        let st = self.style();
        self.append(marker.as_slice(), st);
    }

    fn cell(&mut self, header: bool)
        requires
            room(old(self)@),
        ensures
            final(self)@ == cell_entered(old(self)@, header),
    {
        let n = self.job_text.len();
        if n > 0 && self.job_text[n - 1] != '\n' {
            let st = self.style();
            let sep = chars_of("  \u{2502}  ");
            self.append(sep.as_slice(), st);
        }
        if header {
            self.bold = self.bold + 1;
        }
    }

    fn open_image(&mut self, alt: &Option<String>)
        ensures
            final(self)@ == appended(old(self)@, "["@ + (match opt_chars(*alt) { Some(a) => a, None => "image"@ }) + "]"@,
                TextStyle { italics: true, color: TextColor::Gray, ..style_of(old(self)@) }),
    {
        let base = self.style();
        let st = TextStyle { italics: true, color: TextColor::Gray, ..base };
        let mut t = chars_of("[");
        match alt {
            Some(a) => push_str(&mut t, a.as_str()),
            None => push_str(&mut t, "image"),
        }
        push_str(&mut t, "]");
        self.append(t.as_slice(), st);
    }

    /// Opens an element; false when its content is to be skipped.
    fn enter(&mut self, tag: &str, href: &Option<String>, alt: &Option<String>) -> (go: bool)
        requires
            room(old(self)@),
        ensures
            final(self)@ == entered(old(self)@, tag@, opt_chars(*href), opt_chars(*alt)).0,
            go == entered(old(self)@, tag@, opt_chars(*href), opt_chars(*alt)).1,
    {
        proof {
            lemma_break_keeps(self@);
        }
        if text_is(tag, "style") || text_is(tag, "script") {
            return false;
        }
        if is_block_tag(tag) || text_is(tag, "dd") || text_is(tag, "table") {
            self.blk();
            return true;
        }
        if text_is(tag, "br") {
            let st = self.style();
            let nl = chars_of("\n");
            self.append(nl.as_slice(), st);
            return true;
        }
        if text_is(tag, "hr") {
            self.blk();
            self.push_op(RenderOp::Separator);
            return true;
        }
        let h = heading_level(tag);
        if h > 0 {
            self.blk();
            self.heading = h;
            return true;
        }
        if text_is(tag, "blockquote") {
            self.blk();
            self.bq = self.bq + 1;
            return true;
        }
        if text_is(tag, "pre") {
            self.blk();
            self.pre = true;
            return true;
        }
        if text_is(tag, "ul") || text_is(tag, "ol") {
            self.blk();
            self.lists.push(ListLevel { ordered: text_is(tag, "ol"), idx: 0 });
            return true;
        }
        if text_is(tag, "li") {
            self.item();
            return true;
        }
        if text_is(tag, "dt") {
            self.blk();
            self.bold = self.bold + 1;
            return true;
        }
        if text_is(tag, "tr") {
            if self.job_text.len() > 0 {
                let st = self.style();
                let nl = chars_of("\n");
                self.append(nl.as_slice(), st);
            }
            return true;
        }
        if text_is(tag, "td") || text_is(tag, "th") {
            self.cell(text_is(tag, "th"));
            return true;
        }
        if text_is(tag, "b") || text_is(tag, "strong") {
            self.bold = self.bold + 1;
        } else if text_is(tag, "i") || text_is(tag, "em") || text_is(tag, "cite") {
            self.italic = self.italic + 1;
        } else if text_is(tag, "code") || text_is(tag, "kbd") || text_is(tag, "samp") {
            self.code = self.code + 1;
        } else if text_is(tag, "u") || text_is(tag, "ins") {
            self.uline = self.uline + 1;
        } else if text_is(tag, "s") || text_is(tag, "del") || text_is(tag, "strike") {
            self.strike = self.strike + 1;
        } else if text_is(tag, "a") {
            self.link_href = copy_text(href);
            self.link_text = Vec::new();
        } else if text_is(tag, "img") {
            self.open_image(alt);
        }
        true
    }

    fn close_link(&mut self)
        ensures
            final(self)@ == link_closed(old(self)@),
    {
        match &self.link_href {
            Some(h) => {
                let href = h.clone();
                let t = trimmed(self.link_text.as_slice());
                let label = if t.len() == 0 { href.clone() } else { string_from_chars(t.as_slice()) };
                let ghost l0 = self.links@;
                self.links.push((label, href));
                assert(links_view(self.links@) =~= links_view(l0).push((if trim(old(self)@.link_text).len() == 0 {
                    old(self)@.link_href->0
                } else {
                    trim(old(self)@.link_text)
                }, old(self)@.link_href->0)));
                self.link_text = Vec::new();
                self.link_href = None;
            },
            None => {},
        }
    }

    /// Closes an element.
    fn leave(&mut self, tag: &str)
        ensures
            final(self)@ == left(old(self)@, tag@),
    {
        if is_block_tag(tag) || text_is(tag, "table") {
            self.blk();
        } else if heading_level(tag) > 0 {
            self.heading = 0;
            self.blk();
        } else if text_is(tag, "blockquote") {
            self.blk();
            self.bq = if self.bq > 0 { self.bq - 1 } else { 0 };
        } else if text_is(tag, "pre") {
            self.pre = false;
            self.blk();
        } else if text_is(tag, "ul") || text_is(tag, "ol") {
            if self.lists.len() > 0 {
                self.lists.pop();
            }
            self.blk();
        } else if text_is(tag, "dt") || text_is(tag, "b") || text_is(tag, "strong") || text_is(tag, "th") {
            self.bold = if self.bold > 0 { self.bold - 1 } else { 0 };
        } else if text_is(tag, "i") || text_is(tag, "em") || text_is(tag, "cite") {
            self.italic = if self.italic > 0 { self.italic - 1 } else { 0 };
        } else if text_is(tag, "code") || text_is(tag, "kbd") || text_is(tag, "samp") {
            self.code = if self.code > 0 { self.code - 1 } else { 0 };
        } else if text_is(tag, "u") || text_is(tag, "ins") {
            self.uline = if self.uline > 0 { self.uline - 1 } else { 0 };
        } else if text_is(tag, "s") || text_is(tag, "del") || text_is(tag, "strike") {
            self.strike = if self.strike > 0 { self.strike - 1 } else { 0 };
        } else if text_is(tag, "a") {
            self.close_link();
        }
    }

    /// Adds a text.
    fn push_text(&mut self, text: &str)
        ensures
            final(self)@ == text_pushed(old(self)@, text@),
    {
        let c = chars_of(text);
        if c.len() == 0 {
            return;
        }
        let st = self.style();
        if self.link_href.is_some() {
            extend(&mut self.link_text, c.as_slice());
        }
        if self.pre {
            self.append(c.as_slice(), st);
        } else {
            let collapsed = collapse_ws(c.as_slice());
            if collapsed.len() > 0 {
                self.append(collapsed.as_slice(), st);
            }
        }
    }

    /// Takes one token of the walk.
    pub fn step(&mut self, t: &HtmlToken)
        requires
            room(old(self)@),
        ensures
            final(self)@ == stepped(old(self)@, token_view(*t)),
    {
        if self.skip > 0 {
            match t {
                HtmlToken::Open(_, _, _) => {
                    self.skip = self.skip + 1;
                },
                HtmlToken::Close(_) => {
                    self.skip = self.skip - 1;
                },
                _ => {},
            }
            return;
        }
        match t {
            HtmlToken::Open(tag, href, alt) => {
                let go = self.enter(tag.as_str(), href, alt);
                if !go {
                    self.skip = 1;
                }
            },
            HtmlToken::Close(tag) => self.leave(tag.as_str()),
            HtmlToken::Text(x) => self.push_text(x.as_str()),
            HtmlToken::Other => {},
        }
    }
}

/// What a walk yields: the drawing steps, the links found as (label,
/// address), and whether any label was drawn.
#[derive(Debug)]
pub struct HtmlPlan {
    pub ops: Vec<RenderOp>,
    pub links: Vec<(String, String)>,
    pub rendered: bool,
}

/// The plan of a walk over the tokens `ts`: every token taken, then the
/// last label drawn.
pub open spec fn plan_of(ts: Seq<TokenView>) -> LayoutView {
    flushed(walked(initial_layout(), ts))
}

pub open spec fn plan_matches(p: HtmlPlan, v: LayoutView) -> bool {
    ops_view(p.ops@) == v.ops && links_view(p.links@) == v.links && p.rendered == v.rendered
}

/// The drawing plan of a document-order walk.
pub fn render_tokens(tokens: &Vec<HtmlToken>) -> (r: HtmlPlan)
    requires
        tokens@.len() < u32::MAX,
    ensures
        plan_matches(r, plan_of(tokens_view(tokens@))),
{
    let mut layout = HtmlLayout::new();
    let ghost tv = tokens_view(tokens@);
    let mut i: usize = 0;
    while i < tokens.len()
        invariant
            i <= tokens@.len() < u32::MAX,
            tv == tokens_view(tokens@),
            layout@ == walked(initial_layout(), tv.take(i as int)),
        decreases tokens.len() - i,
    {
        proof {
            lemma_walk_bounded(tv.take(i as int));
            assert(tv.take(i + 1).drop_last() =~= tv.take(i as int));
        }
        layout.step(&tokens[i]);
        i = i + 1;
    }
    assert(tv.take(tokens@.len() as int) =~= tv);
    layout.flush();
    HtmlPlan { ops: layout.ops, links: layout.links, rendered: layout.rendered }
}

/// How a sanitized HTML body is drawn: the fragment as `ammonia` cleans it
/// and `scraper` parses it, walked in document order; `None` for a walk of
/// more than four billion steps, past what the counters hold.
pub fn render_html(html: &str) -> (r: Option<HtmlPlan>)
    ensures
        fragment_walk(sanitized_html(html@)).len() < u32::MAX ==> (r matches Some(p) && plan_matches(p, plan_of(fragment_walk(sanitized_html(html@))))),
        fragment_walk(sanitized_html(html@)).len() >= u32::MAX ==> r is None,
{
    let safe = clean_html(html);
    let tokens = fragment_tokens(safe.as_str());
    if tokens.len() >= 0xffff_ffff {
        return None;
    }
    Some(render_tokens(&tokens))
}

}
