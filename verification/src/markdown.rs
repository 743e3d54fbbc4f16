//! The markdown edge: comments are rendered to HTML by the markdown
//! collaborator (with this library's emoji substitution applied to every
//! text run), and a document title can be read off the event stream.

use pulldown_cmark::CowStr;
use pulldown_cmark::Event;
use pulldown_cmark::Options;
use pulldown_cmark::Parser;
use pulldown_cmark::Tag;
use vstd::prelude::*;
use vstd::string::StringExecFns;

use crate::html::Html;
use crate::html::HtmlElement;

verus! {

broadcast use {vstd::std_specs::vec::group_vec_axioms, vstd::seq::group_seq_axioms};

/// One markdown event, reduced to what the title scan reads: heading
/// boundaries, text runs, and everything else.
pub enum MdEvent {
    HeadingStart,
    HeadingEnd,
    Text(String),
    Other,
}

/// What the markdown parser emits for a text, reduced to `MdEvent`; the
/// grammar decides it, so it is only named here.
pub uninterp spec fn md_events_of(s: Seq<char>) -> Seq<MdEvent>;

/// Relies on pulldown_cmark::Parser::new_ext with all options: the event
/// stream of the markdown text, one reduced event per parser event, in
/// order; a pure function of the text.
#[verifier::external_body]
fn markdown_events(text: &str) -> (r: Vec<MdEvent>)
    ensures
        r@ == md_events_of(text@),
{
    Parser::new_ext(text, Options::all()).map(|ev| match ev {
        Event::Start(Tag::Heading(..)) => MdEvent::HeadingStart,
        Event::End(Tag::Heading(..)) => MdEvent::HeadingEnd,
        Event::Text(t) => MdEvent::Text(t.to_string()),
        _ => MdEvent::Other,
    }).collect()
}

/// What the markdown renderer produces for a text, with this library's
/// emoji substitution applied to every text event first; a pure function
/// of the text, and only named here.
pub uninterp spec fn md_html_of(s: Seq<char>) -> Seq<char>;

/// Relies on pulldown_cmark::Parser::new_ext and
/// pulldown_cmark::html::push_html: the rendered markup of the markdown
/// text, with `fmt_emoji` applied to every text event.
#[verifier::external_body]
fn markdown_to_html(text: &str) -> (r: String)
    ensures
        r@ == md_html_of(text@),
{
    let parser = Parser::new_ext(text, Options::all()).map(|ev| match ev {
        Event::Text(t) => Event::Text(CowStr::Boxed(crate::emoji::fmt_emoji(&t).into_boxed_str())),
        _ => ev,
    });
    let mut content = String::new();
    pulldown_cmark::html::push_html(&mut content, parser);
    content
}

/// A `div.text` wrapping rendered markup.
pub open spec fn div_text_html(r: Html, markup: Seq<char>) -> bool {
    &&& r matches Html::Element(el)
    &&& el.tag@ == "div"@
    &&& el.classes_view() =~= seq!["text"@]
    &&& el.attrs@.len() == 0
    &&& el.children@.len() == 1
    &&& el.children@[0] matches Html::Raw(c) && c@ == markup
}

/// Renders a comment's markdown (emoji shortcodes included) and wraps the
/// markup in a `div.text`.
pub fn fmt_markdown(text: &String) -> (r: Html)
    ensures
        div_text_html(r, md_html_of(text@)),
{
    let content = markdown_to_html(text.as_str());
    HtmlElement::new("div").with_class("text").with_child(Html::Raw(content)).into_html()
}

/// The text of the title run: every text event up to the first heading
/// end, concatenated.
pub open spec fn collect_title(evs: Seq<MdEvent>, i: int) -> Seq<char>
    decreases evs.len() - i,
    when 0 <= i <= evs.len()
{
    if i >= evs.len() {
        Seq::empty()
    } else {
        match evs[i] {
            MdEvent::HeadingEnd => Seq::empty(),
            MdEvent::Text(t) => t@ + collect_title(evs, i + 1),
            _ => collect_title(evs, i + 1),
        }
    }
}

/// The title of a document: the text of its opening heading, provided the
/// document starts with a heading and the text is nonempty.
pub open spec fn title_of(evs: Seq<MdEvent>) -> Option<Seq<char>> {
    if evs.len() == 0 {
        None
    } else if !(evs[0] is HeadingStart) {
        None
    } else {
        let t = collect_title(evs, 1);
        if t.len() > 0 {
            Some(t)
        } else {
            None
        }
    }
}

/// Reads the document title off the markdown: the text of the opening
/// heading, if the document starts with one and it has any text.
#[verifier::loop_isolation(false)]
pub fn extract_title_from_md(text: &String) -> (r: Option<String>)
    ensures
        match r {
            Some(t) => title_of(md_events_of(text@)) == Some(t@),
            None => title_of(md_events_of(text@)) is None,
        },
{
    let evs = markdown_events(text.as_str());
    let ghost s = evs@;
    if evs.len() == 0 {
        return None;
    }
    match &evs[0] {
        MdEvent::HeadingStart => {},
        _ => {
            return None;
        },
    }
    let mut res = String::new();
    let mut i: usize = 1;
    let mut stopped = false;
    while i < evs.len() && !stopped
        invariant
            1 <= i <= s.len(),
            evs@ == s,
            !stopped ==> collect_title(s, 1) == res@ + collect_title(s, i as int),
            stopped ==> collect_title(s, 1) == res@,
        decreases s.len() - i + (if stopped {
            0int
        } else {
            1int
        }),
    {
        match &evs[i] {
            MdEvent::HeadingEnd => {
                stopped = true;
            },
            MdEvent::Text(t) => {
                res.append(t.as_str());
                i += 1;
            },
            _ => {
                i += 1;
            },
        }
    }
    proof {
        if !stopped {
            assert(collect_title(s, s.len() as int) =~= Seq::<char>::empty());
            assert(collect_title(s, 1) =~= res@);
        }
    }
    if res.as_str().is_empty() {
        None
    } else {
        Some(res)
    }
}

} // verus!
