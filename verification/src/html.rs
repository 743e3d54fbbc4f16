//! The display structure handed to the template collaborator: a small HTML
//! tree. Rendering it to text is the output driver's business; here it is
//! plain data, so every formatter's result can be pinned down exactly.

use vstd::prelude::*;
use vstd::string::StringExecFns;

verus! {

broadcast use {vstd::std_specs::vec::group_vec_axioms, vstd::seq::group_seq_axioms};

pub enum Html {
    Element(HtmlElement),
    Text(String),
    Raw(String),
    List(Vec<Html>),
}

pub struct HtmlElement {
    pub tag: String,
    pub classes: Vec<String>,
    pub attrs: Vec<(String, String)>,
    pub children: Vec<Html>,
}

impl HtmlElement {
    pub open spec fn classes_view(&self) -> Seq<Seq<char>> {
        Seq::new(self.classes@.len(), |i: int| self.classes@[i]@)
    }

    pub open spec fn attrs_view(&self) -> Seq<(Seq<char>, Seq<char>)> {
        Seq::new(self.attrs@.len(), |i: int| (self.attrs@[i].0@, self.attrs@[i].1@))
    }

    pub fn new(tag: &str) -> (r: HtmlElement)
        ensures
            r.tag@ == tag@,
            r.classes@.len() == 0,
            r.classes_view() =~= Seq::<Seq<char>>::empty(),
            r.attrs@.len() == 0,
            r.attrs_view() =~= Seq::<(Seq<char>, Seq<char>)>::empty(),
            r.children@ =~= Seq::<Html>::empty(),
    {
        HtmlElement {
            tag: String::from_str(tag),
            classes: Vec::new(),
            attrs: Vec::new(),
            children: Vec::new(),
        }
    }

    pub fn with_class(self, c: &str) -> (r: HtmlElement)
        ensures
            r.tag == self.tag,
            r.classes_view() =~= self.classes_view().push(c@),
            r.attrs == self.attrs,
            r.children == self.children,
    {
        let HtmlElement { tag, mut classes, attrs, children } = self;
        classes.push(String::from_str(c));
        HtmlElement { tag, classes, attrs, children }
    }

    pub fn with_class_opt(self, c: Option<&str>) -> (r: HtmlElement)
        ensures
            r.tag == self.tag,
            r.attrs == self.attrs,
            r.children == self.children,
            match c {
                Some(s) => r.classes_view() =~= self.classes_view().push(s@),
                None => r.classes == self.classes,
            },
    {
        match c {
            Some(s) => self.with_class(s),
            None => self,
        }
    }

    pub fn with_attr(self, k: &str, v: String) -> (r: HtmlElement)
        ensures
            r.tag == self.tag,
            r.classes == self.classes,
            r.attrs_view() =~= self.attrs_view().push((k@, v@)),
            r.children == self.children,
    {
        let HtmlElement { tag, classes, mut attrs, children } = self;
        attrs.push((String::from_str(k), v));
        HtmlElement { tag, classes, attrs, children }
    }

    pub fn with_attr_opt(self, k: &str, v: Option<String>) -> (r: HtmlElement)
        ensures
            r.tag == self.tag,
            r.classes == self.classes,
            r.children == self.children,
            match v {
                Some(s) => r.attrs_view() =~= self.attrs_view().push((k@, s@)),
                None => r.attrs == self.attrs,
            },
    {
        match v {
            Some(s) => self.with_attr(k, s),
            None => self,
        }
    }

    pub fn with_child(self, c: Html) -> (r: HtmlElement)
        ensures
            r.tag == self.tag,
            r.classes == self.classes,
            r.attrs == self.attrs,
            r.children@ =~= self.children@.push(c),
    {
        let HtmlElement { tag, classes, attrs, mut children } = self;
        children.push(c);
        HtmlElement { tag, classes, attrs, children }
    }

    pub fn with_child_opt(self, c: Option<Html>) -> (r: HtmlElement)
        ensures
            r.tag == self.tag,
            r.classes == self.classes,
            r.attrs == self.attrs,
            match c {
                Some(h) => r.children@ =~= self.children@.push(h),
                None => r.children == self.children,
            },
    {
        match c {
            Some(h) => self.with_child(h),
            None => self,
        }
    }

    pub fn into_html(self) -> (r: Html)
        ensures
            r == Html::Element(self),
    {
        Html::Element(self)
    }
}

/// A `span` with the given classes around the given text.
pub open spec fn is_span(h: Html, classes: Seq<Seq<char>>, text: Seq<char>) -> bool {
    &&& h matches Html::Element(el)
    &&& el.tag@ == "span"@
    &&& el.classes_view() =~= classes
    &&& el.attrs@.len() == 0
    &&& el.children@.len() == 1
    &&& el.children@[0] matches Html::Text(t) && t@ == text
}

/// A bare text node.
pub open spec fn is_text(h: Html, text: Seq<char>) -> bool {
    h matches Html::Text(t) && t@ == text
}

/// A `p` element around the given text.
pub open spec fn is_p(h: Html, text: Seq<char>) -> bool {
    &&& h matches Html::Element(el)
    &&& el.tag@ == "p"@
    &&& el.classes@.len() == 0
    &&& el.attrs@.len() == 0
    &&& el.children@.len() == 1
    &&& el.children@[0] matches Html::Text(t) && t@ == text
}

impl Html {
    pub fn text(t: &str) -> (r: Html)
        ensures
            is_text(r, t@),
    {
        Html::Text(String::from_str(t))
    }

    pub fn span1(class: &str, text: &str) -> (r: Html)
        ensures
            is_span(r, seq![class@], text@),
    {
        HtmlElement::new("span").with_class(class).with_child(Html::text(text)).into_html()
    }

    pub fn span2(c1: &str, c2: &str, text: &str) -> (r: Html)
        ensures
            is_span(r, seq![c1@, c2@], text@),
    {
        HtmlElement::new("span").with_class(c1).with_class(c2).with_child(
            Html::text(text),
        ).into_html()
    }

    pub fn p(text: &str) -> (r: Html)
        ensures
            is_p(r, text@),
    {
        HtmlElement::new("p").with_child(Html::text(text)).into_html()
    }

    /// A feather icon tag.
    pub fn feather(name: &str) -> (r: Html)
        ensures
            r matches Html::Element(el) && el.tag@ == "i"@ && el.classes_view() =~= seq![
                "feather"@,
                name@,
            ] && el.attrs@.len() == 0 && el.children@.len() == 0,
    {
        HtmlElement::new("i").with_class("feather").with_class(name).into_html()
    }
}

} // verus!
