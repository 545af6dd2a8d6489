//! Translation of markdown constructs into native view nodes.
//!
//! A finite vocabulary of standard markdown constructs ([`HtmlElement`]) is
//! mapped onto view nodes ([`ViewNode`]): each constructor takes the already
//! rendered content, a list of CSS classes (joined with a single space), an
//! optional inline style string, and an optional position-tracked click
//! wrapper.

use vstd::prelude::*;
use crate::click::ClickHandler;

verus! {

/// A standard markdown construct, as the renderer core reports it: the fixed
/// tag vocabulary plus the ordered-list start index and the heading level.
#[derive(Clone, Copy, PartialEq, Eq, Structural, Debug)]
pub enum HtmlElement {
    Div,
    Span,
    Paragraph,
    BlockQuote,
    Ul,
    Ol(i64),
    Li,
    Heading(u8),
    Table,
    Thead,
    Trow,
    Tcell,
    Italics,
    Bold,
    StrikeThrough,
    Pre,
    Code,
}

/// The attributes the renderer core wants applied to one element: CSS
/// classes, an inline style string, and an optional click wrapper.
#[derive(Clone, PartialEq, Debug)]
pub struct ElementAttributes {
    pub classes: Vec<String>,
    pub style: Option<String>,
    pub on_click: Option<ClickHandler>,
}

/// A native view node: the tree the host GUI framework receives.  Value
/// object only — the framework owns layout, diffing and event delivery.
#[derive(PartialEq, Debug)]
pub enum ViewNode {
    /// A markdown construct rendered as one HTML element wrapping its
    /// already rendered content.
    Element {
        tag: String,
        class: String,
        style: String,
        start: Option<i64>,
        on_click: Option<ClickHandler>,
        inside: Box<ViewNode>,
    },
    /// A span whose markup is inserted unescaped; the renderer core has
    /// already decided this is safe.
    InnerHtmlSpan { html: String, class: String, style: String, on_click: Option<ClickHandler> },
    /// A horizontal rule.
    Hr { class: String, style: String, on_click: Option<ClickHandler> },
    /// A hard line break.
    Br,
    /// A plain text node.
    Text { text: String },
    /// A list of sibling nodes.
    Fragment { children: Vec<ViewNode> },
    /// A plain hyperlink around already rendered content.
    Anchor { href: String, inside: Box<ViewNode> },
    /// An image.
    Image { src: String, alt: String },
    /// A checkbox input, as used for markdown task lists.
    Checkbox { checked: bool, class: String, style: String, on_click: Option<ClickHandler> },
}

/// Valid heading levels: the renderer core guarantees it never emits a
/// heading outside 1 through 6; anything else is a contract violation.
pub open spec fn spec_element_supported(e: HtmlElement) -> bool {
    match e {
        HtmlElement::Heading(l) => 1 <= l <= 6,
        _ => true,
    }
}

/// The HTML tag each markdown construct translates to.
pub open spec fn spec_tag_name(e: HtmlElement) -> Seq<char> {
    match e {
        HtmlElement::Div => "div"@,
        HtmlElement::Span => "span"@,
        HtmlElement::Paragraph => "p"@,
        HtmlElement::BlockQuote => "blockquote"@,
        HtmlElement::Ul => "ul"@,
        HtmlElement::Ol(_) => "ol"@,
        HtmlElement::Li => "li"@,
        HtmlElement::Heading(l) => spec_heading_tag(l),
        HtmlElement::Table => "table"@,
        HtmlElement::Thead => "thead"@,
        HtmlElement::Trow => "tr"@,
        HtmlElement::Tcell => "td"@,
        HtmlElement::Italics => "i"@,
        HtmlElement::Bold => "b"@,
        HtmlElement::StrikeThrough => "s"@,
        HtmlElement::Pre => "p"@,
        HtmlElement::Code => "code"@,
    }
}

pub open spec fn spec_heading_tag(l: u8) -> Seq<char> {
    if l == 1 {
        "h1"@
    } else if l == 2 {
        "h2"@
    } else if l == 3 {
        "h3"@
    } else if l == 4 {
        "h4"@
    } else if l == 5 {
        "h5"@
    } else if l == 6 {
        "h6"@
    } else {
        Seq::empty()
    }
}

/// The ordered-list start index carried over to the view node; absent for
/// every other construct.
pub open spec fn spec_ol_start(e: HtmlElement) -> Option<i64> {
    match e {
        HtmlElement::Ol(x) => Some(x),
        _ => None,
    }
}

/// The inline style string applied to an element: the style as given, or
/// empty when absent.
pub open spec fn spec_style_string(style: Option<String>) -> Seq<char> {
    match style {
        Some(s) => s@,
        None => Seq::empty(),
    }
}

/// The CSS class attribute built from a class list: the classes joined with
/// a single space; an empty list yields an empty class string.
pub open spec fn spec_join_classes(cs: Seq<Seq<char>>) -> Seq<char>
    decreases cs.len(),
{
    if cs.len() == 0 {
        Seq::empty()
    } else if cs.len() == 1 {
        cs[0]
    } else {
        spec_join_classes(cs.drop_last()) + seq![' '] + cs.last()
    }
}

/// The view of a class list: each class string as a sequence of characters.
pub open spec fn spec_classes(classes: Vec<String>) -> Seq<Seq<char>> {
    classes@.map_values(|s: String| s@)
}

/// Joins a class list with single-space separators.
pub fn join_classes(classes: &Vec<String>) -> (r: String)
    ensures
        r@ == spec_join_classes(spec_classes(*classes)),
{
    let ghost mapped = spec_classes(*classes);
    let mut out = String::new();
    let mut i: usize = 0;
    proof {
        assert(mapped.take(0) =~= Seq::<Seq<char>>::empty());
    }
    while i < classes.len()
        invariant
            i <= classes.len(),
            mapped == spec_classes(*classes),
            mapped.len() == classes.len(),
            out@ == spec_join_classes(mapped.take(i as int)),
        decreases classes.len() - i,
    {
        if i > 0 {
            out.append(" ");
            proof {
                reveal_strlit(" ");
                assert(" "@ =~= seq![' ']);
            }
        }
        out.append(classes[i].as_str());
        proof {
            assert(mapped.take(i as int + 1).drop_last() =~= mapped.take(i as int));
            assert(mapped.take(i as int + 1).last() == mapped[i as int]);
        }
        i = i + 1;
    }
    proof {
        assert(mapped.take(classes.len() as int) =~= mapped);
    }
    out
}

/// What the view node of one wrapped markdown construct must hold: the tag
/// from the translation table, the joined class list, the style as given or
/// empty, the ordered-list start when there is one, the click wrapper as
/// given, and the already rendered content inside.
pub open spec fn spec_element_view(
    r: ViewNode,
    e: HtmlElement,
    inside: ViewNode,
    attributes: ElementAttributes,
) -> bool {
    r matches ViewNode::Element { tag, class, style, start, on_click, inside: boxed }
        && tag@ == spec_tag_name(e) && class@ == spec_join_classes(spec_classes(attributes.classes))
        && style@ == spec_style_string(attributes.style) && start == spec_ol_start(e) && on_click
        == attributes.on_click && *boxed == inside
}

/// What the unescaped-markup span must hold.
pub open spec fn spec_inner_html_view(
    r: ViewNode,
    inner_html: String,
    attributes: ElementAttributes,
) -> bool {
    r matches ViewNode::InnerHtmlSpan { html, class, style, on_click } && html == inner_html
        && class@ == spec_join_classes(spec_classes(attributes.classes)) && style@
        == spec_style_string(attributes.style) && on_click == attributes.on_click
}

/// What the horizontal-rule node must hold.
pub open spec fn spec_hr_view(r: ViewNode, attributes: ElementAttributes) -> bool {
    r matches ViewNode::Hr { class, style, on_click } && class@ == spec_join_classes(
        spec_classes(attributes.classes),
    ) && style@ == spec_style_string(attributes.style) && on_click == attributes.on_click
}

/// What the checkbox node must hold.
pub open spec fn spec_checkbox_view(
    r: ViewNode,
    checked: bool,
    attributes: ElementAttributes,
) -> bool {
    r matches ViewNode::Checkbox { checked: c, class, style, on_click } && c == checked && class@
        == spec_join_classes(spec_classes(attributes.classes)) && style@ == spec_style_string(
        attributes.style,
    ) && on_click == attributes.on_click
}

/// Structural identity of two view trees: the same shape with the same tag,
/// class, style and text characters, the same click wrappers, and
/// structurally identical content.  This is what "the same rendered view"
/// means, character for character.
pub open spec fn spec_tree_eq(a: ViewNode, b: ViewNode) -> bool
    decreases a, 1nat,
{
    match (a, b) {
        (
            ViewNode::Element { tag: t1, class: c1, style: y1, start: x1, on_click: o1, inside: i1 },
            ViewNode::Element { tag: t2, class: c2, style: y2, start: x2, on_click: o2, inside: i2 },
        ) => t1@ == t2@ && c1@ == c2@ && y1@ == y2@ && x1 == x2 && o1 == o2 && spec_tree_eq(
            *i1,
            *i2,
        ),
        (
            ViewNode::InnerHtmlSpan { html: h1, class: c1, style: y1, on_click: o1 },
            ViewNode::InnerHtmlSpan { html: h2, class: c2, style: y2, on_click: o2 },
        ) => h1@ == h2@ && c1@ == c2@ && y1@ == y2@ && o1 == o2,
        (
            ViewNode::Hr { class: c1, style: y1, on_click: o1 },
            ViewNode::Hr { class: c2, style: y2, on_click: o2 },
        ) => c1@ == c2@ && y1@ == y2@ && o1 == o2,
        (ViewNode::Br, ViewNode::Br) => true,
        (ViewNode::Text { text: t1 }, ViewNode::Text { text: t2 }) => t1@ == t2@,
        (ViewNode::Fragment { children: k1 }, ViewNode::Fragment { children: k2 }) => spec_trees_eq(
            k1@,
            k2@,
        ),
        (
            ViewNode::Anchor { href: h1, inside: i1 },
            ViewNode::Anchor { href: h2, inside: i2 },
        ) => h1@ == h2@ && spec_tree_eq(*i1, *i2),
        (
            ViewNode::Image { src: s1, alt: a1 },
            ViewNode::Image { src: s2, alt: a2 },
        ) => s1@ == s2@ && a1@ == a2@,
        (
            ViewNode::Checkbox { checked: b1, class: c1, style: y1, on_click: o1 },
            ViewNode::Checkbox { checked: b2, class: c2, style: y2, on_click: o2 },
        ) => b1 == b2 && c1@ == c2@ && y1@ == y2@ && o1 == o2,
        _ => false,
    }
}

/// Structural identity of two lists of sibling view trees, in order.
pub open spec fn spec_trees_eq(s1: Seq<ViewNode>, s2: Seq<ViewNode>) -> bool
    decreases s1, 0nat,
{
    s1.len() == s2.len() && forall|i: int|
        0 <= i < s1.len() ==> spec_tree_eq(#[trigger] s1[i], s2[i])
}

/// Structural identity is reflexive: every view tree is structurally
/// identical to itself.
pub proof fn lemma_tree_eq_refl(a: ViewNode)
    ensures
        spec_tree_eq(a, a),
    decreases a, 1nat,
{
    match a {
        ViewNode::Element { inside, .. } => {
            lemma_tree_eq_refl(*inside);
            assert(spec_tree_eq(a, a));
        },
        ViewNode::Fragment { children } => {
            assert forall|i: int| 0 <= i < children@.len() implies spec_tree_eq(
                #[trigger] children@[i],
                children@[i],
            ) by {
                lemma_tree_eq_refl(children@[i]);
            }
            assert(spec_trees_eq(children@, children@));
            assert(spec_tree_eq(a, a));
        },
        ViewNode::Anchor { inside, .. } => {
            lemma_tree_eq_refl(*inside);
            assert(spec_tree_eq(a, a));
        },
        ViewNode::Br => {
            assert(spec_tree_eq(a, a));
        },
        ViewNode::Text { .. } => {
            assert(spec_tree_eq(a, a));
        },
        ViewNode::InnerHtmlSpan { .. } => {
            assert(spec_tree_eq(a, a));
        },
        ViewNode::Hr { .. } => {
            assert(spec_tree_eq(a, a));
        },
        ViewNode::Image { .. } => {
            assert(spec_tree_eq(a, a));
        },
        ViewNode::Checkbox { .. } => {
            assert(spec_tree_eq(a, a));
        },
    }
}

impl ElementAttributes {
    /// Copies the attributes, value for value.
    pub fn duplicate(&self) -> (r: ElementAttributes)
        ensures
            r.classes@ == self.classes@,
            r.style == self.style,
            r.on_click == self.on_click,
    {
        let mut classes: Vec<String> = Vec::new();
        let mut i: usize = 0;
        while i < self.classes.len()
            invariant
                i <= self.classes.len(),
                classes@.len() == i,
                forall|j: int| 0 <= j < i ==> classes@[j] == self.classes@[j],
            decreases self.classes.len() - i,
        {
            classes.push(self.classes[i].clone());
            i = i + 1;
        }
        proof {
            assert(classes@ =~= self.classes@);
        }
        let style = match &self.style {
            Some(s) => Some(s.clone()),
            None => None,
        };
        ElementAttributes { classes, style, on_click: self.on_click }
    }
}

/// The HTML tag for one markdown construct.
pub fn tag_name(e: &HtmlElement) -> (r: &'static str)
    requires
        spec_element_supported(*e),
    ensures
        r@ == spec_tag_name(*e),
{
    match e {
        HtmlElement::Div => "div",
        HtmlElement::Span => "span",
        HtmlElement::Paragraph => "p",
        HtmlElement::BlockQuote => "blockquote",
        HtmlElement::Ul => "ul",
        HtmlElement::Ol(_) => "ol",
        HtmlElement::Li => "li",
        HtmlElement::Heading(l) => {
            if *l == 1 {
                "h1"
            } else if *l == 2 {
                "h2"
            } else if *l == 3 {
                "h3"
            } else if *l == 4 {
                "h4"
            } else if *l == 5 {
                "h5"
            } else {
                "h6"
            }
        },
        HtmlElement::Table => "table",
        HtmlElement::Thead => "thead",
        HtmlElement::Trow => "tr",
        HtmlElement::Tcell => "td",
        HtmlElement::Italics => "i",
        HtmlElement::Bold => "b",
        HtmlElement::StrikeThrough => "s",
        HtmlElement::Pre => "p",
        HtmlElement::Code => "code",
    }
}

/// Wraps already rendered content in the element a markdown construct
/// translates to, applying classes, style and the click wrapper.
///
/// A heading level outside 1 through 6 is a contract breach of the renderer
/// core and is excluded here rather than handled.
pub fn el_with_attributes(e: &HtmlElement, inside: ViewNode, attributes: ElementAttributes) -> (r:
    ViewNode)
    requires
        spec_element_supported(*e),
    ensures
        spec_element_view(r, *e, inside, attributes),
{
    let tag = tag_name(e);
    let class = join_classes(&attributes.classes);
    let style = match attributes.style {
        Some(s) => s,
        None => String::new(),
    };
    let start = match e {
        HtmlElement::Ol(x) => Some(*x),
        _ => None,
    };
    ViewNode::Element {
        tag: tag.to_owned(),
        class,
        style,
        start,
        on_click: attributes.on_click,
        inside: Box::new(inside),
    }
}

/// A span carrying unescaped markup, with classes, style and click wrapper.
pub fn el_span_with_inner_html(inner_html: String, attributes: ElementAttributes) -> (r: ViewNode)
    ensures
        spec_inner_html_view(r, inner_html, attributes),
{
    let class = join_classes(&attributes.classes);
    let style = match attributes.style {
        Some(s) => s,
        None => String::new(),
    };
    ViewNode::InnerHtmlSpan { html: inner_html, class, style, on_click: attributes.on_click }
}

/// A horizontal rule with classes, style and click wrapper.
pub fn el_hr(attributes: ElementAttributes) -> (r: ViewNode)
    ensures
        spec_hr_view(r, attributes),
{
    let class = join_classes(&attributes.classes);
    let style = match attributes.style {
        Some(s) => s,
        None => String::new(),
    };
    ViewNode::Hr { class, style, on_click: attributes.on_click }
}

/// A hard line break.
pub fn el_br() -> (r: ViewNode)
    ensures
        r == ViewNode::Br,
{
    ViewNode::Br
}

/// A fragment listing already rendered siblings in order.
pub fn el_fragment(children: Vec<ViewNode>) -> (r: ViewNode)
    ensures
        r == (ViewNode::Fragment { children }),
{
    ViewNode::Fragment { children }
}

/// A plain hyperlink around already rendered content.
pub fn el_a(children: ViewNode, href: String) -> (r: ViewNode)
    ensures
        r matches ViewNode::Anchor { href: h, inside } && h == href && *inside == children,
{
    ViewNode::Anchor { href, inside: Box::new(children) }
}

/// An image.
pub fn el_img(src: String, alt: String) -> (r: ViewNode)
    ensures
        r == (ViewNode::Image { src, alt }),
{
    ViewNode::Image { src, alt }
}

/// A plain text node.
pub fn el_text(text: String) -> (r: ViewNode)
    ensures
        r == (ViewNode::Text { text }),
{
    ViewNode::Text { text }
}

/// A checkbox input, as used for markdown task lists.
pub fn el_input_checkbox(checked: bool, attributes: ElementAttributes) -> (r: ViewNode)
    ensures
        spec_checkbox_view(r, checked, attributes),
{
    let class = join_classes(&attributes.classes);
    let style = match attributes.style {
        Some(s) => s,
        None => String::new(),
    };
    ViewNode::Checkbox { checked, class, style, on_click: attributes.on_click }
}

} // verus!
