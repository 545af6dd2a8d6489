//! The render pass over the parsed markdown event tree.
//!
//! The renderer core parses the markdown source into a tree of events and
//! calls the adapter back for every node, children before parents.  This
//! module is that walk: each standard construct becomes a native view node
//! through the translation table, and each custom tag is resolved against
//! the registry and dispatched to its callback — exactly once per
//! occurrence, with the attributes exactly as written in the source tag and
//! the already rendered children.  A creation error is recovered at this
//! boundary: the failed component renders as a visible placeholder instead
//! of aborting the render.

use vstd::prelude::*;
use crate::click::ClickHandler;
use crate::component::{ComponentCreationError, MdComponentProps, spec_error_message};
use crate::registry::CustomComponents;
use crate::view::{ElementAttributes, HtmlElement, ViewNode};
use crate::view::{
    el_a, el_br, el_fragment, el_hr, el_img, el_input_checkbox, el_span_with_inner_html, el_text,
    el_with_attributes,
};
use crate::view::{
    lemma_tree_eq_refl, spec_checkbox_view, spec_classes, spec_element_supported,
    spec_element_view, spec_hr_view, spec_inner_html_view, spec_join_classes, spec_ol_start,
    spec_style_string, spec_tag_name, spec_tree_eq, spec_trees_eq,
};

verus! {

/// One node of the parsed markdown event tree, as the renderer core hands
/// it to the adapter.
pub enum MdNode {
    /// A standard markdown construct wrapping its children.
    Element { kind: HtmlElement, attributes: ElementAttributes, children: Vec<MdNode> },
    /// A raw inline HTML span, inserted unescaped.
    InlineHtml { html: String, attributes: ElementAttributes },
    /// A horizontal rule.
    Rule { attributes: ElementAttributes },
    /// A hard line break.
    HardBreak,
    /// A plain text span.
    Text { text: String },
    /// A plain hyperlink around its children.
    Link { href: String, children: Vec<MdNode> },
    /// An image.
    Image { src: String, alt: String },
    /// A task-list checkbox.
    TaskListMarker { checked: bool, attributes: ElementAttributes },
    /// A custom tag: its name and attributes exactly as written in the
    /// markdown source, and its children.
    Custom { name: String, attributes: Vec<(String, String)>, children: Vec<MdNode> },
}

/// What the renderer core guarantees of the event tree it hands over:
/// heading levels stay within 1 through 6, and a custom tag is dispatched
/// only after the registry answered that its name is registered.
pub open spec fn spec_renderable<C: Fn(MdComponentProps) -> Result<
    ViewNode,
    ComponentCreationError,
>>(reg: Map<Seq<char>, C>, node: MdNode) -> bool
    decreases node,
{
    match node {
        MdNode::Element { kind, attributes, children } => spec_element_supported(kind)
            && spec_renderable_seq(reg, children@),
        MdNode::Link { href, children } => spec_renderable_seq(reg, children@),
        MdNode::Custom { name, attributes, children } => reg.contains_key(name@)
            && spec_renderable_seq(reg, children@),
        _ => true,
    }
}

pub open spec fn spec_renderable_seq<C: Fn(MdComponentProps) -> Result<
    ViewNode,
    ComponentCreationError,
>>(reg: Map<Seq<char>, C>, nodes: Seq<MdNode>) -> bool
    decreases nodes,
{
    forall|i: int| 0 <= i < nodes.len() ==> spec_renderable(reg, #[trigger] nodes[i])
}

/// Every registered callback accepts every props value it may be handed.
pub open spec fn spec_callbacks_callable<C: Fn(MdComponentProps) -> Result<
    ViewNode,
    ComponentCreationError,
>>(reg: Map<Seq<char>, C>) -> bool {
    forall|name: Seq<char>, props: MdComponentProps|
        reg.contains_key(name) ==> #[trigger] call_requires(reg[name], (props,))
}

/// The visible placeholder a failed component renders as.
pub open spec fn spec_error_placeholder(r: ViewNode, e: ComponentCreationError) -> bool {
    r matches ViewNode::Text { text } && text@ == spec_error_message(e)
}

/// The view built for a standard construct: some rendered children stand
/// inside the translated element.
pub open spec fn spec_rendered_element<C: Fn(MdComponentProps) -> Result<
    ViewNode,
    ComponentCreationError,
>>(
    reg: Map<Seq<char>, C>,
    kind: HtmlElement,
    attributes: ElementAttributes,
    children: Seq<MdNode>,
    r: ViewNode,
) -> bool
    decreases children, 1nat,
{
    r matches ViewNode::Element { tag, class, style, start, on_click, inside } && tag@
        == spec_tag_name(kind) && class@ == spec_join_classes(spec_classes(attributes.classes))
        && style@ == spec_style_string(attributes.style) && start == spec_ol_start(kind)
        && on_click == attributes.on_click && (*inside matches ViewNode::Fragment { children: k }
        && spec_rendered_seq(reg, children, k@))
}

/// The view built for a plain link: some rendered children stand inside the
/// anchor.
pub open spec fn spec_rendered_link<C: Fn(MdComponentProps) -> Result<
    ViewNode,
    ComponentCreationError,
>>(reg: Map<Seq<char>, C>, href: String, children: Seq<MdNode>, r: ViewNode) -> bool
    decreases children, 1nat,
{
    r matches ViewNode::Anchor { href: h, inside } && h == href && (
    *inside matches ViewNode::Fragment { children: k } && spec_rendered_seq(reg, children, k@))
}

/// The view built for a custom tag: one dispatch of the registered callback,
/// on props holding the attributes exactly as written and the rendered
/// children; its subtree on success, the error placeholder on failure.
pub open spec fn spec_rendered_custom<C: Fn(MdComponentProps) -> Result<
    ViewNode,
    ComponentCreationError,
>>(
    reg: Map<Seq<char>, C>,
    name: Seq<char>,
    attributes: Seq<(String, String)>,
    children: Seq<MdNode>,
    r: ViewNode,
) -> bool
    decreases children, 1nat,
{
    reg.contains_key(name) && exists|
        props: MdComponentProps,
        out: Result<ViewNode, ComponentCreationError>,
    |
        #[trigger] call_ensures(reg[name], (props,), out) && props.attributes@ == attributes
            && (props.children matches ViewNode::Fragment { children: cv } && spec_rendered_seq(
            reg,
            children,
            cv@,
        )) && (match out {
            Ok(v) => r == v,
            Err(e) => spec_error_placeholder(r, e),
        })
}

/// How one event node and the view built for it relate: the dispatch and
/// translation protocol of the adapter.
///
/// For a custom tag this pins one callback dispatch per occurrence: the
/// props hold the attributes exactly as written in the source tag and the
/// already rendered children, and the view is the callback's subtree, or
/// the error placeholder when creation failed.
pub open spec fn spec_rendered<C: Fn(MdComponentProps) -> Result<
    ViewNode,
    ComponentCreationError,
>>(reg: Map<Seq<char>, C>, node: MdNode, r: ViewNode) -> bool
    decreases node, 2nat,
{
    match node {
        MdNode::Element { kind, attributes, children } => spec_rendered_element(
            reg,
            kind,
            attributes,
            children@,
            r,
        ),
        MdNode::InlineHtml { html, attributes } => spec_inner_html_view(r, html, attributes),
        MdNode::Rule { attributes } => spec_hr_view(r, attributes),
        MdNode::HardBreak => r == ViewNode::Br,
        MdNode::Text { text } => r == (ViewNode::Text { text }),
        MdNode::Link { href, children } => spec_rendered_link(reg, href, children@, r),
        MdNode::Image { src, alt } => r == (ViewNode::Image { src, alt }),
        MdNode::TaskListMarker { checked, attributes } => spec_checkbox_view(r, checked, attributes),
        MdNode::Custom { name, attributes, children } => spec_rendered_custom(
            reg,
            name@,
            attributes@,
            children@,
            r,
        ),
    }
}

pub open spec fn spec_rendered_seq<C: Fn(MdComponentProps) -> Result<
    ViewNode,
    ComponentCreationError,
>>(reg: Map<Seq<char>, C>, nodes: Seq<MdNode>, views: Seq<ViewNode>) -> bool
    decreases nodes, 0nat,
{
    views.len() == nodes.len() && forall|i: int|
        0 <= i < nodes.len() ==> spec_rendered(reg, #[trigger] nodes[i], views[i])
}

/// Copies the raw attribute pairs of a tag, value for value.
fn clone_attrs(attrs: &Vec<(String, String)>) -> (r: Vec<(String, String)>)
    ensures
        r@ == attrs@,
{
    let mut out: Vec<(String, String)> = Vec::new();
    let mut i: usize = 0;
    while i < attrs.len()
        invariant
            i <= attrs.len(),
            out@.len() == i,
            forall|j: int| 0 <= j < i ==> out@[j] == attrs@[j],
        decreases attrs.len() - i,
    {
        out.push((attrs[i].0.clone(), attrs[i].1.clone()));
        i = i + 1;
    }
    proof {
        assert(out@ =~= attrs@);
    }
    out
}

/// Looks the tag name up and invokes the registered callback with the props
/// built for this occurrence.  Dispatching an unregistered name is a
/// contract breach of the renderer core, which asks the registry first.
pub fn render_custom_component<C: Fn(MdComponentProps) -> Result<
    ViewNode,
    ComponentCreationError,
>>(components: &CustomComponents<C>, name: &str, input: MdComponentProps) -> (r: Result<
    ViewNode,
    ComponentCreationError,
>)
    requires
        components@.contains_key(name@),
        call_requires(components@[name@], (input,)),
    ensures
        call_ensures(components@[name@], (input,), r),
{
    match components.resolve(name) {
        Some(c) => (c)(input),
        None => vstd::pervasive::unreached(),
    }
}

/// Renders the children of one node, in source order.
fn render_children<C: Fn(MdComponentProps) -> Result<ViewNode, ComponentCreationError>>(
    components: &CustomComponents<C>,
    children: &Vec<MdNode>,
) -> (r: Vec<ViewNode>)
    requires
        spec_renderable_seq(components@, children@),
        spec_callbacks_callable(components@),
    ensures
        spec_rendered_seq(components@, children@, r@),
    decreases children@,
{
    let mut out: Vec<ViewNode> = Vec::new();
    let mut i: usize = 0;
    while i < children.len()
        invariant
            i <= children.len(),
            out@.len() == i,
            spec_renderable_seq(components@, children@),
            spec_callbacks_callable(components@),
            forall|j: int|
                0 <= j < i ==> spec_rendered(components@, children@[j], #[trigger] out@[j]),
        decreases children@.len() - i,
    {
        proof {
            assert(decreases_to!(children@ => children@[i as int]));
        }
        let v = render_node(components, &children[i]);
        out.push(v);
        i = i + 1;
    }
    out
}

/// Renders one node of the event tree: the walk the renderer core drives,
/// children before parents.
pub fn render_node<C: Fn(MdComponentProps) -> Result<ViewNode, ComponentCreationError>>(
    components: &CustomComponents<C>,
    node: &MdNode,
) -> (r: ViewNode)
    requires
        spec_renderable(components@, *node),
        spec_callbacks_callable(components@),
    ensures
        spec_rendered(components@, *node, r),
    decreases *node,
{
    match node {
        MdNode::Element { kind, attributes, children } => {
            proof {
                assert(decreases_to!(*node => (*node)->Element_children));
                assert((*node)->Element_children == *children);
                assert(decreases_to!(*children => children@));
            }
            let cv = render_children(components, children);
            let ghost vcv = cv;
            let inside = el_fragment(cv);
            let r = el_with_attributes(kind, inside, attributes.duplicate());
            proof {
                assert(spec_element_view(
                    r,
                    *kind,
                    (ViewNode::Fragment { children: vcv }),
                    *attributes,
                ));
                assert(spec_rendered_seq(components@, children@, vcv@));
                assert(spec_rendered_element(components@, *kind, *attributes, children@, r));
                assert(*node == (MdNode::Element {
                    kind: *kind,
                    attributes: *attributes,
                    children: *children,
                }));
                assert(spec_rendered(components@, *node, r));
            }
            r
        },
        MdNode::InlineHtml { html, attributes } => {
            let r = el_span_with_inner_html(html.clone(), attributes.duplicate());
            proof {
                assert(spec_inner_html_view(r, *html, *attributes));
                assert(spec_rendered(components@, *node, r));
            }
            r
        },
        MdNode::Rule { attributes } => {
            let r = el_hr(attributes.duplicate());
            proof {
                assert(spec_hr_view(r, *attributes));
                assert(spec_rendered(components@, *node, r));
            }
            r
        },
        MdNode::HardBreak => {
            let r = el_br();
            proof {
                assert(spec_rendered(components@, *node, r));
            }
            r
        },
        MdNode::Text { text } => {
            let r = el_text(text.clone());
            proof {
                assert(spec_rendered(components@, *node, r));
            }
            r
        },
        MdNode::Link { href, children } => {
            proof {
                assert(decreases_to!(*node => (*node)->Link_children));
                assert((*node)->Link_children == *children);
                assert(decreases_to!(*children => children@));
            }
            let cv = render_children(components, children);
            let ghost vcv = cv;
            let inside = el_fragment(cv);
            let r = el_a(inside, href.clone());
            proof {
                assert(spec_rendered_seq(components@, children@, vcv@));
                assert(spec_rendered_link(components@, *href, children@, r));
                assert(*node == (MdNode::Link { href: *href, children: *children }));
                assert(spec_rendered(components@, *node, r));
            }
            r
        },
        MdNode::Image { src, alt } => {
            let r = el_img(src.clone(), alt.clone());
            proof {
                assert(spec_rendered(components@, *node, r));
            }
            r
        },
        MdNode::TaskListMarker { checked, attributes } => {
            let r = el_input_checkbox(*checked, attributes.duplicate());
            proof {
                assert(spec_checkbox_view(r, *checked, *attributes));
                assert(spec_rendered(components@, *node, r));
            }
            r
        },
        MdNode::Custom { name, attributes, children } => {
            proof {
                assert(decreases_to!(*node => (*node)->Custom_children));
                assert((*node)->Custom_children == *children);
                assert(decreases_to!(*children => children@));
            }
            let cv = render_children(components, children);
            let ghost vcv = cv;
            let frag = el_fragment(cv);
            let props = MdComponentProps { attributes: clone_attrs(attributes), children: frag };
            let ghost vprops = props;
            let out = render_custom_component(components, name.as_str(), props);
            let ghost vout = out;
            match out {
                Ok(v) => {
                    proof {
                        assert(call_ensures(components@[name@], (vprops,), vout));
                        assert(vprops.children == (ViewNode::Fragment { children: vcv }));
                        assert(spec_rendered_seq(components@, children@, vcv@));
                        assert(spec_rendered_custom(
                            components@,
                            name@,
                            attributes@,
                            children@,
                            v,
                        ));
                        assert(spec_rendered(components@, *node, v));
                    }
                    v
                },
                Err(e) => {
                    let msg = e.message();
                    let r = el_text(msg);
                    proof {
                        assert(call_ensures(components@[name@], (vprops,), vout));
                        assert(vout == Err::<ViewNode, ComponentCreationError>(e));
                        assert(spec_error_placeholder(r, e));
                        assert(vprops.children == (ViewNode::Fragment { children: vcv }));
                        assert(spec_rendered_seq(components@, children@, vcv@));
                        assert(spec_rendered_custom(
                            components@,
                            name@,
                            attributes@,
                            children@,
                            r,
                        ));
                        assert(spec_rendered(components@, *node, r));
                    }
                    r
                },
            }
        },
    }
}


/// Two props are alike when they carry the same attribute pairs and
/// structurally identical children.
pub open spec fn spec_props_similar(p1: MdComponentProps, p2: MdComponentProps) -> bool {
    p1.attributes@ == p2.attributes@ && spec_tree_eq(p1.children, p2.children)
}

/// Two callback results are alike when both succeed with structurally
/// identical subtrees, or both fail with the same placeholder text.
pub open spec fn spec_result_similar(
    o1: Result<ViewNode, ComponentCreationError>,
    o2: Result<ViewNode, ComponentCreationError>,
) -> bool {
    match (o1, o2) {
        (Ok(v1), Ok(v2)) => spec_tree_eq(v1, v2),
        (Err(e1), Err(e2)) => spec_error_message(e1) == spec_error_message(e2),
        _ => false,
    }
}

/// A pure component: alike props always produce alike results.
pub open spec fn spec_component_pure<C: Fn(MdComponentProps) -> Result<
    ViewNode,
    ComponentCreationError,
>>(c: C) -> bool {
    forall|p1: MdComponentProps, p2: MdComponentProps, o1: Result<
        ViewNode,
        ComponentCreationError,
    >, o2: Result<ViewNode, ComponentCreationError>|
        #[trigger] call_ensures(c, (p1,), o1) && #[trigger] call_ensures(c, (p2,), o2)
            && spec_props_similar(p1, p2) ==> spec_result_similar(o1, o2)
}

/// A registry of pure components.
pub open spec fn spec_registry_pure<C: Fn(MdComponentProps) -> Result<
    ViewNode,
    ComponentCreationError,
>>(reg: Map<Seq<char>, C>) -> bool {
    forall|name: Seq<char>| reg.contains_key(name) ==> spec_component_pure(#[trigger] reg[name])
}

/// Law: rendering is deterministic.  Re-rendering an identical event tree
/// against an identical registry of pure components yields a structurally
/// identical view tree — there is no render-order nondeterminism.
pub proof fn lemma_render_deterministic<C: Fn(MdComponentProps) -> Result<
    ViewNode,
    ComponentCreationError,
>>(reg: Map<Seq<char>, C>, node: MdNode, r1: ViewNode, r2: ViewNode)
    requires
        spec_registry_pure(reg),
        spec_rendered(reg, node, r1),
        spec_rendered(reg, node, r2),
    ensures
        spec_tree_eq(r1, r2),
    decreases node, 1nat,
{
    match node {
        MdNode::Element { kind, attributes, children } => {
            let k1 = r1->Element_inside;
            let k2 = r2->Element_inside;
            lemma_rendered_seq_deterministic(
                reg,
                children@,
                (*k1)->Fragment_children@,
                (*k2)->Fragment_children@,
            );
            assert(spec_tree_eq(*k1, *k2));
            assert(spec_tree_eq(r1, r2));
        },
        MdNode::Link { href, children } => {
            let k1 = r1->Anchor_inside;
            let k2 = r2->Anchor_inside;
            lemma_rendered_seq_deterministic(
                reg,
                children@,
                (*k1)->Fragment_children@,
                (*k2)->Fragment_children@,
            );
            assert(spec_tree_eq(*k1, *k2));
            assert(spec_tree_eq(r1, r2));
        },
        MdNode::Custom { name, attributes, children } => {
            let (p1, o1): (MdComponentProps, Result<ViewNode, ComponentCreationError>) = choose|
                props: MdComponentProps,
                out: Result<ViewNode, ComponentCreationError>,
            |
                #[trigger] call_ensures(reg[name@], (props,), out) && props.attributes@
                    == attributes@ && (props.children matches ViewNode::Fragment { children: cv }
                    && spec_rendered_seq(reg, children@, cv@)) && (match out {
                    Ok(v) => r1 == v,
                    Err(e) => spec_error_placeholder(r1, e),
                });
            let (p2, o2): (MdComponentProps, Result<ViewNode, ComponentCreationError>) = choose|
                props: MdComponentProps,
                out: Result<ViewNode, ComponentCreationError>,
            |
                #[trigger] call_ensures(reg[name@], (props,), out) && props.attributes@
                    == attributes@ && (props.children matches ViewNode::Fragment { children: cv }
                    && spec_rendered_seq(reg, children@, cv@)) && (match out {
                    Ok(v) => r2 == v,
                    Err(e) => spec_error_placeholder(r2, e),
                });
            lemma_rendered_seq_deterministic(
                reg,
                children@,
                (p1.children)->Fragment_children@,
                (p2.children)->Fragment_children@,
            );
            assert(spec_props_similar(p1, p2));
            assert(spec_result_similar(o1, o2));
            match (o1, o2) {
                (Ok(v1), Ok(v2)) => {
                    assert(spec_tree_eq(r1, r2));
                },
                (Err(e1), Err(e2)) => {
                    assert(spec_tree_eq(r1, r2));
                },
                _ => {
                    assert(false);
                },
            }
        },
        MdNode::HardBreak => {
            lemma_tree_eq_refl(r1);
        },
        MdNode::Text { text } => {
            lemma_tree_eq_refl(r1);
        },
        MdNode::Image { src, alt } => {
            lemma_tree_eq_refl(r1);
        },
        MdNode::InlineHtml { html, attributes } => {
            assert(spec_tree_eq(r1, r2));
        },
        MdNode::Rule { attributes } => {
            assert(spec_tree_eq(r1, r2));
        },
        MdNode::TaskListMarker { checked, attributes } => {
            assert(spec_tree_eq(r1, r2));
        },
    }
}

/// Law: rendering the same children in the same order twice gives
/// structurally identical siblings, position by position.
pub proof fn lemma_rendered_seq_deterministic<C: Fn(MdComponentProps) -> Result<
    ViewNode,
    ComponentCreationError,
>>(reg: Map<Seq<char>, C>, nodes: Seq<MdNode>, s1: Seq<ViewNode>, s2: Seq<ViewNode>)
    requires
        spec_registry_pure(reg),
        spec_rendered_seq(reg, nodes, s1),
        spec_rendered_seq(reg, nodes, s2),
    ensures
        spec_trees_eq(s1, s2),
    decreases nodes, 0nat,
{
    assert forall|i: int| 0 <= i < s1.len() implies spec_tree_eq(#[trigger] s1[i], s2[i]) by {
        lemma_render_deterministic(reg, nodes[i], s1[i], s2[i]);
    }
}

/// Law: a custom tag with a registered name dispatches its callback exactly
/// once per occurrence, and the callback receives the attributes exactly as
/// they stand in the source tag; the rendered view is the callback's own
/// subtree, or the error placeholder when creation failed.
pub proof fn lemma_custom_dispatch_exact<C: Fn(MdComponentProps) -> Result<
    ViewNode,
    ComponentCreationError,
>>(
    reg: Map<Seq<char>, C>,
    name: String,
    attributes: Vec<(String, String)>,
    children: Vec<MdNode>,
    r: ViewNode,
)
    requires
        spec_rendered(reg, (MdNode::Custom { name, attributes, children }), r),
    ensures
        reg.contains_key(name@),
        exists|props: MdComponentProps, out: Result<ViewNode, ComponentCreationError>|
            #[trigger] call_ensures(reg[name@], (props,), out) && props.attributes@ == attributes@
                && (match out {
                Ok(v) => r == v,
                Err(e) => spec_error_placeholder(r, e),
            }),
{
    let (p, o): (MdComponentProps, Result<ViewNode, ComponentCreationError>) = choose|
        props: MdComponentProps,
        out: Result<ViewNode, ComponentCreationError>,
    |
        #[trigger] call_ensures(reg[name@], (props,), out) && props.attributes@ == attributes@ && (
        props.children matches ViewNode::Fragment { children: cv } && spec_rendered_seq(
            reg,
            children@,
            cv@,
        )) && (match out {
            Ok(v) => r == v,
            Err(e) => spec_error_placeholder(r, e),
        });
    assert(call_ensures(reg[name@], (p,), o));
}


/// A click wrapper of one element is in order for a source of byte length
/// `len`: its range is a valid sub-range and selects at least one byte — a
/// wrapper with no position information is omitted instead.
pub open spec fn spec_handler_within(o: Option<ClickHandler>, len: nat) -> bool {
    match o {
        Some(h) => h.position.is_within(len) && !h.position.spec_is_empty(),
        None => true,
    }
}

/// Every click wrapper the renderer core put into the event tree is in
/// order for a source of byte length `len`.
pub open spec fn spec_input_handlers_within(node: MdNode, len: nat) -> bool
    decreases node, 1nat,
{
    match node {
        MdNode::Element { kind, attributes, children } => spec_handler_within(
            attributes.on_click,
            len,
        ) && spec_inputs_handlers_within(children@, len),
        MdNode::InlineHtml { html, attributes } => spec_handler_within(attributes.on_click, len),
        MdNode::Rule { attributes } => spec_handler_within(attributes.on_click, len),
        MdNode::HardBreak => true,
        MdNode::Text { text } => true,
        MdNode::Link { href, children } => spec_inputs_handlers_within(children@, len),
        MdNode::Image { src, alt } => true,
        MdNode::TaskListMarker { checked, attributes } => spec_handler_within(
            attributes.on_click,
            len,
        ),
        MdNode::Custom { name, attributes, children } => spec_inputs_handlers_within(
            children@,
            len,
        ),
    }
}

pub open spec fn spec_inputs_handlers_within(nodes: Seq<MdNode>, len: nat) -> bool
    decreases nodes, 0nat,
{
    forall|i: int| 0 <= i < nodes.len() ==> spec_input_handlers_within(#[trigger] nodes[i], len)
}

/// Every click wrapper of a view tree is in order for a source of byte
/// length `len`.
pub open spec fn spec_view_handlers_within(r: ViewNode, len: nat) -> bool
    decreases r, 1nat,
{
    match r {
        ViewNode::Element { on_click, inside, .. } => spec_handler_within(on_click, len)
            && spec_view_handlers_within(*inside, len),
        ViewNode::InnerHtmlSpan { on_click, .. } => spec_handler_within(on_click, len),
        ViewNode::Hr { on_click, .. } => spec_handler_within(on_click, len),
        ViewNode::Br => true,
        ViewNode::Text { .. } => true,
        ViewNode::Fragment { children } => spec_views_handlers_within(children@, len),
        ViewNode::Anchor { inside, .. } => spec_view_handlers_within(*inside, len),
        ViewNode::Image { .. } => true,
        ViewNode::Checkbox { on_click, .. } => spec_handler_within(on_click, len),
    }
}

pub open spec fn spec_views_handlers_within(s: Seq<ViewNode>, len: nat) -> bool
    decreases s, 0nat,
{
    forall|i: int| 0 <= i < s.len() ==> spec_view_handlers_within(#[trigger] s[i], len)
}

/// Every view subtree a registered callback can return keeps its click
/// wrappers in order for a source of byte length `len`.
pub open spec fn spec_registry_outputs_within<C: Fn(MdComponentProps) -> Result<
    ViewNode,
    ComponentCreationError,
>>(reg: Map<Seq<char>, C>, len: nat) -> bool {
    forall|name: Seq<char>, props: MdComponentProps, out: Result<
        ViewNode,
        ComponentCreationError,
    >|
        reg.contains_key(name) && #[trigger] call_ensures(reg[name], (props,), out) ==> (
        out matches Ok(v) ==> spec_view_handlers_within(v, len))
}

/// Law: the byte range of every click-wrapped element of the rendered view
/// is a valid, non-empty sub-range of the source string, provided the
/// renderer core supplied such ranges for the event tree and the registered
/// callbacks keep their own subtrees in order.
pub proof fn lemma_render_handlers_within<C: Fn(MdComponentProps) -> Result<
    ViewNode,
    ComponentCreationError,
>>(reg: Map<Seq<char>, C>, node: MdNode, r: ViewNode, len: nat)
    requires
        spec_rendered(reg, node, r),
        spec_input_handlers_within(node, len),
        spec_registry_outputs_within(reg, len),
    ensures
        spec_view_handlers_within(r, len),
    decreases node, 1nat,
{
    match node {
        MdNode::Element { kind, attributes, children } => {
            let k = r->Element_inside;
            lemma_rendered_seq_handlers_within(reg, children@, (*k)->Fragment_children@, len);
            assert(spec_view_handlers_within(*k, len));
        },
        MdNode::Link { href, children } => {
            let k = r->Anchor_inside;
            lemma_rendered_seq_handlers_within(reg, children@, (*k)->Fragment_children@, len);
            assert(spec_view_handlers_within(*k, len));
        },
        MdNode::Custom { name, attributes, children } => {
            let (p, o): (MdComponentProps, Result<ViewNode, ComponentCreationError>) = choose|
                props: MdComponentProps,
                out: Result<ViewNode, ComponentCreationError>,
            |
                #[trigger] call_ensures(reg[name@], (props,), out) && props.attributes@
                    == attributes@ && (props.children matches ViewNode::Fragment { children: cv }
                    && spec_rendered_seq(reg, children@, cv@)) && (match out {
                    Ok(v) => r == v,
                    Err(e) => spec_error_placeholder(r, e),
                });
            match o {
                Ok(v) => {
                    assert(spec_view_handlers_within(r, len));
                },
                Err(e) => {
                    assert(spec_view_handlers_within(r, len));
                },
            }
        },
        _ => {},
    }
}

pub proof fn lemma_rendered_seq_handlers_within<C: Fn(MdComponentProps) -> Result<
    ViewNode,
    ComponentCreationError,
>>(reg: Map<Seq<char>, C>, nodes: Seq<MdNode>, s: Seq<ViewNode>, len: nat)
    requires
        spec_rendered_seq(reg, nodes, s),
        spec_inputs_handlers_within(nodes, len),
        spec_registry_outputs_within(reg, len),
    ensures
        spec_views_handlers_within(s, len),
    decreases nodes, 0nat,
{
    assert forall|i: int| 0 <= i < s.len() implies spec_view_handlers_within(
        #[trigger] s[i],
        len,
    ) by {
        lemma_render_handlers_within(reg, nodes[i], s[i], len);
    }
}


/// Whether a click wrapper stands on some element of a view tree.
pub open spec fn spec_view_has_handler(r: ViewNode, h: ClickHandler) -> bool
    decreases r, 1nat,
{
    match r {
        ViewNode::Element { on_click, inside, .. } => on_click == Some(h)
            || spec_view_has_handler(*inside, h),
        ViewNode::InnerHtmlSpan { on_click, .. } => on_click == Some(h),
        ViewNode::Hr { on_click, .. } => on_click == Some(h),
        ViewNode::Br => false,
        ViewNode::Text { .. } => false,
        ViewNode::Fragment { children } => spec_views_have_handler(children@, h),
        ViewNode::Anchor { inside, .. } => spec_view_has_handler(*inside, h),
        ViewNode::Image { .. } => false,
        ViewNode::Checkbox { on_click, .. } => on_click == Some(h),
    }
}

pub open spec fn spec_views_have_handler(s: Seq<ViewNode>, h: ClickHandler) -> bool
    decreases s, 0nat,
{
    exists|i: int| 0 <= i < s.len() && spec_view_has_handler(#[trigger] s[i], h)
}

/// Every click wrapper standing on a view tree whose wrappers are in order
/// carries a valid, non-empty byte range.
pub proof fn lemma_view_handler_within(r: ViewNode, h: ClickHandler, len: nat)
    requires
        spec_view_handlers_within(r, len),
        spec_view_has_handler(r, h),
    ensures
        h.position.is_within(len),
        !h.position.spec_is_empty(),
    decreases r, 1nat,
{
    match r {
        ViewNode::Element { on_click, inside, .. } => {
            if on_click != Some(h) {
                lemma_view_handler_within(*inside, h, len);
            }
        },
        ViewNode::Fragment { children } => {
            assert(spec_views_have_handler(children@, h));
            let i = choose|i: int|
                0 <= i < children@.len() && spec_view_has_handler(#[trigger] children@[i], h);
            assert(0 <= i < children@.len() && spec_view_has_handler(children@[i], h));
            assert(decreases_to!(r => r->Fragment_children));
            assert(r->Fragment_children == children);
            assert(decreases_to!(children => children@));
            assert(decreases_to!(children@ => children@[i]));
            assert(decreases_to!(r => children@[i]));
            assert(spec_views_handlers_within(children@, len));
            assert(spec_view_handlers_within(children@[i], len));
            lemma_view_handler_within(children@[i], h, len);
        },
        ViewNode::Anchor { inside, .. } => {
            lemma_view_handler_within(*inside, h, len);
        },
        _ => {},
    }
}

/// Law, end to end: render a well-formed event tree — ranges from the
/// renderer core valid and non-empty, callbacks keeping their subtrees in
/// order — and any click that hits a stack of the rendered view's own
/// wrappers reports only valid, non-empty byte ranges of the source.
pub proof fn lemma_rendered_click_ranges_valid<M, C: Fn(MdComponentProps) -> Result<
    ViewNode,
    ComponentCreationError,
>>(
    reg: Map<Seq<char>, C>,
    node: MdNode,
    r: ViewNode,
    chain: Seq<ClickHandler>,
    mouse_event: M,
    has_on_click: bool,
    src_len: nat,
)
    requires
        spec_rendered(reg, node, r),
        spec_input_handlers_within(node, src_len),
        spec_registry_outputs_within(reg, src_len),
        forall|j: int| 0 <= j < chain.len() ==> spec_view_has_handler(r, #[trigger] chain[j]),
    ensures
        forall|k: int|
            0 <= k < crate::click::spec_dispatch(chain, mouse_event, has_on_click).len() ==> (
            #[trigger] crate::click::spec_dispatch(chain, mouse_event, has_on_click)[
                k
            ]).position.is_within(src_len) && !crate::click::spec_dispatch(
                chain,
                mouse_event,
                has_on_click,
            )[k].position.spec_is_empty(),
{
    lemma_render_handlers_within(reg, node, r, src_len);
    assert forall|j: int|
        0 <= j < chain.len() implies (#[trigger] chain[j]).position.is_within(src_len) && !chain[
        j
    ].position.spec_is_empty() by {
        lemma_view_handler_within(r, chain[j], src_len);
    }
    crate::click::lemma_dispatch_ranges_nonempty(chain, mouse_event, has_on_click, src_len);
}

} // verus!
