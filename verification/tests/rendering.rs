use std::cell::Cell;

use dioxus_markdown::click::{ClickHandler, SourceRange};
use dioxus_markdown::links::{render_links, LinkDescription};
use dioxus_markdown::component::{ComponentCreationError, MdComponentProps};
use dioxus_markdown::registry::CustomComponents;
use dioxus_markdown::render::{render_custom_component, render_node, MdNode};
use dioxus_markdown::view::{
    el_with_attributes, join_classes, ElementAttributes, HtmlElement, ViewNode,
};

type Callback = fn(MdComponentProps) -> Result<ViewNode, ComponentCreationError>;

fn no_attrs() -> ElementAttributes {
    ElementAttributes { classes: vec![], style: None, on_click: None }
}

fn counter_cb(props: MdComponentProps) -> Result<ViewNode, ComponentCreationError> {
    // Reads the integer attribute `initial`, falling back to 0 when the
    // attribute is absent.
    let seed = props.get_parsed_optional_i64("initial")?.unwrap_or(0);
    Ok(ViewNode::Text { text: format!("counter:{}", seed) })
}

fn box_cb(props: MdComponentProps) -> Result<ViewNode, ComponentCreationError> {
    Ok(ViewNode::Element {
        tag: "div".to_string(),
        class: String::new(),
        style: "border: 2px solid blue".to_string(),
        start: None,
        on_click: None,
        inside: Box::new(props.children),
    })
}

fn counter(attrs: Vec<(&str, &str)>) -> MdNode {
    MdNode::Custom {
        name: "Counter".to_string(),
        attributes: attrs
            .into_iter()
            .map(|(k, v)| (k.to_string(), v.to_string()))
            .collect(),
        children: vec![],
    }
}

fn counter_registry() -> CustomComponents<Callback> {
    let mut components: CustomComponents<Callback> = CustomComponents::new();
    components.register("Counter", counter_cb);
    components
}

#[test]
fn counter_seeded_from_integer_attribute() {
    let components = counter_registry();
    let view = render_node(&components, &counter(vec![("initial", "5")]));
    assert_eq!(view, ViewNode::Text { text: "counter:5".to_string() });
}

#[test]
fn counter_with_bad_attribute_renders_placeholder_not_crash() {
    let components = counter_registry();
    let view = render_node(&components, &counter(vec![("initial", "a")]));
    assert_eq!(
        view,
        ViewNode::Text { text: "invalid value `a` for attribute `initial`".to_string() }
    );
}

#[test]
fn counter_without_attribute_uses_callback_default() {
    let components = counter_registry();
    let view = render_node(&components, &counter(vec![]));
    assert_eq!(view, ViewNode::Text { text: "counter:0".to_string() });
}

#[test]
fn box_component_wraps_rendered_bold_child() {
    // Source `<box>**bold**</box>`: the registered wrapper receives the
    // already rendered bold text as its single child.
    let mut components: CustomComponents<Callback> = CustomComponents::new();
    components.register("box", box_cb);
    let node = MdNode::Custom {
        name: "box".to_string(),
        attributes: vec![],
        children: vec![MdNode::Element {
            kind: HtmlElement::Bold,
            attributes: no_attrs(),
            children: vec![MdNode::Text { text: "bold".to_string() }],
        }],
    };
    let view = render_node(&components, &node);
    match view {
        ViewNode::Element { tag, style, inside, .. } => {
            assert_eq!(tag, "div");
            assert_eq!(style, "border: 2px solid blue");
            match *inside {
                ViewNode::Fragment { children } => {
                    assert_eq!(children.len(), 1, "exactly one rendered child");
                    match &children[0] {
                        ViewNode::Element { tag, inside, .. } => {
                            assert_eq!(tag, "b");
                            assert_eq!(
                                **inside,
                                ViewNode::Fragment {
                                    children: vec![ViewNode::Text { text: "bold".to_string() }],
                                }
                            );
                        },
                        other => panic!("expected a bold element, got {:?}", other),
                    }
                },
                other => panic!("expected the rendered children fragment, got {:?}", other),
            }
        },
        other => panic!("expected the wrapping container, got {:?}", other),
    }
}

#[test]
fn callback_runs_exactly_once_per_occurrence() {
    let calls = Cell::new(0usize);
    let cb = |props: MdComponentProps| -> Result<ViewNode, ComponentCreationError> {
        calls.set(calls.get() + 1);
        Ok(props.children)
    };
    let mut components = CustomComponents::new();
    components.register("tick", cb);
    let one = MdNode::Custom { name: "tick".to_string(), attributes: vec![], children: vec![] };
    let two = MdNode::Element {
        kind: HtmlElement::Div,
        attributes: no_attrs(),
        children: vec![
            MdNode::Custom { name: "tick".to_string(), attributes: vec![], children: vec![] },
            MdNode::Custom { name: "tick".to_string(), attributes: vec![], children: vec![] },
        ],
    };
    render_node(&components, &one);
    assert_eq!(calls.get(), 1);
    calls.set(0);
    render_node(&components, &two);
    assert_eq!(calls.get(), 2);
}

#[test]
fn callback_receives_attributes_exactly_as_written() {
    let cb = |props: MdComponentProps| -> Result<ViewNode, ComponentCreationError> {
        assert_eq!(
            props.attributes,
            vec![
                ("a".to_string(), "1".to_string()),
                ("b".to_string(), "two words".to_string()),
                ("a".to_string(), "3".to_string()),
            ]
        );
        Ok(ViewNode::Br)
    };
    let mut components = CustomComponents::new();
    components.register("probe", cb);
    let node = MdNode::Custom {
        name: "probe".to_string(),
        attributes: vec![
            ("a".to_string(), "1".to_string()),
            ("b".to_string(), "two words".to_string()),
            ("a".to_string(), "3".to_string()),
        ],
        children: vec![],
    };
    assert_eq!(render_node(&components, &node), ViewNode::Br);
}

#[test]
fn rerendering_identical_input_gives_identical_tree() {
    let components = counter_registry();
    let node = MdNode::Element {
        kind: HtmlElement::Paragraph,
        attributes: ElementAttributes {
            classes: vec!["md".to_string(), "p".to_string()],
            style: Some("margin: 0".to_string()),
            on_click: Some(ClickHandler {
                position: SourceRange::new(0, 4),
                stop_propagation: true,
            }),
        },
        children: vec![
            MdNode::Text { text: "hi".to_string() },
            counter(vec![("initial", "2")]),
        ],
    };
    let first = render_node(&components, &node);
    let second = render_node(&components, &node);
    assert_eq!(first, second);
}

#[test]
fn dispatching_directly_returns_the_callback_result() {
    let components = counter_registry();
    let input = MdComponentProps {
        attributes: vec![("initial".to_string(), "41".to_string())],
        children: ViewNode::Br,
    };
    let out = render_custom_component(&components, "Counter", input);
    assert_eq!(out, Ok(ViewNode::Text { text: "counter:41".to_string() }));
}

#[test]
fn translation_table_maps_constructs_to_tags() {
    let cases = vec![
        (HtmlElement::Div, "div"),
        (HtmlElement::Span, "span"),
        (HtmlElement::Paragraph, "p"),
        (HtmlElement::BlockQuote, "blockquote"),
        (HtmlElement::Ul, "ul"),
        (HtmlElement::Ol(3), "ol"),
        (HtmlElement::Li, "li"),
        (HtmlElement::Heading(1), "h1"),
        (HtmlElement::Heading(4), "h4"),
        (HtmlElement::Heading(6), "h6"),
        (HtmlElement::Table, "table"),
        (HtmlElement::Thead, "thead"),
        (HtmlElement::Trow, "tr"),
        (HtmlElement::Tcell, "td"),
        (HtmlElement::Italics, "i"),
        (HtmlElement::Bold, "b"),
        (HtmlElement::StrikeThrough, "s"),
        (HtmlElement::Pre, "p"),
        (HtmlElement::Code, "code"),
    ];
    for (kind, expected) in cases {
        let view = el_with_attributes(&kind, ViewNode::Br, no_attrs());
        match view {
            ViewNode::Element { tag, .. } => assert_eq!(tag, expected),
            other => panic!("expected an element, got {:?}", other),
        }
    }
}

#[test]
fn ordered_list_start_index_is_kept() {
    let view = el_with_attributes(&HtmlElement::Ol(7), ViewNode::Br, no_attrs());
    match view {
        ViewNode::Element { tag, start, .. } => {
            assert_eq!(tag, "ol");
            assert_eq!(start, Some(7));
        },
        other => panic!("expected an element, got {:?}", other),
    }
}

#[test]
fn classes_join_with_single_spaces() {
    assert_eq!(join_classes(&vec![]), "");
    assert_eq!(join_classes(&vec!["a".to_string()]), "a");
    assert_eq!(join_classes(&vec!["a".to_string(), "b".to_string()]), "a b");
    assert_eq!(
        join_classes(&vec!["x".to_string(), "y".to_string(), "z".to_string()]),
        "x y z"
    );
}

#[test]
fn element_applies_class_style_and_click_wrapper() {
    let attrs = ElementAttributes {
        classes: vec!["one".to_string(), "two".to_string()],
        style: Some("color: red".to_string()),
        on_click: Some(ClickHandler { position: SourceRange::new(2, 9), stop_propagation: false }),
    };
    let view = el_with_attributes(&HtmlElement::Span, ViewNode::Br, attrs);
    match view {
        ViewNode::Element { tag, class, style, on_click, .. } => {
            assert_eq!(tag, "span");
            assert_eq!(class, "one two");
            assert_eq!(style, "color: red");
            let h = on_click.expect("wrapper kept");
            assert_eq!(h.position.start, 2);
            assert_eq!(h.position.end, 9);
            assert!(!h.stop_propagation);
        },
        other => panic!("expected an element, got {:?}", other),
    }
}

#[test]
fn standard_constructs_render_without_callbacks() {
    let components: CustomComponents<Callback> = CustomComponents::new();
    let node = MdNode::Element {
        kind: HtmlElement::Heading(2),
        attributes: no_attrs(),
        children: vec![
            MdNode::Text { text: "title".to_string() },
            MdNode::HardBreak,
            MdNode::Link {
                href: "https://example.test".to_string(),
                children: vec![MdNode::Text { text: "link".to_string() }],
            },
            MdNode::Image { src: "cat.png".to_string(), alt: "a cat".to_string() },
            MdNode::InlineHtml { html: "<em>raw</em>".to_string(), attributes: no_attrs() },
            MdNode::Rule { attributes: no_attrs() },
            MdNode::TaskListMarker { checked: true, attributes: no_attrs() },
        ],
    };
    let view = render_node(&components, &node);
    match view {
        ViewNode::Element { tag, inside, .. } => {
            assert_eq!(tag, "h2");
            match *inside {
                ViewNode::Fragment { children } => {
                    assert_eq!(children.len(), 7);
                    assert_eq!(children[0], ViewNode::Text { text: "title".to_string() });
                    assert_eq!(children[1], ViewNode::Br);
                    match &children[2] {
                        ViewNode::Anchor { href, .. } => {
                            assert_eq!(href, "https://example.test")
                        },
                        other => panic!("expected a link, got {:?}", other),
                    }
                    assert_eq!(
                        children[3],
                        ViewNode::Image { src: "cat.png".to_string(), alt: "a cat".to_string() }
                    );
                    match &children[4] {
                        ViewNode::InnerHtmlSpan { html, .. } => assert_eq!(html, "<em>raw</em>"),
                        other => panic!("expected a raw span, got {:?}", other),
                    }
                    assert!(matches!(&children[5], ViewNode::Hr { .. }));
                    match &children[6] {
                        ViewNode::Checkbox { checked, .. } => assert!(*checked),
                        other => panic!("expected a checkbox, got {:?}", other),
                    }
                },
                other => panic!("expected the children fragment, got {:?}", other),
            }
        },
        other => panic!("expected a heading element, got {:?}", other),
    }
}

#[test]
fn custom_link_renderer_receives_the_description() {
    let out = render_links(
        Some(&(link_renderer as fn(LinkDescription) -> ViewNode)),
        LinkDescription {
            url: "https://example.test".to_string(),
            title: None,
            content: ViewNode::Text { text: "here".to_string() },
            image: false,
        },
    );
    match out {
        Ok(ViewNode::Element { class, inside, .. }) => {
            assert_eq!(class, "custom-link");
            assert_eq!(*inside, ViewNode::Text { text: "https://example.test".to_string() });
        },
        other => panic!("expected the renderer's element, got {:?}", other),
    }
}

fn link_renderer(link: LinkDescription) -> ViewNode {
    ViewNode::Element {
        tag: "span".to_string(),
        class: "custom-link".to_string(),
        style: String::new(),
        start: None,
        on_click: None,
        inside: Box::new(ViewNode::Text { text: link.url }),
    }
}
