use dioxus_markdown::component::{ComponentCreationError, MdComponentProps};
use dioxus_markdown::props::{EventInfo, MdProps};
use dioxus_markdown::registry::CustomComponents;
use dioxus_markdown::view::ViewNode;

type Callback = fn(MdComponentProps) -> Result<ViewNode, ComponentCreationError>;

fn text_cb(_props: MdComponentProps) -> Result<ViewNode, ComponentCreationError> {
    Ok(ViewNode::Text { text: "first".to_string() })
}

fn other_cb(_props: MdComponentProps) -> Result<ViewNode, ComponentCreationError> {
    Ok(ViewNode::Text { text: "second".to_string() })
}

#[test]
fn empty_registry_resolves_nothing() {
    let components: CustomComponents<Callback> = CustomComponents::new();
    assert!(!components.has("Counter"));
    assert!(components.resolve("Counter").is_none());
}

#[test]
fn register_then_resolve() {
    let mut components: CustomComponents<Callback> = CustomComponents::new();
    components.register("Counter", text_cb);
    assert!(components.has("Counter"));
    assert!(!components.has("counter"), "tag names are case-sensitive");
    assert!(components.resolve("Counter").is_some());
}

#[test]
fn registering_again_replaces_the_callback() {
    let mut components: CustomComponents<Callback> = CustomComponents::new();
    components.register("box", text_cb);
    components.register("box", other_cb);
    let cb = components.resolve("box").expect("registered");
    let props = MdComponentProps { attributes: vec![], children: ViewNode::Br };
    assert_eq!(cb(props), Ok(ViewNode::Text { text: "second".to_string() }));
}

#[test]
fn default_registry_is_empty() {
    let components: CustomComponents<Callback> = Default::default();
    assert!(!components.has("anything"));
}

fn props_with(attrs: Vec<(&str, &str)>) -> MdComponentProps {
    MdComponentProps {
        attributes: attrs
            .into_iter()
            .map(|(k, v)| (k.to_string(), v.to_string()))
            .collect(),
        children: ViewNode::Br,
    }
}

#[test]
fn raw_attribute_access() {
    let props = props_with(vec![("initial", "5"), ("color", "red")]);
    assert_eq!(props.get_attribute("initial"), Some("5".to_string()));
    assert_eq!(props.get_attribute("color"), Some("red".to_string()));
    assert_eq!(props.get_attribute("missing"), None);
}

#[test]
fn duplicate_attribute_reads_as_last_written() {
    let props = props_with(vec![("x", "1"), ("x", "2")]);
    assert_eq!(props.get_attribute("x"), Some("2".to_string()));
}

#[test]
fn typed_attribute_access() {
    let props = props_with(vec![("initial", "5"), ("bad", "a")]);
    assert_eq!(props.get_parsed_i64("initial"), Ok(5));
    assert_eq!(
        props.get_parsed_i64("bad"),
        Err(ComponentCreationError::AttributeParseError {
            name: "bad".to_string(),
            value: "a".to_string(),
        })
    );
    assert_eq!(
        props.get_parsed_i64("missing"),
        Err(ComponentCreationError::MissingAttribute { name: "missing".to_string() })
    );
}

#[test]
fn optional_typed_attribute_access() {
    let props = props_with(vec![("initial", "5"), ("bad", "a")]);
    assert_eq!(props.get_parsed_optional_i64("initial"), Ok(Some(5)));
    assert_eq!(props.get_parsed_optional_i64("missing"), Ok(None));
    assert!(props.get_parsed_optional_i64("bad").is_err());
}

#[test]
fn error_messages_name_the_attribute() {
    let e = ComponentCreationError::AttributeParseError {
        name: "initial".to_string(),
        value: "a".to_string(),
    };
    assert_eq!(e.message(), "invalid value `a` for attribute `initial`");
    let m = ComponentCreationError::MissingAttribute { name: "initial".to_string() };
    assert_eq!(m.message(), "missing attribute `initial`");
    let c = ComponentCreationError::Custom { message: "no luck".to_string() };
    assert_eq!(c.message(), "no luck");
}

#[test]
fn configuration_hands_parser_fields_through() {
    let props: MdProps<Callback> = MdProps {
        src: "# title".to_string(),
        on_click: false,
        render_links: true,
        theme: Some("zenburn".to_string()),
        wikilinks: true,
        hard_line_breaks: false,
        parse_options: Some(3),
        components: CustomComponents::new(),
        frontmatter: false,
    };
    let p = props.props();
    assert!(!p.hard_line_breaks);
    assert!(p.wikilinks);
    assert_eq!(p.parse_options, Some(3));
    assert_eq!(p.theme, Some("zenburn".to_string()));
    assert!(props.has_custom_links());
}

#[test]
fn debug_log_is_overwritten_only_when_changed() {
    let mut log = EventInfo(vec!["a".to_string()]);
    let changed = log.update(vec!["a".to_string()]);
    assert!(!changed);
    assert_eq!(log.0, vec!["a".to_string()]);
    let changed = log.update(vec!["a".to_string(), "b".to_string()]);
    assert!(changed);
    assert_eq!(log.0, vec!["a".to_string(), "b".to_string()]);
    let changed = log.update(vec![]);
    assert!(changed);
    assert!(log.0.is_empty());
}

#[test]
fn narrow_typed_attribute_access() {
    let props = props_with(vec![
        ("small", "-2147483648"),
        ("big", "2147483648"),
        ("plain", "17"),
    ]);
    assert_eq!(props.get_parsed_i32("plain"), Ok(17));
    assert_eq!(props.get_parsed_i32("small"), Ok(i32::MIN));
    assert_eq!(
        props.get_parsed_i32("big"),
        Err(ComponentCreationError::AttributeParseError {
            name: "big".to_string(),
            value: "2147483648".to_string(),
        })
    );
    assert!(matches!(
        props.get_parsed_i32("absent"),
        Err(ComponentCreationError::MissingAttribute { .. })
    ));
}
