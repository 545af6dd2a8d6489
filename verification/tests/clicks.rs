use dioxus_markdown::click::{
    dispatch_click, invoke_handler, make_md_handler, ClickHandler, SourceRange,
};

fn range(start: usize, end: usize) -> SourceRange {
    SourceRange::new(start, end)
}

#[test]
fn handler_captures_position_and_flag() {
    let h = make_md_handler(range(10, 15), true);
    assert_eq!(h.position.start, 10);
    assert_eq!(h.position.end, 15);
    assert!(h.stop_propagation);
}

#[test]
fn click_fires_one_event_with_exact_range() {
    // Scenario: clicking rendered text originating from source offset
    // [10, 15) fires one event whose range slices the exact substring.
    let source = "0123456789hello, world";
    let h = make_md_handler(range(10, 15), true);
    let events = dispatch_click(&vec![h], 7u32, true);
    assert_eq!(events.len(), 1);
    assert_eq!(events[0].position.start, 10);
    assert_eq!(events[0].position.end, 15);
    assert_eq!(events[0].mouse_event, 7u32);
    assert_eq!(&source[events[0].position.start..events[0].position.end], "hello");
}

#[test]
fn innermost_stop_propagation_yields_single_event() {
    // A nested stack of wrapped elements, innermost first: the innermost
    // wrapper stops propagation, so exactly one event fires.
    let inner = make_md_handler(range(4, 8), true);
    let middle = make_md_handler(range(2, 10), false);
    let outer = make_md_handler(range(0, 12), false);
    let events = dispatch_click(&vec![inner, middle, outer], 0u32, true);
    assert_eq!(events.len(), 1);
    assert_eq!(events[0].position, inner.position);
}

#[test]
fn without_stop_propagation_ancestors_also_fire() {
    let inner = make_md_handler(range(4, 8), false);
    let outer = make_md_handler(range(0, 12), false);
    let events = dispatch_click(&vec![inner, outer], 0u32, true);
    assert_eq!(events.len(), 2);
    assert_eq!(events[0].position, inner.position);
    assert_eq!(events[1].position, outer.position);
}

#[test]
fn no_click_callback_absorbs_clicks_silently() {
    // Scenario: no click handler registered at the top level: clicks are
    // accepted but produce no callback invocation at all.
    let inner = make_md_handler(range(4, 8), true);
    let outer = make_md_handler(range(0, 12), false);
    let events = dispatch_click(&vec![inner, outer], 0u32, false);
    assert_eq!(events.len(), 0);
    let (event, stop) = invoke_handler(&inner, 0u32, false);
    assert!(event.is_none());
    assert!(stop);
}

#[test]
fn reported_ranges_are_valid_subranges() {
    let source = "abcdefgh";
    let handlers = vec![
        make_md_handler(range(1, 3), false),
        make_md_handler(range(0, 8), false),
    ];
    let events = dispatch_click(&handlers, 0u32, true);
    assert_eq!(events.len(), 2);
    for e in &events {
        assert!(e.position.start <= e.position.end);
        assert!(e.position.end <= source.len());
        assert!(e.position.start < e.position.end);
    }
}

#[test]
fn empty_chain_produces_no_events() {
    let handlers: Vec<ClickHandler> = vec![];
    let events = dispatch_click(&handlers, 0u32, true);
    assert_eq!(events.len(), 0);
}
