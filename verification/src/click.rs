//! Position-tracked click wrappers.
//!
//! Every clickable element of the rendered view closes over the byte range of
//! the markdown source it was built from.  When the element is clicked, the
//! wrapper synthesizes a [`MarkdownMouseEvent`] carrying that range and hands
//! it to the caller's top-level click callback, if one was registered;
//! otherwise the click is silently absorbed.  A wrapper may stop propagation,
//! so that a click on a nested element reaches only the innermost wrapper.

use vstd::prelude::*;

verus! {

/// A half-open byte range `[start, end)` into the markdown source string.
#[derive(Clone, Copy, PartialEq, Eq, Structural, Debug)]
pub struct SourceRange {
    pub start: usize,
    pub end: usize,
}

impl SourceRange {
    /// A well-formed range has its start at or before its end.
    pub open spec fn wf(self) -> bool {
        self.start <= self.end
    }

    /// The range is a valid sub-range of a source string of byte length `len`.
    pub open spec fn is_within(self, len: nat) -> bool {
        self.start <= self.end && self.end <= len
    }

    /// A degenerate range selects no bytes at all.
    pub open spec fn spec_is_empty(self) -> bool {
        self.start == self.end
    }

    pub fn new(start: usize, end: usize) -> (r: SourceRange)
        requires
            start <= end,
        ensures
            r == (SourceRange { start, end }),
    {
        SourceRange { start, end }
    }

    pub fn is_empty(&self) -> (r: bool)
        ensures
            r == self.spec_is_empty(),
    {
        self.start == self.end
    }
}

/// What a click wrapper captured at tree-construction time: the byte range of
/// the element it wraps, and whether a click on it is propagated further to
/// the wrappers of the enclosing elements.
#[derive(Clone, Copy, PartialEq, Eq, Structural, Debug)]
pub struct ClickHandler {
    pub position: SourceRange,
    pub stop_propagation: bool,
}

/// The event handed to the caller's click callback: the platform mouse event
/// and the byte range of the clicked element in the markdown source.
#[derive(PartialEq, Eq, Structural, Debug)]
pub struct MarkdownMouseEvent<M> {
    /// The original mouse event of the host platform, passed through untouched.
    pub mouse_event: M,
    /// The corresponding byte range in the markdown source.
    pub position: SourceRange,
}

/// Builds the click wrapper for one element: the byte range is captured here,
/// at tree-construction time, not re-derived when the click arrives.
pub fn make_md_handler(position: SourceRange, stop_propagation: bool) -> (h: ClickHandler)
    requires
        position.wf(),
    ensures
        h == (ClickHandler { position, stop_propagation }),
{
    ClickHandler { position, stop_propagation }
}

/// The event one wrapper reports for a click: the synthesized event if a
/// top-level click callback was registered, and nothing at all otherwise.
pub open spec fn spec_synthesized_event<M>(
    h: ClickHandler,
    mouse_event: M,
    has_on_click: bool,
) -> Option<MarkdownMouseEvent<M>> {
    if has_on_click {
        Some(MarkdownMouseEvent { mouse_event, position: h.position })
    } else {
        None
    }
}

/// Runs one click wrapper: returns the event to hand to the caller's click
/// callback (if any) and whether propagation to the enclosing wrappers stops.
pub fn invoke_handler<M>(h: &ClickHandler, mouse_event: M, has_on_click: bool) -> (r: (
    Option<MarkdownMouseEvent<M>>,
    bool,
))
    ensures
        r.0 == spec_synthesized_event(*h, mouse_event, has_on_click),
        r.1 == h.stop_propagation,
{
    if has_on_click {
        (Some(MarkdownMouseEvent { mouse_event, position: h.position }), h.stop_propagation)
    } else {
        (None, h.stop_propagation)
    }
}

/// The events delivered for one click that hits a stack of wrapped elements,
/// listed from the innermost element outward: each wrapper reports in turn,
/// and a wrapper that stops propagation is the last one reached.
pub open spec fn spec_dispatch<M>(
    chain: Seq<ClickHandler>,
    mouse_event: M,
    has_on_click: bool,
) -> Seq<MarkdownMouseEvent<M>>
    decreases chain.len(),
{
    if chain.len() == 0 {
        Seq::empty()
    } else {
        let head = match spec_synthesized_event(chain[0], mouse_event, has_on_click) {
            Some(e) => seq![e],
            None => Seq::empty(),
        };
        if chain[0].stop_propagation {
            head
        } else {
            head + spec_dispatch(chain.drop_first(), mouse_event, has_on_click)
        }
    }
}

/// Delivers one click to a stack of wrapped elements, innermost first, and
/// collects the events that reach the caller's click callback in order.
pub fn dispatch_click<M: Copy>(chain: &Vec<ClickHandler>, mouse_event: M, has_on_click: bool) -> (r:
    Vec<MarkdownMouseEvent<M>>)
    ensures
        r@ == spec_dispatch(chain@, mouse_event, has_on_click),
    decreases chain@.len(),
{
    let mut events: Vec<MarkdownMouseEvent<M>> = Vec::new();
    let mut i: usize = 0;
    proof {
        assert(chain@.skip(0) =~= chain@);
        assert(events@ + spec_dispatch(chain@, mouse_event, has_on_click) =~= spec_dispatch(
            chain@,
            mouse_event,
            has_on_click,
        ));
    }
    loop
        invariant
            i <= chain@.len(),
            forall|j: int| 0 <= j < i ==> !(#[trigger] chain@[j]).stop_propagation,
            spec_dispatch(chain@, mouse_event, has_on_click) == events@ + spec_dispatch(
                chain@.skip(i as int),
                mouse_event,
                has_on_click,
            ),
        decreases chain@.len() - i,
    {
        if i >= chain.len() {
            proof {
                assert(chain@.skip(i as int) =~= Seq::<ClickHandler>::empty());
                assert(events@ + Seq::<MarkdownMouseEvent<M>>::empty() =~= events@);
            }
            return events;
        }
        let h = chain[i];
        let (event, stop) = invoke_handler(&h, mouse_event, has_on_click);
        proof {
            assert(chain@.skip(i as int)[0] == chain@[i as int]);
            assert(chain@.skip(i as int).drop_first() =~= chain@.skip(i as int + 1));
        }
        let ghost pre = events@;
        match event {
            Some(e) => {
                events.push(e);
                proof {
                    assert(events@ =~= pre + seq![e]);
                }
            },
            None => {
                proof {
                    assert(pre + Seq::<MarkdownMouseEvent<M>>::empty() =~= pre);
                }
            },
        }
        if stop {
            proof {
                assert(spec_dispatch(chain@, mouse_event, has_on_click) =~= events@);
            }
            return events;
        }
        proof {
            assert((pre + spec_dispatch(chain@.skip(i as int), mouse_event, has_on_click))
                =~= events@ + spec_dispatch(chain@.skip(i as int + 1), mouse_event, has_on_click));
        }
        i = i + 1;
    }
}

/// Law: a click on nested elements never produces two events when the
/// innermost element's wrapper stops propagation — with a top-level click
/// callback registered exactly one event fires, and it carries the innermost
/// element's byte range.
pub proof fn lemma_innermost_stop_single_event<M>(
    chain: Seq<ClickHandler>,
    mouse_event: M,
    has_on_click: bool,
)
    requires
        chain.len() > 0,
        chain[0].stop_propagation,
    ensures
        has_on_click ==> spec_dispatch(chain, mouse_event, has_on_click) == seq![
            MarkdownMouseEvent { mouse_event, position: chain[0].position },
        ],
        !has_on_click ==> spec_dispatch(chain, mouse_event, has_on_click).len() == 0,
{
}

/// Law: with no top-level click callback registered, a click is accepted but
/// silently absorbed — no wrapper in the stack produces an event.
pub proof fn lemma_no_callback_silent_absorption<M>(chain: Seq<ClickHandler>, mouse_event: M)
    ensures
        spec_dispatch(chain, mouse_event, false).len() == 0,
    decreases chain.len(),
{
    if chain.len() > 0 && !chain[0].stop_propagation {
        lemma_no_callback_silent_absorption(chain.drop_first(), mouse_event);
        assert(Seq::<MarkdownMouseEvent<M>>::empty() + spec_dispatch(
            chain.drop_first(),
            mouse_event,
            false,
        ) =~= spec_dispatch(chain.drop_first(), mouse_event, false));
    }
}

/// Law: every event delivered for a click carries the byte range of one of
/// the wrappers it hit; if every wrapper in the stack holds a valid sub-range
/// of a source string of length `src_len`, so does every reported event.
pub proof fn lemma_dispatch_ranges_within_source<M>(
    chain: Seq<ClickHandler>,
    mouse_event: M,
    has_on_click: bool,
    src_len: nat,
)
    requires
        forall|j: int|
            0 <= j < chain.len() ==> (#[trigger] chain[j]).position.is_within(src_len),
    ensures
        forall|k: int|
            0 <= k < spec_dispatch(chain, mouse_event, has_on_click).len() ==> (
            #[trigger] spec_dispatch(chain, mouse_event, has_on_click)[k]).position.is_within(
                src_len,
            ),
    decreases chain.len(),
{
    if chain.len() > 0 && !chain[0].stop_propagation {
        lemma_dispatch_ranges_within_source(chain.drop_first(), mouse_event, has_on_click, src_len);
        let head = match spec_synthesized_event(chain[0], mouse_event, has_on_click) {
            Some(e) => seq![e],
            None => Seq::empty(),
        };
        let rest = spec_dispatch(chain.drop_first(), mouse_event, has_on_click);
        assert forall|k: int|
            0 <= k < spec_dispatch(chain, mouse_event, has_on_click).len() implies (
        #[trigger] spec_dispatch(chain, mouse_event, has_on_click)[k]).position.is_within(
            src_len,
        ) by {
            if k < head.len() {
                assert(spec_dispatch(chain, mouse_event, has_on_click)[k] == head[k]);
            } else {
                assert(spec_dispatch(chain, mouse_event, has_on_click)[k] == rest[k - head.len()]);
            }
        }
    }
}


/// Law: a click that hits only wrappers whose ranges are in order for a
/// source of byte length `src_len` — valid sub-ranges selecting at least
/// one byte — reports only such ranges, whatever the propagation flags and
/// whether a click callback is registered.
pub proof fn lemma_dispatch_ranges_nonempty<M>(
    chain: Seq<ClickHandler>,
    mouse_event: M,
    has_on_click: bool,
    src_len: nat,
)
    requires
        forall|j: int|
            0 <= j < chain.len() ==> (#[trigger] chain[j]).position.is_within(src_len) && !chain[
                j
            ].position.spec_is_empty(),
    ensures
        forall|k: int|
            0 <= k < spec_dispatch(chain, mouse_event, has_on_click).len() ==> (
            #[trigger] spec_dispatch(chain, mouse_event, has_on_click)[k]).position.is_within(
                src_len,
            ) && !spec_dispatch(chain, mouse_event, has_on_click)[k].position.spec_is_empty(),
    decreases chain.len(),
{
    if chain.len() > 0 && !chain[0].stop_propagation {
        lemma_dispatch_ranges_nonempty(chain.drop_first(), mouse_event, has_on_click, src_len);
        let head = match spec_synthesized_event(chain[0], mouse_event, has_on_click) {
            Some(e) => seq![e],
            None => Seq::empty(),
        };
        let rest = spec_dispatch(chain.drop_first(), mouse_event, has_on_click);
        assert forall|k: int|
            0 <= k < spec_dispatch(chain, mouse_event, has_on_click).len() implies (
        #[trigger] spec_dispatch(chain, mouse_event, has_on_click)[k]).position.is_within(src_len)
            && !spec_dispatch(chain, mouse_event, has_on_click)[k].position.spec_is_empty() by {
            if k < head.len() {
                assert(spec_dispatch(chain, mouse_event, has_on_click)[k] == head[k]);
            } else {
                assert(spec_dispatch(chain, mouse_event, has_on_click)[k] == rest[k - head.len()]);
            }
        }
    }
}

} // verus!
