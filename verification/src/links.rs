//! Custom link rendering.
//!
//! When the caller configures a link renderer of their own, the renderer
//! core hands every link or image to it instead of building the plain
//! anchor; the callback receives a description of the construct with its
//! content already rendered.  Invoking this boundary with no renderer
//! configured is a contract breach of the renderer core, which asks the
//! configuration first.

use vstd::prelude::*;
use crate::view::ViewNode;

verus! {

/// A link or image, described for the caller's own renderer: constructed
/// per event and consumed immediately, with no persistent identity.
pub struct LinkDescription {
    /// The link destination.
    pub url: String,
    /// The title attribute, when the source gave one.
    pub title: Option<String>,
    /// The content of the link, already rendered.
    pub content: ViewNode,
    /// Whether the construct was an image rather than a link.
    pub image: bool,
}

/// Dispatches one link to the caller's renderer.  The renderer core calls
/// this only after the configuration answered that a renderer exists;
/// dispatching without one is a contract breach, excluded here.
pub fn render_links<L: Fn(LinkDescription) -> ViewNode>(
    renderer: Option<&L>,
    link: LinkDescription,
) -> (r: Result<ViewNode, String>)
    requires
        renderer is Some,
        call_requires(*renderer->0, (link,)),
    ensures
        r matches Ok(v) && call_ensures(*renderer->0, (link,), v),
{
    match renderer {
        Some(l) => Ok((l)(link)),
        None => vstd::pervasive::unreached(),
    }
}

} // verus!
