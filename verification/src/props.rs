//! Caller-facing configuration and the debug channel.
//!
//! [`MdProps`] is what the host application configures a markdown view
//! with; [`MarkdownProps`] is the subset the renderer core reads on every
//! render pass.  [`EventInfo`] is the debug channel's shared slot: an
//! ordered log of trace strings, overwritten — only when its content
//! actually changed — once per render.

use vstd::prelude::*;
use crate::registry::CustomComponents;
use crate::text::str_eq;

verus! {

/// The configuration of one markdown view, as the host application hands
/// it over.  The click and link callbacks themselves live with the host
/// framework; what the adapter's decisions depend on is whether they were
/// registered at all.
pub struct MdProps<C> {
    /// The markdown source text to render.
    pub src: String,
    /// Whether the caller registered a top-level click callback.  Without
    /// one, clicks are accepted and silently absorbed.
    pub on_click: bool,
    /// Whether the caller registered a custom link renderer.
    pub render_links: bool,
    /// The name of the syntax-highlighting theme, when one is wanted.
    pub theme: Option<String>,
    /// Whether wikilink syntax is enabled.  Off by default.
    pub wikilinks: bool,
    /// Whether soft breaks render as hard breaks.  Off by default.
    pub hard_line_breaks: bool,
    /// Raw parser option flags, passed through to the parser untouched.
    pub parse_options: Option<u64>,
    /// The custom component registry.  Empty by default.
    pub components: CustomComponents<C>,
    /// Whether a frontmatter output slot is connected.
    pub frontmatter: bool,
}

/// What the renderer core asks of the configuration on each render pass.
#[derive(PartialEq, Debug)]
pub struct MarkdownProps {
    pub hard_line_breaks: bool,
    pub wikilinks: bool,
    pub parse_options: Option<u64>,
    pub theme: Option<String>,
}

impl<C> MdProps<C> {
    /// The renderer core's read of the configuration: the four fields it
    /// consumes, handed over unchanged.
    pub fn props(&self) -> (r: MarkdownProps)
        ensures
            r.hard_line_breaks == self.hard_line_breaks,
            r.wikilinks == self.wikilinks,
            r.parse_options == self.parse_options,
            r.theme == self.theme,
    {
        let theme = match &self.theme {
            Some(t) => Some(t.clone()),
            None => None,
        };
        MarkdownProps {
            hard_line_breaks: self.hard_line_breaks,
            wikilinks: self.wikilinks,
            parse_options: self.parse_options,
            theme,
        }
    }

    /// Whether a custom link renderer is configured; the renderer core asks
    /// before dispatching a link to it.
    pub fn has_custom_links(&self) -> (r: bool)
        ensures
            r == self.render_links,
    {
        self.render_links
    }
}

/// The characters of a debug log, line by line.
pub open spec fn spec_log_view(v: Seq<String>) -> Seq<Seq<char>> {
    v.map_values(|s: String| s@)
}

/// Whether two debug logs read the same, line by line.
fn log_eq(a: &Vec<String>, b: &Vec<String>) -> (r: bool)
    ensures
        r == (spec_log_view(a@) == spec_log_view(b@)),
{
    if a.len() != b.len() {
        proof {
            assert(spec_log_view(a@).len() != spec_log_view(b@).len());
        }
        return false;
    }
    let mut i: usize = 0;
    while i < a.len()
        invariant
            i <= a.len(),
            a@.len() == b@.len(),
            forall|j: int| 0 <= j < i ==> a@[j]@ == b@[j]@,
        decreases a.len() - i,
    {
        if !str_eq(a[i].as_str(), b[i].as_str()) {
            proof {
                assert(spec_log_view(a@)[i as int] != spec_log_view(b@)[i as int]);
            }
            return false;
        }
        i = i + 1;
    }
    proof {
        assert(spec_log_view(a@) =~= spec_log_view(b@));
    }
    true
}

/// The debug channel's shared slot: an ordered log of trace strings
/// describing the last render pass.
#[derive(Debug)]
pub struct EventInfo(pub Vec<String>);

impl EventInfo {
    /// Replaces the last render's trace with this render's — but only when
    /// the content actually changed, so an unchanged trace triggers no
    /// redundant re-render downstream.  Reports whether the slot was
    /// written.
    pub fn update(&mut self, info: Vec<String>) -> (changed: bool)
        ensures
            changed == (spec_log_view(old(self).0@) != spec_log_view(info@)),
            changed ==> final(self).0 == info,
            !changed ==> *final(self) == *old(self),
    {
        if log_eq(&self.0, &info) {
            false
        } else {
            self.0 = info;
            true
        }
    }
}

} // verus!
