//! How a figure draws its data.

use vstd::prelude::*;
use crate::text::same_text;

verus! {

/// The two ways of drawing a sequence of points.
#[derive(Clone, Copy, Debug, PartialEq, Eq, Structural)]
pub enum PlotStyle {
    /// Neighbouring points are joined by a line.
    Lines,
    /// Each point is drawn as a mark of its own.
    Points,
}

/// The style that a tag names, if it names one.
pub open spec fn style_named(tag: Seq<char>) -> Option<PlotStyle> {
    if tag == "lines"@ {
        Some(PlotStyle::Lines)
    } else if tag == "points"@ {
        Some(PlotStyle::Points)
    } else {
        None
    }
}

/// Picks the style that `style` names: `"lines"` or `"points"`. Any other
/// tag names none, and nothing is to be drawn for it.
pub fn select_style(style: &str) -> (selected: Option<PlotStyle>)
    ensures
        selected == style_named(style@),
{
    if same_text(style, "lines") {
        Some(PlotStyle::Lines)
    } else if same_text(style, "points") {
        Some(PlotStyle::Points)
    } else {
        None
    }
}

} // verus!
