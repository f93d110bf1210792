//! The view fragments that modules render. Rendering is a pure function of
//! module state and effective configuration; the widget layer consumes these
//! fragments unchanged.
use vstd::prelude::*;
use crate::color::Rgba;

verus! {

/// One icon-and-text fragment of bar content, with its effective visual
/// settings already resolved.
pub struct Fragment {
    pub icon: String,
    pub text: String,
    pub icon_color: Rgba,
    pub text_color: Rgba,
    pub icon_size: u32,
    pub font_size: u32,
    pub spacing: u32,
}

/// One workspace label of a workspace indicator, with its highlight state.
pub struct WorkspaceSpan {
    pub label: String,
    pub size: u32,
    pub color: Rgba,
    pub highlighted: bool,
    pub highlight_color: Rgba,
    pub highlight_background: Rgba,
}

} // verus!
