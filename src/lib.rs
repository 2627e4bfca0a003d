use vstd::prelude::*;

pub mod context;
pub mod renderer;

use crate::context::{ComCtxBuilder, DEFAULT_HEIGHT, DEFAULT_WIDTH, default_title};

verus! {

/// Start configuring a context: a builder with the default settings.
pub fn init() -> (r: ComCtxBuilder)
    ensures
        r.title@ == default_title(),
        r.width == DEFAULT_WIDTH,
        r.height == DEFAULT_HEIGHT,
{
    ComCtxBuilder::default()
}

} // verus!
