use vstd::prelude::*;
use vstd::string::StringExecFns;

verus! {

/// The default window title.
pub open spec fn default_title() -> Seq<char> {
    seq!['H', 'e', 'l', 'l', 'o', ',', ' ', 'C', 'o', 'm', '!']
}

/// The default window width.
pub const DEFAULT_WIDTH: u32 = 1280;

/// The default window height.
pub const DEFAULT_HEIGHT: u32 = 720;

/// The settings that a context is built from
#[derive(Debug, Clone)]
pub struct ComCtxBuilder {
    pub title: String,
    pub width: u32,
    pub height: u32,
}

impl ComCtxBuilder {
    /// Set the title
    pub fn title(self, title: String) -> (r: Self)
        ensures
            r.title@ == title@,
            r.width == self.width,
            r.height == self.height,
    {
        ComCtxBuilder { title, ..self }
    }

    /// Set the size
    pub fn size(self, width: u32, height: u32) -> (r: Self)
        ensures
            r.title@ == self.title@,
            r.width == width,
            r.height == height,
    {
        ComCtxBuilder { width, height, ..self }
    }
}

impl Default for ComCtxBuilder {
    fn default() -> (r: Self)
        ensures
            r.title@ == default_title(),
            r.width == DEFAULT_WIDTH,
            r.height == DEFAULT_HEIGHT,
    {
        proof {
            reveal_strlit("Hello, Com!");
        }
        let title = String::from_str("Hello, Com!");
        assert(title@ =~= default_title());
        ComCtxBuilder { title, width: DEFAULT_WIDTH, height: DEFAULT_HEIGHT }
    }
}

} // verus!
