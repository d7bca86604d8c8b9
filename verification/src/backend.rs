//! You only need to look here if you are writing a backend for `epi`.

use vstd::prelude::*;

use crate::{Frame, IntegrationInfo, RepaintSignal, TextureAllocator};

verus! {

/// The data required by [`Frame`] each frame.
pub struct FrameBuilder<'a> {
    /// Information about the integration.
    pub info: IntegrationInfo,
    /// A way to allocate textures (on integrations that support it).
    pub tex_allocator: &'a mut dyn TextureAllocator,
    /// Where the app can issue commands back to the integration.
    pub output: &'a mut AppOutput,
    /// If you need to request a repaint from another thread, clone this and send it to that other thread.
    pub repaint_signal: std::sync::Arc<dyn RepaintSignal>,
}

impl<'a> FrameBuilder<'a> {
    /// Wrap us in a [`Frame`] to send to [`App::update`].
    pub fn build(self) -> (f: Frame<'a>)
        ensures
            f.builder() == self,
            f.info_view() == self.info,
            f.info_view().web_info is Some <==> self.info.web_info is Some,
    {
        Frame(self)
    }
}

/// Action that can be taken by the user app.
#[derive(Clone, Copy, Debug, PartialEq)]
pub struct AppOutput {
    /// Set to `true` to stop the app.
    /// This does nothing for web apps.
    pub quit: bool,

    /// Set to some size to resize the outer window (e.g. glium window) to this size.
    pub window_size: Option<egui::Vec2>,
}

impl Default for AppOutput {
    fn default() -> (r: AppOutput)
        ensures
            r == (AppOutput { quit: false, window_size: None }),
    {
        AppOutput { quit: false, window_size: None }
    }
}

} // verus!
