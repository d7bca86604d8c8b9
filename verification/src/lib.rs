//! Backend-agnostic interface for writing apps using [`egui`].
//!
//! `epi` provides interfaces for window management, serialization and http requests.
//! An app written for `epi` can then be plugged into [`eframe`](https://docs.rs/eframe),
//! the egui framework crate.

use vstd::prelude::*;

pub mod backend;
pub mod headers;
pub mod http;

pub use egui;

verus! {

#[verifier::external_type_specification]
#[verifier::external_body]
pub struct ExVec2(egui::Vec2);

#[verifier::external_type_specification]
#[verifier::external_body]
pub struct ExColor32(egui::Color32);

#[verifier::external_type_specification]
#[verifier::external_body]
pub struct ExTextureId(egui::TextureId);

/// Options controlling the behavior of a native window
#[derive(Clone)]
pub struct NativeOptions {
    /// Sets whether or not the window will always be on top of other windows.
    pub always_on_top: bool,

    /// On desktop: add window decorations (i.e. a frame around your app)?
    /// If false it will be difficult to move and resize the app.
    pub decorated: bool,

    /// On Windows: enable drag and drop support.
    /// Default is `false` to avoid issues with crates such as cpal which
    /// uses that use multi-threaded COM API <https://github.com/rust-windowing/winit/pull/1524>
    pub drag_and_drop_support: bool,

    /// The application icon, e.g. in the Windows task bar etc.
    pub icon_data: Option<IconData>,

    /// The initial size of the native window in points (logical pixels).
    pub initial_window_size: Option<egui::Vec2>,

    /// Should the app window be resizable?
    pub resizable: bool,

    /// On desktop: make the window transparent.
    /// You control the transparency with `App::clear_color()`.
    /// You should avoid having a `egui::CentralPanel`, or make sure its frame is also transparent.
    pub transparent: bool,
}

impl Default for NativeOptions {
    fn default() -> (r: NativeOptions)
        ensures
            !r.always_on_top,
            r.decorated,
            !r.drag_and_drop_support,
            r.icon_data is None,
            r.initial_window_size is None,
            r.resizable,
            !r.transparent,
    {
        NativeOptions {
            always_on_top: false,
            decorated: true,
            drag_and_drop_support: false,
            icon_data: None,
            initial_window_size: None,
            resizable: true,
            transparent: false,
        }
    }
}

/// Image data for the icon.
#[derive(Clone)]
pub struct IconData {
    /// RGBA pixels.
    pub rgba: Vec<u8>,

    /// Image width. This should be a multiple of 4.
    pub width: u32,

    /// Image height. This should be a multiple of 4.
    pub height: u32,
}

/// Represents the surroundings of your app.
///
/// It provides methods to inspect the surroundings (are we on the web?),
/// allocate textures, and change settings (e.g. window size).
pub struct Frame<'a>(backend::FrameBuilder<'a>);

impl<'a> Frame<'a> {
    /// The information about the integration that this frame carries.
    pub closed spec fn info_view(&self) -> IntegrationInfo {
        self.0.info
    }

    /// The data that this frame was built from.
    pub closed spec fn builder(&self) -> backend::FrameBuilder<'a> {
        self.0
    }

    /// The commands that the app has issued to the integration so far.
    pub closed spec fn output_view(&self) -> backend::AppOutput {
        *self.0.output
    }

    /// A frame reports the data it was built from: its integration
    /// information is the builder's, and the commands issued so far are those
    /// in the builder's output.
    pub proof fn lemma_frame_reports_builder(&self)
        ensures
            self.info_view() == self.builder().info,
            self.info_view().web_info is Some <==> self.builder().info.web_info is Some,
            self.output_view() == *self.builder().output,
    {
    }

    /// The frame built from `b` reports `b`'s integration information, and
    /// so runs on the web exactly when `b` says it does.
    pub proof fn lemma_built_frame_reports_info(b: backend::FrameBuilder<'a>, f: Frame<'a>)
        requires
            f.builder() == b,
        ensures
            f.info_view() == b.info,
            f.info_view().web_info is Some <==> b.info.web_info is Some,
    {
    }

    /// True if you are in a web environment.
    pub fn is_web(&self) -> (r: bool)
        ensures
            r == self.info_view().web_info is Some,
            r == self.builder().info.web_info is Some,
    {
        self.info().web_info.is_some()
    }

    /// Information about the integration.
    pub fn info(&self) -> (r: &IntegrationInfo)
        ensures
            *r == self.info_view(),
            *r == self.builder().info,
    {
        &self.0.info
    }

    /// A way to allocate textures.
    pub fn tex_allocator(&mut self) -> (r: &mut &'a mut dyn TextureAllocator)
        ensures
            *r == old(self).builder().tex_allocator,
            final(self).builder().tex_allocator == *final(r),
            final(self).info_view() == old(self).info_view(),
            final(self).output_view() == old(self).output_view(),
            final(self).builder().repaint_signal == old(self).builder().repaint_signal,
    {
        &mut self.0.tex_allocator
    }

    /// Signal the app to stop/exit/quit the app (only works for native apps, not web apps).
    /// The framework will NOT quick immediately, but at the end of the this frame.
    pub fn quit(&mut self)
        ensures
            final(self).builder().output.quit,
            final(self).builder().output.window_size == old(self).builder().output.window_size,
            final(self).builder().info == old(self).builder().info,
            final(self).output_view() == (backend::AppOutput {
                quit: true,
                window_size: old(self).output_view().window_size,
            }),
            final(self).info_view() == old(self).info_view(),
            final(self).builder().tex_allocator == old(self).builder().tex_allocator,
            final(self).builder().repaint_signal == old(self).builder().repaint_signal,
    {
        self.0.output.quit = true;
    }

    /// Set the desired inner size of the window (in egui points).
    pub fn set_window_size(&mut self, size: egui::Vec2)
        ensures
            final(self).builder().output.quit == old(self).builder().output.quit,
            final(self).builder().output.window_size == Some(size),
            final(self).builder().info == old(self).builder().info,
            final(self).output_view() == (backend::AppOutput {
                quit: old(self).output_view().quit,
                window_size: Some(size),
            }),
            final(self).info_view() == old(self).info_view(),
            final(self).builder().tex_allocator == old(self).builder().tex_allocator,
            final(self).builder().repaint_signal == old(self).builder().repaint_signal,
    {
        self.0.output.window_size = Some(size);
    }

    /// If you need to request a repaint from another thread, clone this and send it to that other thread.
    ///
    /// Trusted: the body calls std's `Arc::clone`, of which vstd states
    /// nothing and which Verus does not take on a trait object. Its
    /// documentation says that it gives another pointer to the same
    /// allocation; the contract claims that the result is this frame's signal.
    #[verifier::external_body]
    pub fn repaint_signal(&self) -> (r: std::sync::Arc<dyn RepaintSignal>)
        ensures
            r == self.builder().repaint_signal,
    {
        let r = self.0.repaint_signal.clone();
        return r;
    }
}

/// Information about the web environment (if applicable).
#[derive(Clone, Debug)]
pub struct WebInfo {
    /// e.g. "#fragment" part of "www.example.com/index.html#fragment".
    /// Note that the leading `#` is included in the string.
    /// Also known as "hash-link" or "anchor".
    pub web_location_hash: String,
}

/// Information about the integration passed to the use app each frame.
///
/// The measured quantities are floating-point numbers; each is held here as
/// the bit pattern of its IEEE 754 encoding (`f32::to_bits`, `f64::to_bits`).
#[derive(Clone, Debug)]
pub struct IntegrationInfo {
    /// If the app is running in a Web context, this returns information about the environment.
    pub web_info: Option<WebInfo>,

    /// Does the system prefer dark mode (over light mode)?
    /// `None` means "don't know".
    pub prefer_dark_mode: Option<bool>,

    /// Seconds of cpu usage (in seconds) of UI code on the previous frame, as the bits of an `f32`.
    /// `None` if this is the first frame.
    pub cpu_usage_bits: Option<u32>,

    /// Local time, in seconds since midnight, as the bits of an `f64`.
    /// Used for the clock in the demo app. Set to `None` if you don't know.
    pub seconds_since_midnight_bits: Option<u64>,

    /// The OS native pixels-per-point, as the bits of an `f32`.
    pub native_pixels_per_point_bits: Option<u32>,
}

/// How to allocate textures (images) to use in [`egui`].
pub trait TextureAllocator {
    /// Allocate a new user texture.
    ///
    /// There is no way to change a texture.
    /// Instead allocate a new texture and free the previous one with [`Self::free`].
    fn alloc_srgba_premultiplied(
        &mut self,
        size: (usize, usize),
        srgba_pixels: &[egui::Color32],
    ) -> egui::TextureId;

    /// Free the given texture.
    fn free(&mut self, id: egui::TextureId);
}

/// How to signal the [`egui`] integration that a repaint is required.
pub trait RepaintSignal: Send + Sync {
    /// This signals the [`egui`] integration that a repaint is required.
    /// This is meant to be called when a background process finishes in an async context and/or background thread.
    fn request_repaint(&self);
}

/// A place where you can store custom data in a way that persists when you restart the app.
///
/// On the web this is backed by local storage.
/// On desktop this is backed by the file system.
pub trait Storage {
    /// Get the value for the given key.
    fn get_string(&self, key: &str) -> Option<String>;

    /// Set the value for the given key.
    fn set_string(&mut self, key: &str, value: String);

    /// write-to-disk or similar
    fn flush(&mut self);
}

/// Stores nothing.
#[derive(Clone)]
pub struct DummyStorage {}

impl Default for DummyStorage {
    fn default() -> (r: DummyStorage)
        ensures
            r == (DummyStorage {}),
    {
        DummyStorage {}
    }
}

impl Storage for DummyStorage {
    fn get_string(&self, _key: &str) -> (r: Option<String>)
        ensures
            r is None,
    {
        None
    }

    fn set_string(&mut self, _key: &str, _value: String)
        ensures
            *final(self) == *old(self),
    {
    }

    fn flush(&mut self)
        ensures
            *final(self) == *old(self),
    {
    }
}

/// [`Storage`] key used for app
pub const APP_KEY: &'static str = "app";

} // verus!
