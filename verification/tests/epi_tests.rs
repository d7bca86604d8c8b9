use std::sync::atomic::AtomicUsize;
use std::sync::Arc;

use epi::backend::{AppOutput, FrameBuilder};
use epi::headers::{compare_bytes, ByteOrder, HeaderMap};
use epi::http::{Request, Response};
use epi::{
    DummyStorage, IntegrationInfo, NativeOptions, RepaintSignal, Storage, TextureAllocator,
    WebInfo, APP_KEY,
};

struct CountingSignal(AtomicUsize);

impl RepaintSignal for CountingSignal {
    fn request_repaint(&self) {
        self.0.fetch_add(1, std::sync::atomic::Ordering::SeqCst);
    }
}

#[derive(Default)]
struct CountingAllocator {
    allocated: u64,
    freed: Vec<egui::TextureId>,
}

impl TextureAllocator for CountingAllocator {
    fn alloc_srgba_premultiplied(
        &mut self,
        _size: (usize, usize),
        _srgba_pixels: &[egui::Color32],
    ) -> egui::TextureId {
        self.allocated += 1;
        egui::TextureId::User(self.allocated)
    }

    fn free(&mut self, id: egui::TextureId) {
        self.freed.push(id);
    }
}

fn info(web: bool) -> IntegrationInfo {
    IntegrationInfo {
        web_info: if web {
            Some(WebInfo { web_location_hash: "#top".to_owned() })
        } else {
            None
        },
        prefer_dark_mode: Some(true),
        cpu_usage_bits: None,
        seconds_since_midnight_bits: Some(3600.5f64.to_bits()),
        native_pixels_per_point_bits: Some(2.0f32.to_bits()),
    }
}

fn headers_of(m: &HeaderMap) -> Vec<(String, String)> {
    m.entries().to_vec()
}

#[test]
fn native_options_default_values() {
    let o = NativeOptions::default();
    assert!(!o.always_on_top);
    assert!(o.decorated);
    assert!(!o.drag_and_drop_support);
    assert!(o.icon_data.is_none());
    assert!(o.initial_window_size.is_none());
    assert!(o.resizable);
    assert!(!o.transparent);
}

#[test]
fn app_output_default_is_no_command() {
    let o = AppOutput::default();
    assert!(!o.quit);
    assert!(o.window_size.is_none());
}

#[test]
fn app_key_is_app() {
    assert_eq!(APP_KEY, "app");
}

#[test]
fn dummy_storage_stores_nothing() {
    let mut s = DummyStorage::default();
    assert_eq!(s.get_string(APP_KEY), None);
    s.set_string(APP_KEY, "state".to_owned());
    s.flush();
    assert_eq!(s.get_string(APP_KEY), None);
    assert_eq!(s.get_string("other"), None);
}

#[test]
fn create_headers_map_last_pair_wins() {
    let m = Request::create_headers_map(&[("a", "1"), ("b", "2"), ("a", "3")]);
    assert_eq!(m.get("a").map(|s| s.as_str()), Some("3"));
    assert_eq!(m.get("b").map(|s| s.as_str()), Some("2"));
    assert_eq!(m.get("c"), None);
    assert_eq!(
        headers_of(&m),
        vec![("a".to_owned(), "3".to_owned()), ("b".to_owned(), "2".to_owned())]
    );
}

#[test]
fn create_headers_map_empty() {
    let m = Request::create_headers_map(&[]);
    assert!(m.entries().is_empty());
    assert_eq!(m.get(""), None);
}

#[test]
fn header_map_orders_names_by_bytes() {
    let m = Request::create_headers_map(&[
        ("b", "1"),
        ("é", "2"),
        ("B", "3"),
        ("ab", "4"),
        ("a", "5"),
        ("", "6"),
    ]);
    let names: Vec<String> = m.entries().iter().map(|e| e.0.clone()).collect();
    assert_eq!(names, vec!["", "B", "a", "ab", "b", "é"]);
    let mut sorted = names.clone();
    sorted.sort();
    assert_eq!(names, sorted);
}

#[test]
fn header_map_read_after_write() {
    let mut m = HeaderMap::new();
    assert_eq!(m.insert("Accept".to_owned(), "*/*".to_owned()), None);
    assert_eq!(m.insert("Host".to_owned(), "example.com".to_owned()), None);
    assert_eq!(
        m.insert("Accept".to_owned(), "text/html".to_owned()),
        Some("*/*".to_owned())
    );
    assert_eq!(m.get("Accept").map(|s| s.as_str()), Some("text/html"));
    assert_eq!(m.get("Host").map(|s| s.as_str()), Some("example.com"));
    assert_eq!(m.get("accept"), None);
    assert_eq!(m.entries().len(), 2);
}

#[test]
fn compare_bytes_is_lexicographic() {
    assert!(matches!(compare_bytes(b"abc", b"abd"), ByteOrder::Less));
    assert!(matches!(compare_bytes(b"abd", b"abc"), ByteOrder::Greater));
    assert!(matches!(compare_bytes(b"ab", b"abc"), ByteOrder::Less));
    assert!(matches!(compare_bytes(b"abc", b"ab"), ByteOrder::Greater));
    assert!(matches!(compare_bytes(b"", b""), ByteOrder::Equal));
    assert!(matches!(compare_bytes(b"xyz", b"xyz"), ByteOrder::Equal));
    assert!(matches!(compare_bytes(b"Z", b"a"), ByteOrder::Less));
}

#[test]
fn request_get() {
    let r = Request::get("https://www.example.com");
    assert_eq!(r.method, "GET");
    assert_eq!(r.url, "https://www.example.com");
    assert!(r.body.is_empty());
    assert_eq!(headers_of(&r.headers), vec![("Accept".to_owned(), "*/*".to_owned())]);
}

#[test]
fn request_post() {
    let r = Request::post("https://www.example.com/upload", "héllo");
    assert_eq!(r.method, "POST");
    assert_eq!(r.url, "https://www.example.com/upload");
    assert_eq!(r.body, "héllo".as_bytes().to_vec());
    assert_eq!(r.body, vec![104, 195, 169, 108, 108, 111]);
    assert_eq!(
        headers_of(&r.headers),
        vec![
            ("Accept".to_owned(), "*/*".to_owned()),
            ("Content-Type".to_owned(), "text/plain; charset=utf-8".to_owned()),
        ]
    );
}

fn response(bytes: Vec<u8>, headers: HeaderMap) -> Response {
    Response {
        url: "https://www.example.com".to_owned(),
        ok: true,
        status: 200,
        status_text: "OK".to_owned(),
        bytes,
        headers,
    }
}

#[test]
fn response_text_reads_post_body() {
    for body in ["", "plain", "héllo wörld", "日本語", "emoji 🎉"] {
        let req = Request::post("https://www.example.com", body);
        let resp = response(req.body, HeaderMap::new());
        assert_eq!(resp.text(), Some(body.to_owned()));
    }
}

#[test]
fn response_text_rejects_invalid_utf8() {
    assert_eq!(response(vec![0xff, 0xfe], HeaderMap::new()).text(), None);
    assert_eq!(response(vec![b'a', 0xc3], HeaderMap::new()).text(), None);
    assert_eq!(response(vec![0xed, 0xa0, 0x80], HeaderMap::new()).text(), None);
    assert_eq!(response(vec![104, 105], HeaderMap::new()).text(), Some("hi".to_owned()));
}

#[test]
fn response_content_type() {
    let with = response(
        Vec::new(),
        Request::create_headers_map(&[("content-type", "text/html"), ("x", "y")]),
    );
    assert_eq!(with.content_type(), Some("text/html".to_owned()));
    let other_case = response(
        Vec::new(),
        Request::create_headers_map(&[("Content-Type", "text/html")]),
    );
    assert_eq!(other_case.content_type(), None);
    assert_eq!(response(Vec::new(), HeaderMap::new()).content_type(), None);
}

#[test]
fn frame_reports_web_environment() {
    let mut output = AppOutput::default();
    let mut alloc = CountingAllocator::default();
    let signal: Arc<dyn RepaintSignal> = Arc::new(CountingSignal(AtomicUsize::new(0)));
    let frame = FrameBuilder {
        info: info(true),
        tex_allocator: &mut alloc,
        output: &mut output,
        repaint_signal: signal.clone(),
    }
    .build();
    assert!(frame.is_web());
    assert_eq!(frame.info().web_info.as_ref().unwrap().web_location_hash, "#top");
    assert_eq!(frame.info().prefer_dark_mode, Some(true));

    let mut output2 = AppOutput::default();
    let mut alloc2 = CountingAllocator::default();
    let native = FrameBuilder {
        info: info(false),
        tex_allocator: &mut alloc2,
        output: &mut output2,
        repaint_signal: signal,
    }
    .build();
    assert!(!native.is_web());
}

#[test]
fn frame_quit_and_resize_reach_output() {
    let mut output = AppOutput::default();
    let mut alloc = CountingAllocator::default();
    let signal: Arc<dyn RepaintSignal> = Arc::new(CountingSignal(AtomicUsize::new(0)));
    {
        let mut frame = FrameBuilder {
            info: info(false),
            tex_allocator: &mut alloc,
            output: &mut output,
            repaint_signal: signal.clone(),
        }
        .build();
        frame.set_window_size(egui::vec2(640.0, 480.0));
    }
    assert!(!output.quit);
    assert_eq!(output.window_size, Some(egui::vec2(640.0, 480.0)));
    {
        let mut frame = FrameBuilder {
            info: info(false),
            tex_allocator: &mut alloc,
            output: &mut output,
            repaint_signal: signal,
        }
        .build();
        frame.quit();
    }
    assert!(output.quit);
    assert_eq!(output.window_size, Some(egui::vec2(640.0, 480.0)));
}

#[test]
fn frame_hands_out_allocator_and_signal() {
    let mut output = AppOutput::default();
    let mut alloc = CountingAllocator::default();
    let counter = Arc::new(CountingSignal(AtomicUsize::new(0)));
    let signal: Arc<dyn RepaintSignal> = counter.clone();
    {
        let mut frame = FrameBuilder {
            info: info(false),
            tex_allocator: &mut alloc,
            output: &mut output,
            repaint_signal: signal,
        }
        .build();
        let id = frame
            .tex_allocator()
            .alloc_srgba_premultiplied((1, 1), &[egui::Color32::WHITE]);
        frame.tex_allocator().free(id);
        let cloned = frame.repaint_signal();
        cloned.request_repaint();
        frame.repaint_signal().request_repaint();
    }
    assert_eq!(alloc.allocated, 1);
    assert_eq!(alloc.freed, vec![egui::TextureId::User(1)]);
    assert_eq!(counter.0.load(std::sync::atomic::Ordering::SeqCst), 2);
    assert_eq!(output, AppOutput::default());
}
