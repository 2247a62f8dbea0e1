//! The dashboard server's settings and the small decisions it makes: how
//! often clients get a frame, where the WebSocket listens, which file a
//! request names and what content type it is served with.
use vstd::prelude::*;
use crate::elm::ObdConfig;

verus! {

/// Serial read timeout used by the dashboard's OBD poller.
pub const SERIAL_TIMEOUT_MS: u64 = 120;

/// Frames are never sent more often than every this many milliseconds.
pub const MIN_FRAME_MS: u64 = 16;

/// How the dashboard is set up.
pub struct UiConfig {
    pub obd_dev: String,
    pub obd_baud: u32,
    pub fps: u32,
    pub poll_interval_ms: u64,
    pub port: u16,
    pub web_dir: String,
}

/// Milliseconds between two frames to a client at `fps` frames per second:
/// `1000 / fps` (a rate of 0 counts as 1), at least [`MIN_FRAME_MS`].
pub open spec fn frame_interval(fps: u32) -> u64 {
    let rate: u32 = if fps < 1 {
        1
    } else {
        fps
    };
    let per: u64 = 1000u64 / (rate as u64);
    if per < MIN_FRAME_MS {
        MIN_FRAME_MS
    } else {
        per
    }
}

impl UiConfig {
    /// The serial settings for the OBD poller.
    pub fn obd_config(&self) -> (r: ObdConfig)
        ensures
            r.dev@ == self.obd_dev@,
            r.baud == self.obd_baud,
            r.timeout_ms == SERIAL_TIMEOUT_MS,
    {
        ObdConfig { dev: self.obd_dev.clone(), baud: self.obd_baud, timeout_ms: SERIAL_TIMEOUT_MS }
    }

    /// Milliseconds between two frames to a client.
    pub fn frame_interval_ms(&self) -> (r: u64)
        ensures
            r == frame_interval(self.fps),
    {
        let rate: u32 = if self.fps < 1 {
            1
        } else {
            self.fps
        };
        let per: u64 = 1000 / (rate as u64);
        if per < MIN_FRAME_MS {
            MIN_FRAME_MS
        } else {
            per
        }
    }

    /// The WebSocket port: the one after the HTTP port.
    pub fn ws_port(&self) -> (r: u16)
        requires
            self.port < u16::MAX,
        ensures
            r == self.port + 1,
    {
        self.port + 1
    }
}

/// Whether two texts are equal.
pub fn text_equals(a: &str, b: &str) -> (r: bool)
    ensures
        r == (a@ == b@),
{
    let n: usize = a.unicode_len();
    if n != b.unicode_len() {
        return false;
    }
    let mut i: usize = 0;
    while i < n
        invariant
            n == a@.len() == b@.len(),
            i <= n,
            forall|j: int| 0 <= j < i ==> a@[j] == b@[j],
        decreases n - i,
    {
        if a.get_char(i) != b.get_char(i) {
            return false;
        }
        i = i + 1;
    }
    assert(a@ =~= b@);
    true
}

/// `p` without its leading slashes.
pub open spec fn strip_leading_slashes(p: Seq<char>) -> Seq<char>
    decreases p.len(),
{
    if p.len() > 0 && p[0] == '/' {
        strip_leading_slashes(p.drop_first())
    } else {
        p
    }
}

/// The file a request URL names, relative to the web directory: the URL
/// `/` names `index.html`; any other URL names itself without its leading
/// slashes.
pub open spec fn requested_file(url: Seq<char>) -> Seq<char> {
    if url == "/"@ {
        strip_leading_slashes("/index.html"@)
    } else {
        strip_leading_slashes(url)
    }
}

proof fn lemma_strip_at(p: Seq<char>, a: int)
    requires
        0 <= a <= p.len(),
        forall|i: int| 0 <= i < a ==> #[trigger] p[i] == '/',
        a == p.len() || p[a] != '/',
    ensures
        strip_leading_slashes(p) == p.subrange(a, p.len() as int),
    decreases a,
{
    if a == 0 {
        assert(p.subrange(0, p.len() as int) =~= p);
    } else {
        let t = p.drop_first();
        assert forall|i: int| 0 <= i < a - 1 implies #[trigger] t[i] == '/' by {
            assert(t[i] == p[i + 1]);
        }
        if a - 1 < t.len() {
            assert(t[a - 1] == p[a]);
        }
        lemma_strip_at(t, a - 1);
        assert(t.subrange(a - 1, t.len() as int) =~= p.subrange(a, p.len() as int));
    }
}

/// The file a request URL names (see [`requested_file`]).
pub fn request_path(url: &str) -> (r: String)
    ensures
        r@ == requested_file(url@),
{
    let p: &str = if text_equals(url, "/") {
        "/index.html"
    } else {
        url
    };
    let mut chars: Vec<char> = Vec::new();
    for c in it: p.chars()
        invariant
            it.seq() == p@,
            chars@ == p@.take(it.index()),
    {
        assert(p@.take(it.index() + 1) =~= p@.take(it.index() as int).push(c));
        chars.push(c);
    }
    assert(p@.take(p@.len() as int) =~= p@);
    let mut a: usize = 0;
    while a < chars.len() && chars[a] == '/'
        invariant
            a <= chars.len(),
            forall|i: int| 0 <= i < a ==> #[trigger] chars@[i] == '/',
        decreases chars.len() - a,
    {
        a = a + 1;
    }
    proof {
        lemma_strip_at(chars@, a as int);
    }
    let mut r = String::new();
    crate::text::push_range(&mut r, &chars, a, chars.len());
    assert(Seq::<char>::empty() + chars@.subrange(a as int, chars@.len() as int)
        =~= chars@.subrange(a as int, chars@.len() as int));
    r
}

/// The content type a file is served with, by its extension.
pub open spec fn content_type_for(ext: Option<Seq<char>>) -> Seq<char> {
    match ext {
        Some(e) => if e == "html"@ {
            "text/html; charset=utf-8"@
        } else if e == "css"@ {
            "text/css; charset=utf-8"@
        } else if e == "js"@ {
            "application/javascript; charset=utf-8"@
        } else if e == "json"@ {
            "application/json"@
        } else if e == "png"@ {
            "image/png"@
        } else if e == "svg"@ {
            "image/svg+xml"@
        } else if e == "ico"@ {
            "image/x-icon"@
        } else if e == "mp4"@ {
            "video/mp4"@
        } else if e == "webm"@ {
            "video/webm"@
        } else {
            "application/octet-stream"@
        },
        None => "application/octet-stream"@,
    }
}

/// The content type for a file extension.
pub fn content_type(ext: Option<&str>) -> (r: &'static str)
    ensures
        r@ == content_type_for(
            match ext {
                Some(e) => Some(e@),
                None => None,
            },
        ),
{
    match ext {
        Some(e) => if text_equals(e, "html") {
            "text/html; charset=utf-8"
        } else if text_equals(e, "css") {
            "text/css; charset=utf-8"
        } else if text_equals(e, "js") {
            "application/javascript; charset=utf-8"
        } else if text_equals(e, "json") {
            "application/json"
        } else if text_equals(e, "png") {
            "image/png"
        } else if text_equals(e, "svg") {
            "image/svg+xml"
        } else if text_equals(e, "ico") {
            "image/x-icon"
        } else if text_equals(e, "mp4") {
            "video/mp4"
        } else if text_equals(e, "webm") {
            "video/webm"
        } else {
            "application/octet-stream"
        },
        None => "application/octet-stream",
    }
}

/// What `std::path::Path::extension` gives for a path.
pub uninterp spec fn path_extension(path: Seq<char>) -> Option<Seq<char>>;

/// `std::path::Path::extension`, as text: the part of the file name after
/// its last `.`, if there is one and the name is not just a leading dot.
/// How the file name is found (components, trailing separators) is named,
/// not restated; stated are only that a path without a dot has no
/// extension and that an extension holds neither a dot nor a slash.
#[verifier::external_body]
fn file_extension(path: &str) -> (r: Option<String>)
    ensures
        r matches Some(e) ==> path_extension(path@) == Some(e@),
        r is None ==> path_extension(path@) is None,
        (forall|i: int| 0 <= i < path@.len() ==> path@[i] != '.') ==> r is None,
        r matches Some(e) ==> forall|i: int| 0 <= i < e@.len() ==> e@[i] != '.' && e@[i] != '/',
{
    match std::path::Path::new(path).extension() {
        Some(e) => Some(e.to_string_lossy().into_owned()),
        None => None,
    }
}

/// The content type a file is served with, by the extension of its path.
pub fn content_type_for_path(path: &str) -> (r: &'static str)
    ensures
        r@ == content_type_for(path_extension(path@)),
        (forall|i: int| 0 <= i < path@.len() ==> path@[i] != '.') ==> r@
            == "application/octet-stream"@,
{
    match file_extension(path) {
        Some(e) => content_type(Some(e.as_str())),
        None => content_type(None),
    }
}

/// The frame interval is `1000 / fps` milliseconds, rounded down and at
/// least 16, for every rate of one frame per second or more; a rate of 0
/// gives one frame per second.
pub proof fn law_frame_interval_formula(fps: u32)
    ensures
        fps >= 1 && 1000int / (fps as int) >= 16 ==> frame_interval(fps) == 1000int / (fps as int),
        fps >= 1 && 1000int / (fps as int) < 16 ==> frame_interval(fps) == 16,
        fps == 0 ==> frame_interval(fps) == 1000,
        frame_interval(fps) * (if fps == 0 { 1 } else { fps as int }) <= 1000 || frame_interval(fps) == 16,
{
    if fps >= 1 {
        let q = 1000int / (fps as int);
        assert(q * (fps as int) <= 1000) by (nonlinear_arith)
            requires
                fps >= 1,
                q == 1000int / (fps as int),
        ;
    } else {
        let rate: u32 = 1;
        assert(1000u64 / (rate as u64) == 1000) by (nonlinear_arith)
            requires
                rate == 1,
        ;
    }
}

/// A higher frame rate never gives a longer interval.
pub proof fn law_frame_interval_monotonic(a: u32, b: u32)
    requires
        1 <= a <= b,
    ensures
        frame_interval(b) <= frame_interval(a),
{
    assert(1000int / (b as int) <= 1000int / (a as int)) by (nonlinear_arith)
        requires
            1 <= a <= b,
    ;
}

/// No slash is left at the front of a requested file, and a URL made of
/// slashes followed by a name that does not start with a slash names that
/// name.
pub proof fn law_request_path_relative(url: Seq<char>, k: nat, name: Seq<char>)
    ensures
        requested_file(url).len() == 0 || requested_file(url)[0] != '/',
        (name.len() > 0 && name[0] != '/' && url == Seq::new(k, |i: int| '/') + name
            && url != "/"@) ==> requested_file(url) == name,
{
    lemma_strip_has_no_leading_slash(url);
    lemma_strip_has_no_leading_slash("/index.html"@);
    if name.len() > 0 && name[0] != '/' && url == Seq::new(k, |i: int| '/') + name {
        lemma_strip_slashes_then(k, name);
    }
}

proof fn lemma_strip_has_no_leading_slash(p: Seq<char>)
    ensures
        strip_leading_slashes(p).len() == 0 || strip_leading_slashes(p)[0] != '/',
    decreases p.len(),
{
    if p.len() > 0 && p[0] == '/' {
        lemma_strip_has_no_leading_slash(p.drop_first());
    }
}

proof fn lemma_strip_slashes_then(k: nat, name: Seq<char>)
    requires
        name.len() > 0,
        name[0] != '/',
    ensures
        strip_leading_slashes(Seq::new(k, |i: int| '/') + name) == name,
    decreases k,
{
    let u = Seq::new(k, |i: int| '/') + name;
    if k == 0 {
        assert(u =~= name);
    } else {
        assert(u[0] == '/');
        assert(u.drop_first() =~= Seq::new((k - 1) as nat, |i: int| '/') + name);
        lemma_strip_slashes_then((k - 1) as nat, name);
    }
}

} // verus!
