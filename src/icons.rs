use base64::Engine;
use vstd::prelude::*;
use vstd::utf8::{decode_utf8, encode_utf8, valid_utf8};

use crate::text::{opt_view, same_text};

verus! {

/// Where the bundled default icon lies.
pub const DEFAULT_ICON_PATH: &'static str = "img/wave-sound.png";

/// Inputs longer than this are beyond what memory can hold.
pub const MAX_ENCODED_INPUT: usize = usize::MAX / 2;

/// What the standard base64 alphabet, with padding, makes of some bytes.
pub uninterp spec fn base64_of(data: Seq<u8>) -> Seq<char>;

/// Relies on `base64::engine::general_purpose::STANDARD.encode`: the
/// standard alphabet with padding. It panics only when the encoded length
/// overflows `usize`, which the bound rules out.
#[verifier::external_body]
fn encode_base64(data: &[u8]) -> (r: String)
    requires
        data@.len() <= MAX_ENCODED_INPUT,
    ensures
        r@ == base64_of(data@),
{
    base64::engine::general_purpose::STANDARD.encode(data)
}

/// Relies on `String::from_utf8`: it accepts exactly the well-formed UTF-8
/// byte strings and keeps their characters.
#[verifier::external_body]
fn decode_text(data: Vec<u8>) -> (r: Option<String>)
    ensures
        r is Some == valid_utf8(data@),
        r matches Some(s) ==> s@ == decode_utf8(data@),
{
    String::from_utf8(data).ok()
}

/// What decoding an image, turning it to 8-bit grey and encoding that as PNG
/// makes of some bytes; `None` where one of the steps fails.
pub uninterp spec fn grayscale_png_of(data: Seq<u8>) -> Option<Seq<u8>>;

/// Relies on `image::load_from_memory`, `DynamicImage::to_luma8` and
/// `DynamicImage::write_to` with `ImageFormat::Png`: a grey copy of a raster
/// image, encoded as PNG.
#[verifier::external_body]
fn grayscale_png(data: &[u8]) -> (r: Option<Vec<u8>>)
    ensures
        r is Some == grayscale_png_of(data@) is Some,
        r matches Some(v) ==> grayscale_png_of(data@) == Some(v@),
{
    let img = image::load_from_memory(data).ok()?;
    let gray = image::DynamicImage::ImageLuma8(img.to_luma8());
    let mut buffer = std::io::Cursor::new(Vec::new());
    gray.write_to(&mut buffer, image::ImageFormat::Png).ok()?;
    Some(buffer.into_inner())
}

/// The index of the first `c` in `s` at or after `i`.
pub open spec fn find_from(s: Seq<char>, c: char, i: int) -> Option<int>
    decreases s.len() - i,
{
    if i < 0 || i >= s.len() {
        None
    } else if s[i] == c {
        Some(i)
    } else {
        find_from(s, c, i + 1)
    }
}

pub open spec fn contains_text(s: Seq<char>, pat: Seq<char>) -> bool {
    exists|i: int| 0 <= i && i + pat.len() <= s.len() && #[trigger] s.subrange(i, i + pat.len()) == pat
}

/// Every occurrence of `pat`, left to right and without overlap, replaced by
/// `rep`, as `str::replace` does.
pub open spec fn replace_all(s: Seq<char>, pat: Seq<char>, rep: Seq<char>) -> Seq<char>
    decreases s.len(),
{
    if pat.len() == 0 || s.len() < pat.len() {
        s
    } else if s.take(pat.len() as int) == pat {
        rep + replace_all(s.skip(pat.len() as int), pat, rep)
    } else {
        seq![s[0]] + replace_all(s.skip(1), pat, rep)
    }
}

/// An SVG dimmed for the muted state: the first tag, up to the first `>`,
/// gets `opacity="0.4"` after each `<svg` in it, unless it has an opacity
/// already. Without a `>` the text stays as it is.
pub open spec fn grayscale_svg(s: Seq<char>) -> Seq<char> {
    match find_from(s, '>', 0) {
        None => s,
        Some(k) => {
            let head = s.take(k + 1);
            if contains_text(head, "opacity="@) {
                s
            } else {
                replace_all(head, "<svg"@, "<svg opacity=\"0.4\""@) + s.skip(k + 1)
            }
        },
    }
}

fn find_char(s: &str, c: char) -> (r: Option<usize>)
    ensures
        r matches Some(i) ==> find_from(s@, c, 0) == Some(i as int),
        r is None ==> find_from(s@, c, 0) is None,
{
    let n = s.unicode_len();
    let mut i: usize = 0;
    while i < n
        invariant
            n == s@.len(),
            i <= n,
            find_from(s@, c, 0) == find_from(s@, c, i as int),
        decreases n - i,
    {
        if s.get_char(i) == c {
            return Some(i);
        }
        i = i + 1;
    }
    None
}

fn contains_str(s: &str, pat: &str) -> (r: bool)
    ensures
        r == contains_text(s@, pat@),
{
    let n = s.unicode_len();
    let m = pat.unicode_len();
    if m > n {
        return false;
    }
    if m == 0 {
        assert(s@.subrange(0, 0 + pat@.len() as int) =~= pat@);
        return true;
    }
    let mut i: usize = 0;
    while i <= n - m
        invariant
            n == s@.len(),
            m == pat@.len(),
            0 < m <= n,
            i <= n - m + 1,
            forall|j: int| 0 <= j < i ==> #[trigger] s@.subrange(j, j + m) != pat@,
        decreases n - m + 1 - i,
    {
        if same_text(s.substring_char(i, i + m), pat) {
            return true;
        }
        i = i + 1;
    }
    false
}

proof fn lemma_replace_step(s: Seq<char>, pat: Seq<char>, rep: Seq<char>, i: int)
    requires
        pat.len() > 0,
        0 <= i,
        i + pat.len() <= s.len(),
    ensures
        s.subrange(i, i + pat.len()) == pat ==> replace_all(s.skip(i), pat, rep) == rep + replace_all(s.skip(i + pat.len()), pat, rep),
        s.subrange(i, i + pat.len()) != pat ==> replace_all(s.skip(i), pat, rep) == seq![s[i]] + replace_all(s.skip(i + 1), pat, rep),
{
    let t = s.skip(i);
    assert(t.take(pat.len() as int) =~= s.subrange(i, i + pat.len()));
    assert(t.skip(pat.len() as int) =~= s.skip(i + pat.len()));
    assert(t.skip(1) =~= s.skip(i + 1));
}

fn replace_str(s: &str, pat: &str, rep: &str) -> (r: String)
    requires
        pat@.len() > 0,
    ensures
        r@ == replace_all(s@, pat@, rep@),
{
    let n = s.unicode_len();
    let m = pat.unicode_len();
    let mut out = String::new();
    let mut i: usize = 0;
    proof {
        assert(s@.skip(0) =~= s@);
        assert(out@ + replace_all(s@, pat@, rep@) =~= replace_all(s@, pat@, rep@));
    }
    while i < n
        invariant
            n == s@.len(),
            m == pat@.len(),
            m > 0,
            i <= n,
            out@ + replace_all(s@.skip(i as int), pat@, rep@) == replace_all(s@, pat@, rep@),
        decreases n - i,
    {
        if m <= n - i {
            proof {
                lemma_replace_step(s@, pat@, rep@, i as int);
            }
            if same_text(s.substring_char(i, i + m), pat) {
                let ghost before = out@;
                out.append(rep);
                proof {
                    assert(out@ + replace_all(s@.skip(i + m), pat@, rep@) =~= before + (rep@ + replace_all(s@.skip(i + m), pat@, rep@)));
                }
                i = i + m;
            } else {
                let ghost before = out@;
                out.append(s.substring_char(i, i + 1));
                proof {
                    assert(s@.subrange(i as int, i + 1) =~= seq![s@[i as int]]);
                    assert(out@ + replace_all(s@.skip(i + 1), pat@, rep@) =~= before + (seq![s@[i as int]] + replace_all(s@.skip(i + 1), pat@, rep@)));
                }
                i = i + 1;
            }
        } else {
            let ghost before = out@;
            out.append(s.substring_char(i, n));
            proof {
                assert(s@.skip(i as int) =~= s@.subrange(i as int, n as int));
                assert(replace_all(s@.skip(i as int), pat@, rep@) == s@.skip(i as int));
                assert(s@.skip(n as int) =~= Seq::<char>::empty());
                assert(replace_all(s@.skip(n as int), pat@, rep@) == Seq::<char>::empty());
                assert(out@ + replace_all(s@.skip(n as int), pat@, rep@) =~= before + replace_all(s@.skip(i as int), pat@, rep@));
            }
            i = n;
        }
    }
    proof {
        assert(s@.skip(n as int) =~= Seq::<char>::empty());
        assert(out@ + replace_all(s@.skip(n as int), pat@, rep@) =~= out@);
    }
    out
}

/// Dims an SVG for the muted state; see `grayscale_svg`.
pub fn add_grayscale_filter_to_svg(svg: String) -> (r: String)
    ensures
        r@ == grayscale_svg(svg@),
{
    let k = match find_char(svg.as_str(), '>') {
        Some(k) => k,
        None => return svg,
    };
    let n = svg.as_str().unicode_len();
    proof {
        assert(find_from(svg@, '>', 0) == Some(k as int));
        lemma_find_in_range(svg@, '>', 0);
    }
    let head = svg.as_str().substring_char(0, k + 1);
    if contains_str(head, "opacity=") {
        return svg;
    }
    proof {
        reveal_strlit("<svg");
    }
    let tail = svg.as_str().substring_char(k + 1, n);
    let replaced = replace_str(head, "<svg", "<svg opacity=\"0.4\"");
    let r = replaced.concat(tail);
    proof {
        assert(head@ =~= svg@.take(k + 1));
        assert(tail@ =~= svg@.skip(k + 1));
    }
    r
}

proof fn lemma_find_in_range(s: Seq<char>, c: char, i: int)
    requires
        0 <= i,
    ensures
        find_from(s, c, i) matches Some(k) ==> i <= k < s.len() && s[k] == c,
    decreases s.len() - i,
{
    if 0 <= i < s.len() && s[i] != c {
        lemma_find_in_range(s, c, i + 1);
    }
}

/// The media type of an icon file by its extension; PNG when unknown.
pub open spec fn mime_of(extension: Option<Seq<char>>) -> Seq<char> {
    match extension {
        Some(e) => if e == "svg"@ {
            "image/svg+xml"@
        } else if e == "xpm"@ {
            "image/x-xpm"@
        } else {
            "image/png"@
        },
        None => "image/png"@,
    }
}

pub fn mime_type_for(extension: &Option<String>) -> (r: String)
    ensures
        r@ == mime_of(opt_view(*extension)),
{
    match extension {
        Some(e) => {
            if same_text(e.as_str(), "svg") {
                String::from_str("image/svg+xml")
            } else if same_text(e.as_str(), "xpm") {
                String::from_str("image/x-xpm")
            } else {
                String::from_str("image/png")
            }
        },
        None => String::from_str("image/png"),
    }
}

pub open spec fn data_uri_of(mime: Seq<char>, payload: Seq<char>) -> Seq<char> {
    "data:"@ + mime + ";base64,"@ + payload
}

/// `data:<mime>;base64,<payload>`.
pub fn data_uri(mime: &str, payload: &str) -> (r: String)
    ensures
        r@ == data_uri_of(mime@, payload@),
{
    let mut r = String::from_str("data:");
    r.append(mime);
    r.append(";base64,");
    r.append(payload);
    r
}

/// The two images of a channel's header, and whether they are the default icon.
pub struct IconUris {
    pub icon_uri: String,
    pub icon_uri_mute: String,
    pub uses_default_icon: bool,
}

/// The muted image: a dimmed SVG for an SVG that is valid UTF-8, a grey PNG
/// for a raster image the decoder reads, else the normal image.
pub open spec fn muted_uri_of(data: Seq<u8>, mime: Seq<char>, normal: Seq<char>) -> Seq<char> {
    if mime == "image/svg+xml"@ {
        if valid_utf8(data) && encode_utf8(grayscale_svg(decode_utf8(data))).len() <= MAX_ENCODED_INPUT {
            data_uri_of("image/svg+xml"@, base64_of(encode_utf8(grayscale_svg(decode_utf8(data)))))
        } else {
            normal
        }
    } else {
        match grayscale_png_of(data) {
            Some(png) if png.len() <= MAX_ENCODED_INPUT => data_uri_of("image/png"@, base64_of(png)),
            _ => normal,
        }
    }
}

/// The header images of an icon file's contents: the file as a data URI,
/// and its muted variant.
pub fn icon_uris_from_file(data: Vec<u8>, extension: &Option<String>, uses_default_icon: bool) -> (r: IconUris)
    requires
        data@.len() <= MAX_ENCODED_INPUT,
    ensures
        r.icon_uri@ == data_uri_of(mime_of(opt_view(*extension)), base64_of(data@)),
        r.icon_uri_mute@ == muted_uri_of(data@, mime_of(opt_view(*extension)), r.icon_uri@),
        r.uses_default_icon == uses_default_icon,
{
    let mime = mime_type_for(extension);
    let encoded = encode_base64(data.as_slice());
    let normal = data_uri(mime.as_str(), encoded.as_str());
    let ghost bytes = data@;
    let muted = if same_text(mime.as_str(), "image/svg+xml") {
        match decode_text(data) {
            Some(text) => {
                let gray = add_grayscale_filter_to_svg(text);
                let gray_bytes = gray.as_str().as_bytes();
                if gray_bytes.len() <= MAX_ENCODED_INPUT {
                    let e = encode_base64(gray_bytes);
                    data_uri("image/svg+xml", e.as_str())
                } else {
                    normal.clone()
                }
            },
            None => normal.clone(),
        }
    } else {
        match grayscale_png(data.as_slice()) {
            Some(png) => {
                if png.len() <= MAX_ENCODED_INPUT {
                    let e = encode_base64(png.as_slice());
                    data_uri("image/png", e.as_str())
                } else {
                    normal.clone()
                }
            },
            None => normal.clone(),
        }
    };
    IconUris { icon_uri: normal, icon_uri_mute: muted, uses_default_icon }
}

/// Which file a channel's icon comes from.
pub struct IconChoice {
    pub path: String,
    pub uses_default_icon: bool,
}

/// Picks the icon file from what the icon theme lookups found: with an icon
/// name, the file found for it, else the one found for the application
/// name, else the default icon; without one, the file found for the
/// application name, else the default icon, which is then flagged so that
/// the name is shown beside it.
pub fn choose_icon_path(has_icon_name: bool, icon_path: Option<String>, fallback_path: Option<String>) -> (r: IconChoice)
    ensures
        has_icon_name ==> r.path@ == match (icon_path, fallback_path) {
            (Some(p), _) => p@,
            (None, Some(p)) => p@,
            (None, None) => DEFAULT_ICON_PATH@,
        } && !r.uses_default_icon,
        !has_icon_name ==> r.path@ == match fallback_path {
            Some(p) => p@,
            None => DEFAULT_ICON_PATH@,
        } && r.uses_default_icon == fallback_path is None,
{
    if has_icon_name {
        let path = match icon_path {
            Some(p) => p,
            None => match fallback_path {
                Some(p) => p,
                None => String::from_str(DEFAULT_ICON_PATH),
            },
        };
        IconChoice { path, uses_default_icon: false }
    } else {
        match fallback_path {
            Some(p) => IconChoice { path: p, uses_default_icon: false },
            None => IconChoice { path: String::from_str(DEFAULT_ICON_PATH), uses_default_icon: true },
        }
    }
}

} // verus!
