//! The renderer payload sent to a Codex page over the DevTools protocol,
//! and the decisions taken while a DevTools evaluation runs.
use base64::Engine;
use vstd::prelude::*;
use vstd::utf8::encode_utf8;

use crate::color_map::{pair_view, EntryView};
use crate::codex::{opt_view, url_result_matches, validate_target_ws_url, ws_url_outcome, UrlParts, UrlView};
use crate::error::{cdp_error, validation, AppError};
use crate::text::{
    lemma_last_index_at,
    os_join, HostOs,
    ascii_lower, chars_of, char_ascii_lower, dec, extension_of, file_extension, last_component,
    last_component_of, push_char, push_decimal, push_str, str_eq,
};
use crate::ids::{is_lower_hex_digit, is_uuid_text};
use crate::image_tools::{extension_kind, hex_digit, imported_name, stored_extension, ImageKind};
use crate::theme::{theme_violation, valid_image_ref, valid_theme, Theme};

verus! {

/// DOM id of the style element the renderer installs.
pub const STYLE_NODE_ID: &'static str = "codex-skin-workshop-style";

/// DOM id of the backdrop element the renderer installs.
pub const BACKDROP_NODE_ID: &'static str = "codex-skin-workshop-backdrop";

/// The script that removes both workshop nodes and nothing else.
pub const RESTORE_PAYLOAD: &'static str = "document.getElementById('codex-skin-workshop-style')?.remove();document.getElementById('codex-skin-workshop-backdrop')?.remove();";

/// The largest background image that is embedded.
pub const MAX_EMBEDDED_IMAGE_BYTES: usize = 26214400;

// The fixed text of the style sheet, around the theme's values.
pub const CSS_OPEN: &'static str = "\n:root{";
pub const CSS_BACKDROP: &'static str = "}\n#codex-skin-workshop-backdrop{position:fixed;inset:-32px;z-index:0;background-size:cover;background-position:center;opacity:";
pub const CSS_BLUR: &'static str = ";filter:blur(";
pub const CSS_BRIGHTNESS: &'static str = "px) brightness(";
pub const CSS_SATURATE: &'static str = "%) saturate(";
pub const CSS_REST: &'static str = "%);pointer-events:none}\nbody{background:var(--csw-surface,#101319)!important;color:var(--csw-text,#f4f7f1)!important}\nbody>*:not(#codex-skin-workshop-backdrop){position:relative;z-index:1}\nmain.main-surface,main,[role=\"main\"]{background:color-mix(in srgb,var(--csw-surface,#101319) 78%,transparent)!important;color:var(--csw-text,#f4f7f1)!important}\naside.app-shell-left-panel,aside{background:color-mix(in srgb,var(--csw-surface,#101319) 88%,transparent)!important;border-color:color-mix(in srgb,var(--csw-accent,#b7ff5a) 28%,transparent)!important}\n.composer-surface-chrome,[data-testid*=\"composer\"]{background:color-mix(in srgb,var(--csw-surface,#101319) 90%,white 10%)!important;border-color:color-mix(in srgb,var(--csw-accent,#b7ff5a) 35%,transparent)!important}\nbutton[aria-pressed=\"true\"],[data-state=\"active\"]{color:var(--csw-accent,#b7ff5a)!important}\n";

// The fixed text of the renderer script, around the encoded values.
pub const SCRIPT_HEAD: &'static str = "(() => {\nconst STYLE_ID = 'codex-skin-workshop-style';\nconst BG_ID = 'codex-skin-workshop-backdrop';\ndocument.getElementById(STYLE_ID)?.remove(); document.getElementById(BG_ID)?.remove();\nconst style=document.createElement('style'); style.id=STYLE_ID; style.textContent=atob('";
pub const SCRIPT_IMAGE_TEST: &'static str = "'); document.documentElement.appendChild(style);\nif ('";
pub const SCRIPT_DATA_URL: &'static str = "') { const bg=document.createElement('div'); bg.id=BG_ID; bg.setAttribute('aria-hidden','true'); bg.style.backgroundImage=`url(\"data:";
pub const SCRIPT_BASE64: &'static str = ";base64,";
pub const SCRIPT_TAIL: &'static str = "\")`; document.documentElement.prepend(bg); }\n})()";

/// A character of the standard base64 alphabet, or the `=` padding.
pub open spec fn is_base64_char(c: char) -> bool {
    ('A' <= c && c <= 'Z') || ('a' <= c && c <= 'z') || ('0' <= c && c <= '9') || c == '+' || c
        == '/' || c == '='
}

/// The digit of the standard base64 alphabet for a six-bit value.
pub open spec fn base64_digit(v: int) -> char {
    if v < 26 {
        ('A' as int + v) as char
    } else if v < 52 {
        ('a' as int + v - 26) as char
    } else if v < 62 {
        ('0' as int + v - 52) as char
    } else if v == 62 {
        '+'
    } else {
        '/'
    }
}

/// Standard base64 with `=` padding: each group of three bytes becomes four
/// digits of six bits each; a last group of one or two bytes is padded.
pub open spec fn base64_standard(b: Seq<u8>) -> Seq<char>
    decreases b.len(),
{
    if b.len() == 0 {
        Seq::empty()
    } else if b.len() == 1 {
        seq![base64_digit((b[0] as int) / 4), base64_digit(((b[0] as int) % 4) * 16), '=', '=']
    } else if b.len() == 2 {
        seq![
            base64_digit((b[0] as int) / 4),
            base64_digit(((b[0] as int) % 4) * 16 + (b[1] as int) / 16),
            base64_digit(((b[1] as int) % 16) * 4),
            '=',
        ]
    } else {
        seq![
            base64_digit((b[0] as int) / 4),
            base64_digit(((b[0] as int) % 4) * 16 + (b[1] as int) / 16),
            base64_digit(((b[1] as int) % 16) * 4 + (b[2] as int) / 64),
            base64_digit((b[2] as int) % 64),
        ] + base64_standard(b.skip(3))
    }
}

/// Base64 text is written in the base64 alphabet.
pub proof fn lemma_base64_alphabet(b: Seq<u8>)
    ensures
        forall|i: int| 0 <= i < base64_standard(b).len() ==> is_base64_char(#[trigger] base64_standard(b)[i]),
    decreases b.len(),
{
    assert forall|v: int| 0 <= v < 64 implies is_base64_char(#[trigger] base64_digit(v)) by {}
    if b.len() >= 3 {
        lemma_base64_alphabet(b.skip(3));
        let head = seq![
            base64_digit((b[0] as int) / 4),
            base64_digit(((b[0] as int) % 4) * 16 + (b[1] as int) / 16),
            base64_digit(((b[1] as int) % 16) * 4 + (b[2] as int) / 64),
            base64_digit((b[2] as int) % 64),
        ];
        let rest = base64_standard(b.skip(3));
        assert(base64_standard(b) == head + rest);
        assert forall|i: int| 0 <= i < base64_standard(b).len() implies is_base64_char(
            #[trigger] base64_standard(b)[i],
        ) by {
            if i >= 4 {
                assert(base64_standard(b)[i] == rest[i - 4]);
            }
        }
    }
}

/// `base64::engine::general_purpose::STANDARD.encode(bytes)`: standard
/// base64 (`A`-`Z`, `a`-`z`, `0`-`9`, `+`, `/`) with `=` padding, as the
/// crate's `alphabet::STANDARD` and `PAD` configuration give. The call panics
/// only when the encoded length overflows `usize`, which no slice (at most
/// `isize::MAX` bytes) reaches.
#[verifier::external_body]
fn base64_encode(bytes: &[u8]) -> (r: String)
    ensures
        r@ == base64_standard(bytes@),
{
    base64::engine::general_purpose::STANDARD.encode(bytes)
}

/// The CSS custom properties of the theme colors: `--csw-<name>:<value>;`
/// for each entry, in order.
pub open spec fn color_vars(s: Seq<EntryView>) -> Seq<char>
    decreases s.len(),
{
    if s.len() == 0 {
        Seq::empty()
    } else {
        color_vars(s.drop_last()) + "--csw-"@ + s.last().0 + ":"@ + s.last().1 + ";"@
    }
}

/// The style sheet of a theme; `opacity` is the text of the opacity value.
pub open spec fn style_sheet(t: Theme, opacity: Seq<char>) -> Seq<char> {
    let blur = match t.blur_px { Some(v) => v, None => 0u16 };
    let brightness = match t.brightness_pct { Some(v) => v, None => 100u16 };
    let saturation = match t.saturation_pct { Some(v) => v, None => 100u16 };
    CSS_OPEN@ + color_vars(t.colors@) + CSS_BACKDROP@ + opacity + CSS_BLUR@ + dec(blur as nat)
        + CSS_BRIGHTNESS@ + dec(brightness as nat) + CSS_SATURATE@ + dec(saturation as nat)
        + CSS_REST@
}

/// The renderer script: it installs the base64-encoded style sheet and, when
/// `image` is not empty, a backdrop showing the base64-encoded image.
pub open spec fn renderer_script(css: Seq<char>, mime: Seq<char>, image: Seq<char>) -> Seq<char> {
    SCRIPT_HEAD@ + css + SCRIPT_IMAGE_TEST@ + image + SCRIPT_DATA_URL@ + mime + SCRIPT_BASE64@
        + image + SCRIPT_TAIL@
}

/// The media type of an imported image, from the extension of its file
/// name (ignoring ASCII case).
pub open spec fn image_mime(relative: Seq<char>) -> Option<Seq<char>> {
    let ext = ascii_lower(
        match file_extension(last_component(relative)) {
            Some(e) => e,
            None => Seq::empty(),
        },
    );
    if ext == "png"@ {
        Some("image/png"@)
    } else if ext == "jpg"@ || ext == "jpeg"@ {
        Some("image/jpeg"@)
    } else if ext == "webp"@ {
        Some("image/webp"@)
    } else if ext == "gif"@ {
        Some("image/gif"@)
    } else {
        None
    }
}

/// What rendering gives: the payload, or the message of the validation
/// error. `image` holds the bytes of the theme's background image file; it
/// is looked at only when the theme has a background image.
pub open spec fn payload_outcome(t: Theme, opacity: Seq<char>, image: Seq<u8>) -> Result<
    Seq<char>,
    Seq<char>,
> {
    let css = base64_standard(encode_utf8(style_sheet(t, opacity)));
    if !valid_theme(t) {
        Err(theme_violation(t)->0)
    } else if t.background_image is None {
        Ok(renderer_script(css, "image/png"@, Seq::empty()))
    } else if image.len() > MAX_EMBEDDED_IMAGE_BYTES {
        Err("imported image is too large"@)
    } else if image_mime(t.background_image->0@) is None {
        Err("unsupported imported image extension"@)
    } else {
        Ok(
            renderer_script(
                css,
                image_mime(t.background_image->0@)->0,
                base64_standard(image),
            ),
        )
    }
}

/// The media type an image of this format is embedded as.
pub open spec fn kind_mime(k: ImageKind) -> Seq<char> {
    match k {
        ImageKind::Png => "image/png"@,
        ImageKind::Jpeg => "image/jpeg"@,
        ImageKind::WebP => "image/webp"@,
        ImageKind::Gif => "image/gif"@,
        ImageKind::Other => Seq::empty(),
    }
}

/// The name of an imported image's stored copy names its decoded format:
/// the `image` crate reads that format back from the extension, and the
/// payload embeds the copy with that format's media type (a JPEG is stored
/// as `.jpg` and embedded as `image/jpeg`).
pub proof fn lemma_stored_name_matches_format(uuid: Seq<char>, k: ImageKind)
    requires
        is_uuid_text(uuid),
        k != ImageKind::Other,
    ensures
        extension_kind(stored_extension(k)) == Some(k),
        image_mime(imported_name(uuid, stored_extension(k))) == Some(kind_mime(k)),
{
    reveal_strlit("images/");
    reveal_strlit(".");
    reveal_strlit("..");
    reveal_strlit("png");
    reveal_strlit("jpg");
    reveal_strlit("jpeg");
    reveal_strlit("jfif");
    reveal_strlit("apng");
    reveal_strlit("webp");
    reveal_strlit("gif");
    let ext = stored_extension(k);
    assert(ext.len() >= 3);
    assert forall|i: int| 0 <= i < ext.len() implies 'a' <= #[trigger] ext[i] && ext[i] <= 'z' by {}
    let name = imported_name(uuid, ext);
    assert(name.len() == 44 + ext.len());
    assert forall|j: int| 0 <= j < name.len() implies (#[trigger] name[j] == '/' <==> j == 6) && (
    name[j] == '.' <==> j == 43) by {
        if j < 7 {
            assert(name[j] == "images/"@[j]);
        } else if j < 43 {
            assert(name[j] == uuid[j - 7]);
            assert(is_lower_hex_digit(uuid[j - 7]) || uuid[j - 7] == '-');
        } else if j > 43 {
            assert(name[j] == ext[j - 44]);
        }
    }
    lemma_last_index_at(name, '/', 6);
    let rest = name.skip(7);
    assert(rest.len() > 1);
    assert(last_component(name) == rest);
    assert forall|j: int| 36 < j < rest.len() implies rest[j] != '.' by {
        assert(rest[j] == name[j + 7]);
    }
    assert(rest[36] == name[43]);
    lemma_last_index_at(rest, '.', 36);
    assert(rest != seq!['.', '.']);
    assert(rest.skip(37) =~= ext);
    assert(file_extension(rest) == Some(ext));
    assert(ascii_lower(ext) =~= ext);
    assert("png"@ != "jpg"@) by {
        assert("png"@[0] != "jpg"@[0]);
    }
    assert("png"@ != "webp"@) by {
        assert("png"@.len() != "webp"@.len());
    }
    assert("png"@ != "gif"@) by {
        assert("png"@[0] != "gif"@[0]);
    }
    assert("jpg"@ != "jpeg"@ && "jpg"@ != "webp"@ && "jpg"@ != "gif"@ && "jpg"@ != "jfif"@) by {
        assert("jpg"@.len() != "jpeg"@.len());
        assert("jpg"@.len() != "webp"@.len());
        assert("jpg"@[0] != "gif"@[0]);
        assert("jpg"@.len() != "jfif"@.len());
    }
    assert("webp"@ != "jpeg"@ && "webp"@ != "jfif"@ && "webp"@ != "apng"@) by {
        assert("webp"@[0] != "jpeg"@[0]);
        assert("webp"@[0] != "jfif"@[0]);
        assert("webp"@[0] != "apng"@[0]);
    }
    assert("gif"@ != "jpeg"@ && "gif"@ != "jfif"@ && "gif"@ != "apng"@ && "gif"@ != "webp"@) by {
        assert("gif"@.len() != "jpeg"@.len());
        assert("gif"@.len() != "jfif"@.len());
        assert("gif"@.len() != "apng"@.len());
        assert("gif"@.len() != "webp"@.len());
    }
    assert("png"@ != "jpeg"@ && "png"@ != "jfif"@ && "png"@ != "apng"@) by {
        assert("png"@.len() != "jpeg"@.len());
        assert("png"@.len() != "jfif"@.len());
        assert("png"@.len() != "apng"@.len());
    }
}

/// One of the media types an image is embedded as.
pub open spec fn known_mime(m: Seq<char>) -> bool {
    m == "image/png"@ || m == "image/jpeg"@ || m == "image/webp"@ || m == "image/gif"@
}

/// Every character is base64 text.
pub open spec fn all_base64(s: Seq<char>) -> bool {
    forall|i: int| 0 <= i < s.len() ==> is_base64_char(#[trigger] s[i])
}

/// The script is the fixed renderer text with only base64 text and a known
/// media type between its pieces: no theme value appears in it unencoded.
pub open spec fn encoded_only(p: Seq<char>) -> bool {
    exists|css: Seq<char>, mime: Seq<char>, image: Seq<char>|
        #![trigger renderer_script(css, mime, image)]
        all_base64(css) && all_base64(image) && known_mime(mime) && p == renderer_script(
            css,
            mime,
            image,
        )
}

fn push_color_vars(css: &mut String, t: &Theme)
    ensures
        final(css)@ == old(css)@ + color_vars(t.colors@),
{
    let entries = t.colors.entries();
    let ghost s = t.colors@;
    let ghost start = css@;
    let n = entries.len();
    let mut i: usize = 0;
    assert(s.take(0) =~= Seq::<EntryView>::empty());
    assert(css@ =~= start + color_vars(s.take(0)));
    while i < n
        invariant
            n == entries@.len(),
            s == entries@.map_values(|p: (String, String)| pair_view(p)),
            i <= n,
            css@ == start + color_vars(s.take(i as int)),
        decreases n - i,
    {
        push_str(css, "--csw-");
        push_str(css, entries[i].0.as_str());
        push_str(css, ":");
        push_str(css, entries[i].1.as_str());
        push_str(css, ";");
        assert(s.take(i + 1).drop_last() =~= s.take(i as int));
        assert(s.take(i + 1).last() == s[i as int]);
        assert(css@ =~= start + color_vars(s.take(i + 1)));
        i = i + 1;
    }
    assert(s.take(n as int) =~= s);
}

/// Builds the style sheet of a theme.
fn style_sheet_of(t: &Theme, opacity_text: &str) -> (css: String)
    ensures
        css@ == style_sheet(*t, opacity_text@),
{
    let mut css = String::from_str(CSS_OPEN);
    push_color_vars(&mut css, t);
    push_str(&mut css, CSS_BACKDROP);
    push_str(&mut css, opacity_text);
    push_str(&mut css, CSS_BLUR);
    let blur = match t.blur_px { Some(v) => v, None => 0u16 };
    let brightness = match t.brightness_pct { Some(v) => v, None => 100u16 };
    let saturation = match t.saturation_pct { Some(v) => v, None => 100u16 };
    push_decimal(&mut css, blur as u64);
    push_str(&mut css, CSS_BRIGHTNESS);
    push_decimal(&mut css, brightness as u64);
    push_str(&mut css, CSS_SATURATE);
    push_decimal(&mut css, saturation as u64);
    push_str(&mut css, CSS_REST);
    css
}

/// The media type for an imported image path.
pub fn mime_for_image(relative: &str) -> (r: Option<&'static str>)
    ensures
        r matches Some(m) ==> image_mime(relative@) == Some(m@),
        r is None ==> image_mime(relative@) is None,
{
    let name = last_component_of(relative);
    let ext = match extension_of(name.as_str()) {
        Some(e) => e,
        None => String::new(),
    };
    let v = chars_of(ext.as_str());
    let mut lower = String::new();
    let mut i: usize = 0;
    while i < v.len()
        invariant
            i <= v@.len(),
            lower@ == ascii_lower(v@.take(i as int)),
        decreases v@.len() - i,
    {
        push_char(&mut lower, char_ascii_lower(v[i]));
        i = i + 1;
        assert(lower@ =~= ascii_lower(v@.take(i as int)));
    }
    assert(v@.take(v@.len() as int) =~= v@);
    let l = lower.as_str();
    if str_eq(l, "png") {
        Some("image/png")
    } else if str_eq(l, "jpg") || str_eq(l, "jpeg") {
        Some("image/jpeg")
    } else if str_eq(l, "webp") {
        Some("image/webp")
    } else if str_eq(l, "gif") {
        Some("image/gif")
    } else {
        None
    }
}

/// Builds the renderer script for a theme.
///
/// `opacity_text` is the text `Display` gives the theme's opacity as an
/// `f32` (`1` when the theme sets none). `image` holds the bytes of the file
/// that [`background_image_path`] names; it is looked at only when the theme
/// has a background image (pass an empty slice otherwise).
pub fn render_payload(theme: &Theme, opacity_text: &str, image: &[u8]) -> (r: Result<
    String,
    AppError,
>)
    ensures
        match payload_outcome(*theme, opacity_text@, image@) {
            Ok(p) => r matches Ok(s) && s@ == p,
            Err(m) => r matches Err(e) && e.is_validation(m),
        },
        r matches Ok(s) ==> encoded_only(s@),
{
    match theme.validate() {
        Ok(()) => {},
        Err(e) => return Err(e),
    }
    let css = style_sheet_of(theme, opacity_text);
    let css64 = base64_encode(css.as_str().as_bytes());
    let (mime, image64) = match &theme.background_image {
        None => ("image/png", String::new()),
        Some(relative) => {
            let bytes = image;
            if bytes.len() > MAX_EMBEDDED_IMAGE_BYTES {
                return Err(validation("imported image is too large"));
            }
            match mime_for_image(relative.as_str()) {
                Some(m) => (m, base64_encode(bytes)),
                None => return Err(validation("unsupported imported image extension")),
            }
        },
    };
    let mut out = String::from_str(SCRIPT_HEAD);
    push_str(&mut out, css64.as_str());
    push_str(&mut out, SCRIPT_IMAGE_TEST);
    push_str(&mut out, image64.as_str());
    push_str(&mut out, SCRIPT_DATA_URL);
    push_str(&mut out, mime);
    push_str(&mut out, SCRIPT_BASE64);
    push_str(&mut out, image64.as_str());
    push_str(&mut out, SCRIPT_TAIL);
    proof {
        lemma_base64_alphabet(encode_utf8(css@));
        lemma_base64_alphabet(image@);
    }
    assert(known_mime(mime@) && all_base64(css64@) && all_base64(image64@));
    assert(out@ == renderer_script(css64@, mime@, image64@));
    Ok(out)
}


// ----- evaluating over the DevTools protocol -----
/// How `serde_json` writes one character inside a string: `"` and `\`
/// escaped, the short escapes for backspace, tab, line feed, form feed and
/// carriage return, `\u00xx` (lowercase hex) for the other control
/// characters below U+0020, every other character as it is.
pub open spec fn json_escape(c: char) -> Seq<char> {
    if c == '"' {
        seq!['\\', '"']
    } else if c == '\\' {
        seq!['\\', '\\']
    } else if c == '\u{8}' {
        seq!['\\', 'b']
    } else if c == '\t' {
        seq!['\\', 't']
    } else if c == '\n' {
        seq!['\\', 'n']
    } else if c == '\u{c}' {
        seq!['\\', 'f']
    } else if c == '\r' {
        seq!['\\', 'r']
    } else if (c as int) < 0x20 {
        seq!['\\', 'u', '0', '0', hex_digit(c as int / 16), hex_digit(c as int % 16)]
    } else {
        seq![c]
    }
}

/// Every character of `s` written as in a JSON string.
pub open spec fn json_escaped(s: Seq<char>) -> Seq<char>
    decreases s.len(),
{
    if s.len() == 0 {
        Seq::empty()
    } else {
        json_escaped(s.drop_last()) + json_escape(s.last())
    }
}

/// The JSON string literal of a text, as `serde_json` writes it.
pub open spec fn json_string_literal(s: Seq<char>) -> Seq<char> {
    seq!['"'] + json_escaped(s) + seq!['"']
}

/// `serde_json::Value::String(s.to_owned()).to_string()`: the text as a JSON
/// string literal, escaped as the crate's `ESCAPE` table and
/// `write_char_escape` give; writing a string value cannot fail.
#[verifier::external_body]
fn json_string(s: &str) -> (r: String)
    ensures
        r@ == json_string_literal(s@),
{
    serde_json::Value::String(s.to_owned()).to_string()
}

/// The `Runtime.evaluate` request (id 1) for an expression, awaiting a
/// promise and returning by value; object keys are in `serde_json`'s order.
pub open spec fn evaluate_request(expression: Seq<char>) -> Seq<char> {
    "{\"id\":1,\"method\":\"Runtime.evaluate\",\"params\":{\"awaitPromise\":true,\"expression\":"@
        + json_string_literal(expression) + ",\"returnByValue\":true}}"@
}

/// One evaluation to perform: connect to `address`, open the WebSocket at
/// `url` and send `request`.
#[derive(Debug)]
pub struct CdpCall {
    pub url: UrlParts,
    pub address: String,
    pub request: String,
}

/// `c` is the evaluation of `expression` on the page whose checked URL is
/// `u`, on `port`.
pub open spec fn is_call_for(c: CdpCall, u: UrlView, port: u16, expression: Seq<char>) -> bool {
    &&& c.url@ == u
    &&& c.address@ == "127.0.0.1:"@ + dec(port as nat)
    &&& c.request@ == evaluate_request(expression)
}

/// Every evaluation prepared for a target reaches only the loopback address
/// on the DevTools port, over `ws`, at the exact page path of that target,
/// with no query, fragment or credentials.
pub proof fn lemma_call_stays_on_loopback(
    c: CdpCall,
    raw: Seq<char>,
    port: u16,
    id: Seq<char>,
    expression: Seq<char>,
)
    requires
        ws_url_outcome(raw, port, id) matches Ok(u) && is_call_for(c, u, port, expression),
    ensures
        c.address@ == "127.0.0.1:"@ + dec(port as nat),
        c.url@.scheme == "ws"@,
        c.url@.host == Some("127.0.0.1"@),
        c.url@.port == Some(port),
        c.url@.path == "/devtools/page/"@ + id,
        c.url@.query is None,
        c.url@.fragment is None,
        c.url@.username.len() == 0,
        c.url@.password is None,
{
}

/// Prepares the evaluation of `expression` on DevTools target `id`: its
/// WebSocket URL must pass the check first.
pub fn prepare_evaluate(raw: &str, port: u16, id: &str, expression: &str) -> (r: Result<CdpCall, AppError>)
    ensures
        match ws_url_outcome(raw@, port, id@) {
            Ok(u) => r matches Ok(c) && is_call_for(c, u, port, expression@),
            Err(m) => r matches Err(e) && e.is_cdp(m),
        },
{
    let url = match validate_target_ws_url(raw, port, id) {
        Ok(u) => u,
        Err(e) => return Err(e),
    };
    let mut address = String::from_str("127.0.0.1:");
    push_decimal(&mut address, port as u64);
    let mut request = String::from_str(
        "{\"id\":1,\"method\":\"Runtime.evaluate\",\"params\":{\"awaitPromise\":true,\"expression\":",
    );
    let literal = json_string(expression);
    push_str(&mut request, literal.as_str());
    push_str(&mut request, ",\"returnByValue\":true}}");
    Ok(CdpCall { url, address, request })
}

/// Prepares applying a theme to target `id`: the payload is rendered first,
/// then the target's URL is checked.
pub fn apply(raw: &str, port: u16, id: &str, theme: &Theme, opacity_text: &str, image: &[u8]) -> (r:
    Result<CdpCall, AppError>)
    ensures
        match payload_outcome(*theme, opacity_text@, image@) {
            Err(m) => r matches Err(e) && e.is_validation(m),
            Ok(p) => match ws_url_outcome(raw@, port, id@) {
                Ok(u) => r matches Ok(c) && is_call_for(c, u, port, p),
                Err(m) => r matches Err(e) && e.is_cdp(m),
            },
        },
{
    let payload = match render_payload(theme, opacity_text, image) {
        Ok(p) => p,
        Err(e) => return Err(e),
    };
    prepare_evaluate(raw, port, id, payload.as_str())
}

/// Prepares removing the workshop's style from target `id`.
pub fn restore(raw: &str, port: u16, id: &str) -> (r: Result<CdpCall, AppError>)
    ensures
        match ws_url_outcome(raw@, port, id@) {
            Ok(u) => r matches Ok(c) && is_call_for(c, u, port, RESTORE_PAYLOAD@),
            Err(m) => r matches Err(e) && e.is_cdp(m),
        },
{
    prepare_evaluate(raw, port, id, RESTORE_PAYLOAD)
}

/// What arrived on the WebSocket while waiting for the reply.
#[derive(Debug)]
pub enum CdpEvent {
    /// A text message holding a JSON value: its `id` as an unsigned integer
    /// if it is one, its `error` member written as JSON if present, and
    /// whether it has `result.exceptionDetails`.
    Reply { id: Option<u64>, error: Option<String>, has_exception: bool },
    /// The peer closed the connection.
    Closed,
    /// Any other message.
    Other,
    /// Reading timed out or would block.
    TimedOut,
    /// Reading failed otherwise, with this message.
    Failed(String),
}

/// What `serde_json` reads from the text of a DevTools message: `None` when
/// it is not JSON; otherwise its `id` member as an unsigned integer (when it
/// is one), its `error` member written back as JSON (when present), and
/// whether it has `result.exceptionDetails`.
pub uninterp spec fn json_reply(text: Seq<char>) -> Option<(Option<u64>, Option<Seq<char>>, bool)>;

/// `serde_json::from_str::<serde_json::Value>(text)`, the value read back
/// through `get("id")` and `as_u64`, `get("error")` written with
/// `to_string`, and `pointer("/result/exceptionDetails")`. The contract names
/// the result; the error is the crate's.
#[verifier::external_body]
fn parse_reply(text: &str) -> (r: Result<(Option<u64>, Option<String>, bool), serde_json::Error>)
    ensures
        match r {
            Ok((id, error, exception)) => json_reply(text@) == Some((id, opt_view(error), exception)),
            Err(_) => json_reply(text@) is None,
        },
{
    match serde_json::from_str::<serde_json::Value>(text) {
        Ok(reply) => Ok((
            reply.get("id").and_then(serde_json::Value::as_u64),
            reply.get("error").map(|e| e.to_string()),
            reply.pointer("/result/exceptionDetails").is_some(),
        )),
        Err(e) => Err(e),
    }
}

/// The event a text message stands for: a reply with the members the
/// evaluation looks at, or the JSON error when the text is not JSON.
pub fn reply_event(text: &str) -> (r: Result<CdpEvent, AppError>)
    ensures
        match json_reply(text@) {
            None => r matches Err(e) && e is Json,
            Some((id, error, exception)) => r matches Ok(CdpEvent::Reply { id: i, error: m, has_exception: h })
                && i == id && opt_view(m) == error && h == exception,
        },
{
    match parse_reply(text) {
        Ok((id, error, has_exception)) => Ok(CdpEvent::Reply { id, error, has_exception }),
        Err(e) => Err(AppError::Json(e)),
    }
}

/// What to do next.
#[derive(Debug)]
pub enum CdpStep {
    KeepReading,
    Done(Result<(), AppError>),
}

/// The step taken on an event.
pub open spec fn step_is(step: CdpStep, event: CdpEvent) -> bool {
    match event {
        CdpEvent::Reply { id, error, has_exception } => if id == Some(1u64) {
            match error {
                Some(m) => step matches CdpStep::Done(Err(e)) && e.is_cdp(m@),
                None => if has_exception {
                    step matches CdpStep::Done(Err(e)) && e.is_cdp(
                        "renderer evaluation raised an exception"@,
                    )
                } else {
                    step matches CdpStep::Done(Ok(_))
                },
            }
        } else {
            step is KeepReading
        },
        CdpEvent::Closed => step matches CdpStep::Done(Err(e)) && e.is_cdp(
            "websocket closed before response"@,
        ),
        CdpEvent::Other => step is KeepReading,
        CdpEvent::TimedOut => step matches CdpStep::Done(Err(e)) && e.is_cdp("CDP response timed out"@),
        CdpEvent::Failed(m) => step matches CdpStep::Done(Err(e)) && e.is_cdp(m@),
    }
}

/// A reply to request 1 that carries an `error` member ends the evaluation
/// with a DevTools error whose message is that member, whether or not the
/// reply also reports an exception.
pub proof fn lemma_error_reply_fails(step: CdpStep, m: String, has_exception: bool)
    requires
        step_is(step, CdpEvent::Reply { id: Some(1u64), error: Some(m), has_exception }),
    ensures
        step matches CdpStep::Done(Err(e)) && e is Cdp && e->Cdp_0@ == m@,
{
}

/// The evaluation succeeds only on a reply to request 1 with neither an
/// `error` member nor `result.exceptionDetails`, and always on such a reply.
pub proof fn lemma_success_only_on_clean_reply(step: CdpStep, event: CdpEvent)
    requires
        step_is(step, event),
    ensures
        (step matches CdpStep::Done(Ok(_))) <==> (event matches CdpEvent::Reply {
            id: Some(i),
            error: None,
            has_exception: false,
        } && i == 1),
{
}

/// A reply to any other request, or a message that is not a reply, never
/// ends the evaluation; a closed connection, a timeout or a read failure
/// always ends it with a DevTools error.
pub proof fn lemma_only_request_one_decides(step: CdpStep, event: CdpEvent)
    requires
        step_is(step, event),
    ensures
        (event matches CdpEvent::Reply { id, .. } && id != Some(1u64)) ==> step is KeepReading,
        event is Other ==> step is KeepReading,
        (event is Closed || event is TimedOut || event is Failed) ==> (step matches CdpStep::Done(
            Err(e),
        ) && e is Cdp),
{
}

/// Decides what an event means for the evaluation: only the reply to
/// request 1 ends it, with its error, a renderer exception, or success.
pub fn evaluate_step(event: CdpEvent) -> (step: CdpStep)
    ensures
        step_is(step, event),
{
    match event {
        CdpEvent::Reply { id, error, has_exception } => {
            if id == Some(1u64) {
                match error {
                    Some(m) => CdpStep::Done(Err(AppError::Cdp(m))),
                    None => if has_exception {
                        CdpStep::Done(Err(cdp_error("renderer evaluation raised an exception")))
                    } else {
                        CdpStep::Done(Ok(()))
                    },
                }
            } else {
                CdpStep::KeepReading
            }
        },
        CdpEvent::Closed => CdpStep::Done(Err(cdp_error("websocket closed before response"))),
        CdpEvent::Other => CdpStep::KeepReading,
        CdpEvent::TimedOut => CdpStep::Done(Err(cdp_error("CDP response timed out"))),
        CdpEvent::Failed(m) => CdpStep::Done(Err(AppError::Cdp(m))),
    }
}

/// The image file a theme's payload embeds: the theme is checked first,
/// then its background image path is joined to the store root, as
/// `Path::join` does on the operating system `os`.
pub fn background_image_path(theme: &Theme, os: HostOs, store_root: &str) -> (r: Result<
    Option<String>,
    AppError,
>)
    ensures
        r is Ok <==> valid_theme(*theme),
        r matches Err(e) ==> e.is_validation(theme_violation(*theme)->0),
        r matches Ok(p) ==> match theme.background_image {
            Some(rel) => p matches Some(path) && path@ == os_join(os, store_root@, rel@),
            None => p is None,
        },
{
    match theme.validate() {
        Ok(()) => {},
        Err(e) => return Err(e),
    }
    match &theme.background_image {
        None => Ok(None),
        Some(rel) => match crate::image_tools::resolve_imported_image(os, store_root, rel.as_str()) {
            Ok(p) => Ok(Some(p)),
            Err(e) => Err(e),
        },
    }
}

} // verus!
