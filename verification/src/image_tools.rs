//! Importing a background image: which files are accepted, what name the
//! re-encoded copy gets, and the color palette suggested from it.
use std::io::Cursor;
use vstd::prelude::*;

use crate::error::{validation, AppError};
use crate::ids::{is_lower_hex_digit, is_uuid_text, is_uuid_v4_text, new_uuid_v4};
use crate::store::ThemeStore;
use crate::text::{
    ascii_lower, char_ascii_lower, chars_of, contains_seq, extension_of, file_extension,
    join_path, occurs_at, os_join, os_path_join, push_char, push_str, starts_with, str_eq, HostOs,
};
use crate::theme::{outcome_matches, valid_image_ref, is_image_ref};

verus! {

#[verifier::external_type_specification]
#[verifier::external_body]
pub struct ExDynamicImage(image::DynamicImage);

/// The largest image file that is imported.
pub const MAX_IMAGE_BYTES: u64 = 26214400;

/// The largest image, in pixels, that is imported.
pub const MAX_PIXELS: u64 = 40000000;

/// The image formats told apart on import; `Other` is any other format the
/// `image` crate knows.
#[derive(Debug, Clone, Copy, PartialEq, Eq, Structural)]
pub enum ImageKind {
    Png,
    Jpeg,
    WebP,
    Gif,
    Other,
}

/// An imported image, as reported to the user interface.
#[derive(Debug)]
pub struct ImportedImage {
    pub relative_path: String,
    pub absolute_path: String,
    pub width: u32,
    pub height: u32,
    pub palette: Vec<String>,
}

/// A decoded image ready to be re-encoded into the store.
pub struct DecodedImage {
    pub image: image::DynamicImage,
    pub kind: ImageKind,
    pub width: u32,
    pub height: u32,
}

// ----- checks on the source file -----
/// Checks the metadata of the file to import: a regular file of at most
/// 25 MiB.
pub fn check_import_source(is_file: bool, len: u64) -> (r: Result<(), AppError>)
    ensures
        outcome_matches(
            r,
            if is_file && len <= MAX_IMAGE_BYTES {
                None
            } else {
                Some("图片必须是普通文件，且不能超过 25 MiB"@)
            },
        ),
{
    if !is_file || len > MAX_IMAGE_BYTES {
        return Err(validation("图片必须是普通文件，且不能超过 25 MiB"));
    }
    Ok(())
}

// ----- format detection -----
pub open spec fn bytes_start_with(b: Seq<u8>, sig: Seq<u8>) -> bool {
    sig.len() <= b.len() && b.take(sig.len() as int) == sig
}

/// The signature PNG files start with.
pub open spec fn png_signature() -> Seq<u8> {
    seq![0x89u8, 0x50u8, 0x4eu8, 0x47u8, 0x0du8, 0x0au8, 0x1au8, 0x0au8]
}

/// `RIFF`, four bytes of length, then `WEBP`.
pub open spec fn is_webp_header(b: Seq<u8>) -> bool {
    &&& b.len() >= 12
    &&& b.take(4) == seq![0x52u8, 0x49u8, 0x46u8, 0x46u8]
    &&& b.subrange(8, 12) == seq![0x57u8, 0x45u8, 0x42u8, 0x50u8]
}

/// What `image::guess_format` recognizes in these bytes, if anything.
pub uninterp spec fn guessed_kind(bytes: Seq<u8>) -> Option<ImageKind>;

/// `image::guess_format(bytes)`, its format told apart as an `ImageKind`
/// and its error as `None`. The contract names the result and states the
/// magic numbers that the crate's table gives for the four kinds told apart:
/// PNG's signature, `FF D8 FF` for JPEG, `GIF87a`/`GIF89a`, and a RIFF
/// header with `WEBP` at offset 8. These prefixes exclude each other and no
/// other entry of the table yields these kinds.
#[verifier::external_body]
fn guess_kind(bytes: &[u8]) -> (r: Option<ImageKind>)
    ensures
        r == guessed_kind(bytes@),
        (r == Some(ImageKind::Png)) == bytes_start_with(bytes@, png_signature()),
        (r == Some(ImageKind::Jpeg)) == bytes_start_with(bytes@, seq![0xffu8, 0xd8u8, 0xffu8]),
        (r == Some(ImageKind::Gif)) == (bytes_start_with(
            bytes@,
            seq![0x47u8, 0x49u8, 0x46u8, 0x38u8, 0x39u8, 0x61u8],
        ) || bytes_start_with(bytes@, seq![0x47u8, 0x49u8, 0x46u8, 0x38u8, 0x37u8, 0x61u8])),
        (r == Some(ImageKind::WebP)) == is_webp_header(bytes@),
{
    match image::guess_format(bytes) {
        Ok(image::ImageFormat::Png) => Some(ImageKind::Png),
        Ok(image::ImageFormat::Jpeg) => Some(ImageKind::Jpeg),
        Ok(image::ImageFormat::WebP) => Some(ImageKind::WebP),
        Ok(image::ImageFormat::Gif) => Some(ImageKind::Gif),
        Ok(_) => Some(ImageKind::Other),
        Err(_) => None,
    }
}

/// The format `image::ImageFormat::from_extension` gives a lowercase
/// extension.
pub open spec fn extension_kind(e: Seq<char>) -> Option<ImageKind> {
    if e == "jpg"@ || e == "jpeg"@ || e == "jfif"@ {
        Some(ImageKind::Jpeg)
    } else if e == "png"@ || e == "apng"@ {
        Some(ImageKind::Png)
    } else if e == "gif"@ {
        Some(ImageKind::Gif)
    } else if e == "webp"@ {
        Some(ImageKind::WebP)
    } else if e == "avif"@ || e == "tif"@ || e == "tiff"@ || e == "tga"@ || e == "dds"@ || e
        == "bmp"@ || e == "ico"@ || e == "hdr"@ || e == "exr"@ || e == "pbm"@ || e == "pam"@
        || e == "ppm"@ || e == "pgm"@ || e == "pnm"@ || e == "ff"@ || e == "qoi"@ {
        Some(ImageKind::Other)
    } else {
        None
    }
}

/// `image::ImageFormat::from_extension(ext)`, its format told apart as an
/// `ImageKind`. The contract states the crate's table: the extension is
/// lowercased (ASCII) and looked up among the extensions the crate lists.
#[verifier::external_body]
fn kind_from_extension(ext: &str) -> (r: Option<ImageKind>)
    ensures
        r == extension_kind(ascii_lower(ext@)),
{
    match image::ImageFormat::from_extension(ext) {
        Some(image::ImageFormat::Png) => Some(ImageKind::Png),
        Some(image::ImageFormat::Jpeg) => Some(ImageKind::Jpeg),
        Some(image::ImageFormat::WebP) => Some(ImageKind::WebP),
        Some(image::ImageFormat::Gif) => Some(ImageKind::Gif),
        Some(_) => Some(ImageKind::Other),
        None => None,
    }
}

/// The format an import reads the file as: the one its content shows, else
/// the one its file name's extension gives.
pub open spec fn import_kind(bytes: Seq<u8>, file_name: Seq<char>) -> Option<ImageKind> {
    match guessed_kind(bytes) {
        Some(k) => Some(k),
        None => match file_extension(file_name) {
            Some(e) => extension_kind(ascii_lower(e)),
            None => None,
        },
    }
}

/// The extension of the stored copy of an image of this kind.
pub open spec fn stored_extension(k: ImageKind) -> Seq<char> {
    match k {
        ImageKind::Png => "png"@,
        ImageKind::Jpeg => "jpg"@,
        ImageKind::WebP => "webp"@,
        _ => "gif"@,
    }
}

pub fn stored_extension_of(k: ImageKind) -> (r: &'static str)
    requires
        k != ImageKind::Other,
    ensures
        r@ == stored_extension(k),
{
    match k {
        ImageKind::Png => "png",
        ImageKind::Jpeg => "jpg",
        ImageKind::WebP => "webp",
        _ => "gif",
    }
}

/// Determines the format of the file to import from its bytes and, when the
/// bytes show none, from the extension of its name.
pub fn import_format(bytes: &[u8], file_name: &str) -> (r: Result<ImageKind, AppError>)
    ensures
        match import_kind(bytes@, file_name@) {
            None => r matches Err(e) && e.is_validation("无法识别图片格式"@),
            Some(ImageKind::Other) => r matches Err(e) && e.is_validation(
                "仅支持 PNG、JPEG、WebP 和 GIF 图片"@,
            ),
            Some(k) => r == Ok::<ImageKind, AppError>(k),
        },
{
    let kind = match guess_kind(bytes) {
        Some(k) => Some(k),
        None => match extension_of(file_name) {
            Some(e) => kind_from_extension(e.as_str()),
            None => None,
        },
    };
    match kind {
        None => Err(validation("无法识别图片格式")),
        Some(ImageKind::Other) => Err(validation("仅支持 PNG、JPEG、WebP 和 GIF 图片")),
        Some(k) => Ok(k),
    }
}

// ----- decoding -----
/// The dimensions the `image` crate reads from the header of these bytes
/// as an image of this kind, or `None` when it fails.
pub uninterp spec fn decoded_dimensions(bytes: Seq<u8>, kind: ImageKind) -> Option<(u32, u32)>;

/// The image the `image` crate decodes from these bytes as an image of this
/// kind, or `None` when decoding fails.
pub uninterp spec fn decoded_image(bytes: Seq<u8>, kind: ImageKind) -> Option<image::DynamicImage>;

/// `image::ImageReader::with_format(Cursor::new(bytes), format)
/// .into_dimensions()`. The contract names the result; the error is the
/// crate's.
#[verifier::external_body]
fn read_dimensions(bytes: &[u8], kind: ImageKind) -> (r: Result<(u32, u32), image::ImageError>)
    requires
        kind != ImageKind::Other,
    ensures
        r is Ok <==> decoded_dimensions(bytes@, kind) is Some,
        r matches Ok(d) ==> decoded_dimensions(bytes@, kind) == Some(d),
{
    let format = match kind {
        ImageKind::Png => image::ImageFormat::Png,
        ImageKind::Jpeg => image::ImageFormat::Jpeg,
        ImageKind::WebP => image::ImageFormat::WebP,
        _ => image::ImageFormat::Gif,
    };
    image::ImageReader::with_format(Cursor::new(bytes), format).into_dimensions()
}

/// `image::ImageReader::with_format(Cursor::new(bytes), format).decode()`.
/// The contract names the decoded image; the error is the crate's.
#[verifier::external_body]
fn decode_image(bytes: &[u8], kind: ImageKind) -> (r: Result<image::DynamicImage, image::ImageError>)
    requires
        kind != ImageKind::Other,
    ensures
        match r {
            Ok(img) => decoded_image(bytes@, kind) == Some(img),
            Err(_) => decoded_image(bytes@, kind) is None,
        },
{
    let format = match kind {
        ImageKind::Png => image::ImageFormat::Png,
        ImageKind::Jpeg => image::ImageFormat::Jpeg,
        ImageKind::WebP => image::ImageFormat::WebP,
        _ => image::ImageFormat::Gif,
    };
    image::ImageReader::with_format(Cursor::new(bytes), format).decode()
}

/// Reads the file to import: its format, then its dimensions (at most 40
/// million pixels), then its content.
pub fn decode_for_import(bytes: &[u8], file_name: &str) -> (r: Result<DecodedImage, AppError>)
    ensures
        match import_kind(bytes@, file_name@) {
            None => r matches Err(e) && e.is_validation("无法识别图片格式"@),
            Some(ImageKind::Other) => r matches Err(e) && e.is_validation(
                "仅支持 PNG、JPEG、WebP 和 GIF 图片"@,
            ),
            Some(k) => match decoded_dimensions(bytes@, k) {
                None => r matches Err(e) && e is Image,
                Some((w, h)) => if w * h > MAX_PIXELS {
                    r matches Err(e) && e.is_validation("图片尺寸过大"@)
                } else {
                    match decoded_image(bytes@, k) {
                        None => r matches Err(e) && e is Image,
                        Some(img) => r matches Ok(d) && d.image == img && d.kind == k && d.width == w
                            && d.height == h,
                    }
                },
            },
        },
{
    let kind = match import_format(bytes, file_name) {
        Ok(k) => k,
        Err(e) => return Err(e),
    };
    let (width, height) = match read_dimensions(bytes, kind) {
        Ok(d) => d,
        Err(e) => return Err(AppError::Image(e)),
    };
    assert((width as u64) * (height as u64) <= 0xffff_ffffu64 * 0xffff_ffffu64) by (nonlinear_arith)
        requires
            width <= 0xffff_ffffu32,
            height <= 0xffff_ffffu32,
    ;
    if (width as u64) * (height as u64) > MAX_PIXELS {
        return Err(validation("图片尺寸过大"));
    }
    match decode_image(bytes, kind) {
        Ok(image) => Ok(DecodedImage { image, kind, width, height }),
        Err(e) => Err(AppError::Image(e)),
    }
}

// ----- stored names -----
/// The path, relative to the store, of an imported image: `images/`, a
/// UUID, `.` and the extension of its format.
pub open spec fn imported_name(uuid: Seq<char>, ext: Seq<char>) -> Seq<char> {
    "images/"@ + uuid + "."@ + ext
}

/// An imported image is named by a path that `resolve_imported_image` and a
/// theme's background image check both accept.
pub proof fn lemma_imported_name_is_valid_ref(uuid: Seq<char>, k: ImageKind)
    requires
        is_uuid_text(uuid),
        k != ImageKind::Other,
    ensures
        valid_image_ref(imported_name(uuid, stored_extension(k))),
{
    let ext = stored_extension(k);
    reveal_strlit("images/");
    reveal_strlit(".");
    reveal_strlit("..");
    reveal_strlit("png");
    reveal_strlit("jpg");
    reveal_strlit("webp");
    reveal_strlit("gif");
    let s = imported_name(uuid, ext);
    assert(s.len() == 44 + ext.len());
    assert forall|i: int| 0 <= i < s.len() implies (s[i] == '.' <==> i == 43) && s[i] != '\0' && s[i]
        != '\\' by {
        if i < 7 {
            assert(s[i] == "images/"@[i]);
        } else if i < 43 {
            assert(s[i] == uuid[i - 7]);
            assert(is_lower_hex_digit(uuid[i - 7]) || uuid[i - 7] == '-');
        } else if i > 43 {
            assert(s[i] == ext[i - 44]);
        }
    }
    assert(s.take(7) =~= "images/"@);
    assert(!contains_seq(s, ".."@)) by {
        if contains_seq(s, ".."@) {
            let i = choose|i: int| occurs_at(s, ".."@, i);
            assert(s.subrange(i, i + 2)[0] == s[i]);
            assert(s.subrange(i, i + 2)[1] == s[i + 1]);
        }
    }
    assert(!s.contains('\0'));
    assert(!s.contains('\\'));
}

/// Checks the path of an imported image given relative to the store root
/// and joins it to the root, as `Path::join` does on the operating system
/// `os`.
pub fn resolve_imported_image(os: HostOs, root: &str, relative: &str) -> (r: Result<String, AppError>)
    ensures
        r is Ok <==> valid_image_ref(relative@),
        r matches Ok(p) ==> p@ == os_join(os, root@, relative@),
        r matches Err(e) ==> e.is_validation("导入图片路径无效"@),
{
    if !is_image_ref(relative) {
        return Err(validation("导入图片路径无效"));
    }
    Ok(os_path_join(os, root, relative))
}

// ----- palette -----
/// The palette bucket of pixel `k`: the high four bits of its red, green and
/// blue bytes.
pub open spec fn pixel_bucket(px: Seq<u8>, k: int) -> int {
    (px[3 * k] / 16) * 256 + (px[3 * k + 1] / 16) * 16 + (px[3 * k + 2] / 16)
}

/// How many of the first `n` pixels fall in bucket `b`.
pub open spec fn bucket_count(px: Seq<u8>, n: int, b: int) -> nat
    decreases n,
{
    if n <= 0 {
        0
    } else {
        bucket_count(px, n - 1, b) + if pixel_bucket(px, n - 1) == b {
            1nat
        } else {
            0nat
        }
    }
}

/// How many pixels (complete RGB triples) fall in bucket `b`.
pub open spec fn count_in(px: Seq<u8>, b: int) -> nat {
    bucket_count(px, (px.len() / 3) as int, b)
}

pub open spec fn hex_digit(d: int) -> char {
    if d < 10 {
        ('0' as int + d) as char
    } else {
        ('a' as int + d - 10) as char
    }
}

/// Two lowercase hexadecimal digits of a byte, as `{:02x}` writes it.
pub open spec fn hex2(v: int) -> Seq<char> {
    seq![hex_digit(v / 16), hex_digit(v % 16)]
}

/// The color a bucket stands for: each four-bit part times 17, written
/// `#rrggbb`.
pub open spec fn bucket_color(b: int) -> Seq<char> {
    "#"@ + hex2((b / 256) * 17) + hex2(((b / 16) % 16) * 17) + hex2((b % 16) * 17)
}

/// `chosen` lists buckets of the most frequent colors, most frequent first:
/// distinct non-empty buckets, counts never increasing, at most `count` of
/// them, and every bucket left out is empty, or no more frequent than the
/// last one chosen when `count` were chosen.
pub open spec fn is_top_buckets(px: Seq<u8>, count: nat, chosen: Seq<int>) -> bool {
    &&& chosen.len() <= count
    &&& forall|i: int| 0 <= i < chosen.len() ==> 0 <= #[trigger] chosen[i] < 4096 && count_in(px, chosen[i]) > 0
    &&& forall|i: int, j: int| 0 <= i < j < chosen.len() ==> #[trigger] chosen[i] != #[trigger] chosen[j]
    &&& forall|i: int, j: int|
        0 <= i < j < chosen.len() ==> count_in(px, #[trigger] chosen[j]) <= count_in(px, #[trigger] chosen[i])
    &&& forall|b: int|
        0 <= b < 4096 && #[trigger] count_in(px, b) > 0 && !chosen.contains(b) ==> chosen.len() == count
            && (chosen.len() > 0 ==> count_in(px, b) <= count_in(px, chosen.last()))
}

fn hex_digit_of(d: u8) -> (c: char)
    requires
        d < 16,
    ensures
        c == hex_digit(d as int),
{
    if d < 10 {
        (48u8 + d) as char
    } else {
        (87u8 + d) as char
    }
}

fn color_text(b: usize) -> (s: String)
    requires
        b < 4096,
    ensures
        s@ == bucket_color(b as int),
{
    let r = ((b / 256) * 17) as u8;
    let g = (((b / 16) % 16) * 17) as u8;
    let bl = ((b % 16) * 17) as u8;
    let mut s = String::from_str("#");
    push_char(&mut s, hex_digit_of(r / 16));
    push_char(&mut s, hex_digit_of(r % 16));
    push_char(&mut s, hex_digit_of(g / 16));
    push_char(&mut s, hex_digit_of(g % 16));
    push_char(&mut s, hex_digit_of(bl / 16));
    push_char(&mut s, hex_digit_of(bl % 16));
    assert(s@ =~= bucket_color(b as int));
    s
}

/// `r` is a palette of the pixels `px`: the colors of `count` most frequent
/// buckets, most frequent first.
pub open spec fn is_palette_of(r: Seq<String>, px: Seq<u8>, count: nat) -> bool {
    exists|chosen: Seq<int>|
        #![trigger is_top_buckets(px, count, chosen)]
        is_top_buckets(px, count, chosen) && r.len() == chosen.len() && forall|i: int|
            0 <= i < chosen.len() ==> (#[trigger] r[i])@ == bucket_color(chosen[i])
}

/// The buckets at least one pixel falls in.
pub open spec fn used_buckets(px: Seq<u8>) -> Set<int> {
    Set::new(|b: int| 0 <= b < 4096 && count_in(px, b) > 0)
}

/// A palette holds `count` colors, or all the colors in use when there are
/// fewer: its size is the smaller of `count` and the number of buckets in use.
pub proof fn lemma_palette_size(r: Seq<String>, px: Seq<u8>, count: nat)
    requires
        is_palette_of(r, px, count),
    ensures
        used_buckets(px).finite(),
        r.len() == if count <= used_buckets(px).len() {
            count
        } else {
            used_buckets(px).len()
        },
{
    let chosen = choose|chosen: Seq<int>|
        #![trigger is_top_buckets(px, count, chosen)]
        is_top_buckets(px, count, chosen) && r.len() == chosen.len() && forall|i: int|
            0 <= i < chosen.len() ==> (#[trigger] r[i])@ == bucket_color(chosen[i]);
    let used = used_buckets(px);
    vstd::set_lib::lemma_int_range(0, 4096);
    assert(used.subset_of(vstd::set_lib::set_int_range(0, 4096)));
    vstd::set_lib::lemma_len_subset(used, vstd::set_lib::set_int_range(0, 4096));
    assert(chosen.no_duplicates());
    chosen.unique_seq_to_set();
    assert(chosen.to_set().subset_of(used)) by {
        assert forall|b: int| chosen.to_set().contains(b) implies used.contains(b) by {
            let i = chosen.index_of(b);
            assert(chosen[i] == b);
        }
    }
    vstd::set_lib::lemma_len_subset(chosen.to_set(), used);
    if chosen.len() < count {
        assert(used.subset_of(chosen.to_set())) by {
            assert forall|b: int| used.contains(b) implies chosen.to_set().contains(b) by {
                assert(count_in(px, b) > 0);
                if !chosen.contains(b) {
                    assert(chosen.len() == count);
                }
            }
        }
        vstd::set_lib::lemma_len_subset(used, chosen.to_set());
    }
}

/// The palette of a thumbnail given as RGB bytes: the colors of the `count`
/// most frequent buckets, most frequent first.
pub fn palette_from_rgb(px: &[u8], count: usize) -> (r: Vec<String>)
    requires
        px@.len() / 3 <= u32::MAX,
    ensures
        is_palette_of(r@, px@, count as nat),
{
    let n = px.len() / 3;
    let mut counts: Vec<u32> = vec![0u32; 4096];
    let mut k: usize = 0;
    while k < n
        invariant
            n == px@.len() / 3,
            n <= u32::MAX,
            k <= n,
            counts@.len() == 4096,
            forall|b: int| 0 <= b < 4096 ==> #[trigger] counts@[b] == bucket_count(px@, k as int, b),
            forall|b: int| 0 <= b < 4096 ==> #[trigger] bucket_count(px@, k as int, b) <= k,
        decreases n - k,
    {
        let len = px.len();
        assert(3 * k + 2 < len) by (nonlinear_arith)
            requires
                k < n,
                n == len / 3,
        ;
        let i = 3 * k;
        let b = (px[i] / 16) as usize * 256 + (px[i + 1] / 16) as usize * 16 + (px[i + 2] / 16) as usize;
        assert(b == pixel_bucket(px@, k as int));
        let c = counts[b];
        counts.set(b, c + 1);
        assert forall|b2: int| 0 <= b2 < 4096 implies #[trigger] bucket_count(px@, k + 1, b2) <= k + 1
            && counts@[b2] == bucket_count(px@, k + 1, b2) by {
            assert(bucket_count(px@, k + 1, b2) == bucket_count(px@, k as int, b2) + if pixel_bucket(
                px@,
                k as int,
            ) == b2 {
                1nat
            } else {
                0nat
            });
        }
        k = k + 1;
    }
    let mut taken: Vec<bool> = vec![false; 4096];
    let mut result: Vec<String> = Vec::new();
    let ghost mut chosen: Seq<int> = Seq::empty();
    while result.len() < count
        invariant
            counts@.len() == 4096,
            taken@.len() == 4096,
            forall|b: int| 0 <= b < 4096 ==> #[trigger] counts@[b] == count_in(px@, b),
            result@.len() == chosen.len(),
            chosen.len() <= count,
            forall|i: int| 0 <= i < chosen.len() ==> (#[trigger] result@[i])@ == bucket_color(chosen[i]),
            forall|b: int| 0 <= b < 4096 ==> (#[trigger] taken@[b] <==> chosen.contains(b)),
            forall|i: int| 0 <= i < chosen.len() ==> 0 <= #[trigger] chosen[i] < 4096 && count_in(px@, chosen[i]) > 0,
            forall|i: int, j: int| 0 <= i < j < chosen.len() ==> #[trigger] chosen[i] != #[trigger] chosen[j],
            forall|i: int, j: int|
                0 <= i < j < chosen.len() ==> count_in(px@, #[trigger] chosen[j]) <= count_in(px@, #[trigger] chosen[i]),
            chosen.len() > 0 ==> forall|b: int|
                0 <= b < 4096 && !chosen.contains(b) ==> #[trigger] count_in(px@, b) <= count_in(px@, chosen.last()),
        ensures
            is_top_buckets(px@, count as nat, chosen),
            result@.len() == chosen.len(),
            forall|i: int| 0 <= i < chosen.len() ==> (#[trigger] result@[i])@ == bucket_color(chosen[i]),
        decreases count - result@.len(),
    {
        let mut best: usize = 4096;
        let mut best_count: u32 = 0;
        let mut b: usize = 0;
        while b < 4096
            invariant
                counts@.len() == 4096,
                taken@.len() == 4096,
                b <= 4096,
                best <= 4096,
                best == 4096 ==> best_count == 0,
                best < 4096 ==> best < b && !taken@[best as int] && best_count == counts@[best as int]
                    && best_count > 0,
                forall|c: int| 0 <= c < b && !taken@[c] ==> #[trigger] counts@[c] <= best_count,
            decreases 4096 - b,
        {
            if !taken[b] && counts[b] > best_count {
                best = b;
                best_count = counts[b];
            }
            b = b + 1;
        }
        if best == 4096 {
            proof {
                assert forall|c: int|
                    0 <= c < 4096 && #[trigger] count_in(px@, c) > 0 && !chosen.contains(c) implies chosen.len()
                        == count && (chosen.len() > 0 ==> count_in(px@, c) <= count_in(
                        px@,
                        chosen.last(),
                    )) by {
                    assert(counts@[c] == count_in(px@, c));
                    assert(!taken@[c]);
                }
            }
            break;
        }
        let ghost old_chosen = chosen;
        taken.set(best, true);
        result.push(color_text(best));
        proof {
            chosen = old_chosen.push(best as int);
            assert(!old_chosen.contains(best as int));
            assert forall|b2: int| 0 <= b2 < 4096 implies (#[trigger] taken@[b2] <==> chosen.contains(b2)) by {
                if b2 == best {
                    assert(chosen[chosen.len() - 1] == best);
                } else {
                    if old_chosen.contains(b2) {
                        let i = choose|i: int| 0 <= i < old_chosen.len() && old_chosen[i] == b2;
                        assert(chosen[i] == b2);
                    }
                    if chosen.contains(b2) {
                        let i = choose|i: int| 0 <= i < chosen.len() && chosen[i] == b2;
                        assert(i < old_chosen.len());
                        assert(old_chosen[i] == b2);
                    }
                }
            }
            assert forall|i: int| 0 <= i < chosen.len() implies (#[trigger] result@[i])@ == bucket_color(chosen[i]) by {
                if i < old_chosen.len() {
                    assert(chosen[i] == old_chosen[i]);
                }
            }
            assert forall|i: int, j: int| 0 <= i < j < chosen.len() implies #[trigger] chosen[i]
                != #[trigger] chosen[j] by {
                if j == old_chosen.len() {
                    assert(old_chosen.contains(chosen[i]) ==> chosen[i] != best) by {
                        assert(old_chosen[i] == chosen[i]);
                    }
                    assert(old_chosen[i] == chosen[i]);
                    assert(old_chosen.contains(old_chosen[i]));
                }
            }
            assert forall|i: int, j: int|
                0 <= i < j < chosen.len() implies count_in(px@, #[trigger] chosen[j]) <= count_in(
                px@,
                #[trigger] chosen[i],
            ) by {
                if j == old_chosen.len() {
                    assert(old_chosen[i] == chosen[i]);
                    if i < old_chosen.len() - 1 {
                        assert(count_in(px@, old_chosen.last()) <= count_in(px@, old_chosen[i]));
                    }
                }
            }
            assert forall|c: int|
                0 <= c < 4096 && !chosen.contains(c) implies #[trigger] count_in(px@, c) <= count_in(
                px@,
                chosen.last(),
            ) by {
                assert(chosen.last() == best);
                assert(!old_chosen.contains(c)) by {
                    if old_chosen.contains(c) {
                        let i = choose|i: int| 0 <= i < old_chosen.len() && old_chosen[i] == c;
                        assert(chosen[i] == c);
                    }
                }
                assert(!taken@[c] || c == best);
                assert(counts@[c] == count_in(px@, c));
            }
        }
    }
    proof {
        let c = chosen;
        assert(is_top_buckets(px@, count as nat, c));
    }
    result
}

/// The resampling filters of `image::imageops::FilterType`.
#[derive(Debug, Clone, Copy, PartialEq, Eq, Structural)]
pub enum ResizeFilter {
    Nearest,
    Triangle,
    CatmullRom,
    Gaussian,
    Lanczos3,
}

/// The side of the square a palette thumbnail fits in, in pixels.
pub const THUMBNAIL_SIDE: u32 = 96;

/// The RGB bytes of an image (a pixel buffer) resized to fit within `width`
/// by `height` pixels with `filter`: what
/// `image.resize(width, height, filter).to_rgb8().into_raw()` holds.
pub uninterp spec fn thumbnail_pixels(
    image: image::DynamicImage,
    width: u32,
    height: u32,
    filter: ResizeFilter,
) -> Seq<u8>;

/// `image.resize(width, height, filter).to_rgb8().into_raw()`: the pixels
/// of a thumbnail as RGB bytes. The contract names the result and claims
/// what the crate's source gives: the resized image keeps the aspect ratio
/// within `width` by `height` pixels (at least one pixel each way) and has
/// three bytes per pixel; the pixel values are not written out.
#[verifier::external_body]
fn thumbnail_rgb(image: &image::DynamicImage, width: u32, height: u32, filter: ResizeFilter) -> (r: Vec<u8>)
    requires
        1 <= width,
        1 <= height,
    ensures
        r@ == thumbnail_pixels(*image, width, height, filter),
        r@.len() % 3 == 0,
        r@.len() <= 3 * width * height,
{
    let filter = match filter {
        ResizeFilter::Nearest => image::imageops::FilterType::Nearest,
        ResizeFilter::Triangle => image::imageops::FilterType::Triangle,
        ResizeFilter::CatmullRom => image::imageops::FilterType::CatmullRom,
        ResizeFilter::Gaussian => image::imageops::FilterType::Gaussian,
        ResizeFilter::Lanczos3 => image::imageops::FilterType::Lanczos3,
    };
    image.resize(width, height, filter).to_rgb8().into_raw()
}

/// The pixels a palette is taken from: the image resized, with the triangle
/// filter, to fit within 96 by 96 pixels.
pub open spec fn palette_pixels(image: image::DynamicImage) -> Seq<u8> {
    thumbnail_pixels(image, THUMBNAIL_SIDE, THUMBNAIL_SIDE, ResizeFilter::Triangle)
}

/// The palette suggested for an image: the `count` most frequent colors of
/// its 96-pixel thumbnail, reduced to 4 bits per channel.
pub fn extract_palette(image: &image::DynamicImage, count: usize) -> (r: Vec<String>)
    ensures
        is_palette_of(r@, palette_pixels(*image), count as nat),
{
    let px = thumbnail_rgb(image, THUMBNAIL_SIDE, THUMBNAIL_SIDE, ResizeFilter::Triangle);
    palette_from_rgb(px.as_slice(), count)
}

// ----- the import -----
/// The number of palette colors suggested for an imported image.
pub const PALETTE_SIZE: usize = 6;

/// `r` is what importing `bytes`, named `file_name`, into the store rooted
/// at `root` gives once the size is within bounds: the format, dimension and
/// decoding errors in that order, or the stored copy's name, the
/// dimensions and the palette of the decoded image.
pub open spec fn import_outcome(
    r: Result<(ImportedImage, DecodedImage), AppError>,
    os: HostOs,
    root: Seq<char>,
    bytes: Seq<u8>,
    file_name: Seq<char>,
) -> bool {
    match import_kind(bytes, file_name) {
        None => r matches Err(e) && e.is_validation("无法识别图片格式"@),
        Some(ImageKind::Other) => r matches Err(e) && e.is_validation("仅支持 PNG、JPEG、WebP 和 GIF 图片"@),
        Some(k) => match decoded_dimensions(bytes, k) {
            None => r matches Err(e) && e is Image,
            Some((w, h)) => if w * h > MAX_PIXELS {
                r matches Err(e) && e.is_validation("图片尺寸过大"@)
            } else {
                match decoded_image(bytes, k) {
                    None => r matches Err(e) && e is Image,
                    Some(img) => r matches Ok((info, d)) && d.image == img && d.kind == k && d.width == w
                        && d.height == h && info.width == w && info.height == h && is_palette_of(
                        info.palette@,
                        palette_pixels(img),
                        PALETTE_SIZE as nat,
                    ) && valid_image_ref(info.relative_path@) && (exists|u: Seq<char>|
                        is_uuid_v4_text(u) && info.relative_path@ == imported_name(u, stored_extension(k)))
                        && info.absolute_path@ == os_join(os, root, info.relative_path@),
                }
            },
        },
    }
}

/// Imports the bytes of an image file named `file_name`: checks their size
/// (at most 25 MiB), decodes them, names the stored copy
/// `images/<uuid>.<ext>` in `store` with a fresh version-4 UUID, and suggests
/// a palette. The caller writes the decoded image, in its format, to
/// `absolute_path`.
pub fn import_image(store: &ThemeStore, bytes: &[u8], file_name: &str) -> (r: Result<
    (ImportedImage, DecodedImage),
    AppError,
>)
    ensures
        if bytes@.len() > MAX_IMAGE_BYTES {
            r matches Err(e) && e.is_validation("图片必须是普通文件，且不能超过 25 MiB"@)
        } else {
            import_outcome(r, store.host(), store@, bytes@, file_name@)
        },
{
    match check_import_source(true, bytes.len() as u64) {
        Ok(()) => {},
        Err(e) => return Err(e),
    }
    let decoded = match decode_for_import(bytes, file_name) {
        Ok(d) => d,
        Err(e) => return Err(e),
    };
    let ext = stored_extension_of(decoded.kind);
    let uuid = new_uuid_v4();
    let mut relative_path = String::from_str("images/");
    push_str(&mut relative_path, uuid.as_str());
    push_str(&mut relative_path, ".");
    push_str(&mut relative_path, ext);
    proof {
        lemma_imported_name_is_valid_ref(uuid@, decoded.kind);
    }
    assert(relative_path@ == imported_name(uuid@, stored_extension(decoded.kind)));
    let absolute_path = os_path_join(store.os(), store.root(), relative_path.as_str());
    let palette = extract_palette(&decoded.image, PALETTE_SIZE);
    let info = ImportedImage {
        relative_path,
        absolute_path,
        width: decoded.width,
        height: decoded.height,
        palette,
    };
    Ok((info, decoded))
}

} // verus!
