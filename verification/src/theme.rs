//! Themes: value-only descriptions of a Codex skin, and the rules a theme
//! must meet before it is stored, exported or rendered.
use vstd::prelude::*;

use crate::color_map::{keys_ascending, ColorMap, EntryView, pair_view};
use crate::error::{validation, AppError};
use crate::text::{
    lemma_seq_lt_irreflexive, seq_lt,
    blank, contains_seq, dec, is_white_space, is_ascii_alphanumeric, is_ascii_hexdigit, push_decimal, push_str,
    starts_with, str_contains_char, str_contains_pair, str_eq, str_is_blank, str_starts_with,
};

verus! {

/// The only theme file format this workshop reads; also the value a theme
/// file without `schema_version` gets.
pub fn schema_version() -> (v: u16)
    ensures
        v == 1,
{
    1
}

/// A theme. It holds values only: text, colors, numbers and flags, never CSS
/// or script.
///
/// `opacity` and `panel_opacity` are `f32` values held as their IEEE-754
/// bit patterns (`f32::to_bits`).
#[derive(Debug, PartialEq)]
pub struct Theme {
    pub schema_version: u16,
    pub id: String,
    pub name: String,
    pub subtitle: String,
    pub tagline: String,
    pub project_prefix: String,
    pub project_label: String,
    pub status_text: String,
    pub quote: String,
    pub colors: ColorMap,
    pub background_image: Option<String>,
    pub opacity: Option<u32>,
    pub blur_px: Option<u16>,
    pub brightness_pct: Option<u16>,
    pub saturation_pct: Option<u16>,
    pub image_position_x_pct: Option<u16>,
    pub image_position_y_pct: Option<u16>,
    pub image_scale_pct: Option<u16>,
    pub panel_opacity: Option<u32>,
    pub panel_blur_px: Option<u16>,
    pub corner_radius_px: Option<u16>,
    pub content_max_width_px: Option<u16>,
    pub show_brand: Option<bool>,
    pub show_status: Option<bool>,
    pub show_quote: Option<bool>,
    pub show_orbit: Option<bool>,
    pub show_particles: Option<bool>,
    pub particle_count: Option<u8>,
}

/// `r` is `Ok` exactly when there is no violation, and otherwise the
/// validation error whose message is the violation.
pub open spec fn outcome_matches(r: Result<(), AppError>, violation: Option<Seq<char>>) -> bool {
    match r {
        Ok(_) => violation is None,
        Err(e) => violation is Some && e.is_validation(violation->0),
    }
}

/// The first of two checks that fails.
pub open spec fn first_of(a: Option<Seq<char>>, b: Option<Seq<char>>) -> Option<Seq<char>> {
    if a is Some {
        a
    } else {
        b
    }
}

// ----- theme ids -----
pub open spec fn is_id_char(c: char) -> bool {
    is_ascii_alphanumeric(c) || c == '-' || c == '_'
}

/// 1 to 80 characters, each an ASCII letter, digit, `-` or `_`. (Such a text
/// is ASCII, so its byte length and character count agree.)
pub open spec fn valid_theme_id(s: Seq<char>) -> bool {
    &&& 1 <= s.len() <= 80
    &&& forall|i: int| 0 <= i < s.len() ==> is_id_char(#[trigger] s[i])
}

fn id_is_valid(id: &str) -> (r: bool)
    ensures
        r == valid_theme_id(id@),
{
    let n = id.unicode_len();
    if n == 0 || n > 80 {
        return false;
    }
    let mut i: usize = 0;
    while i < n
        invariant
            n == id@.len(),
            i <= n,
            forall|k: int| 0 <= k < i ==> is_id_char(#[trigger] id@[k]),
        decreases n - i,
    {
        let c = id.get_char(i);
        if !(('0' <= c && c <= '9') || ('a' <= c && c <= 'z') || ('A' <= c && c <= 'Z') || c
            == '-' || c == '_') {
            return false;
        }
        i = i + 1;
    }
    true
}

/// Checks a theme id given on its own (when a theme is deleted).
pub fn validate_theme_id(id: &str) -> (r: Result<(), AppError>)
    ensures
        outcome_matches(
            r,
            if valid_theme_id(id@) {
                None
            } else {
                Some("主题 ID 无效"@)
            },
        ),
{
    if !id_is_valid(id) {
        return Err(validation("主题 ID 无效"));
    }
    Ok(())
}

// ----- text fields -----
/// Non-blank unless empty text is allowed, at most `max` characters, no NUL.
pub open spec fn text_ok(v: Seq<char>, max: nat, allow_empty: bool) -> bool {
    &&& allow_empty || !blank(v)
    &&& v.len() <= max
    &&& !v.contains('\0')
}

pub open spec fn length_message(label: Seq<char>) -> Seq<char> {
    label + "长度不符合要求"@
}

pub open spec fn text_check(label: Seq<char>, v: Seq<char>, max: nat, allow_empty: bool) -> Option<
    Seq<char>,
> {
    if text_ok(v, max, allow_empty) {
        None
    } else {
        Some(length_message(label))
    }
}

/// Checks one text field of a theme.
pub fn validate_text(label: &str, value: &str, max: usize, allow_empty: bool) -> (r: Result<
    (),
    AppError,
>)
    ensures
        outcome_matches(r, text_check(label@, value@, max as nat, allow_empty)),
{
    if (!allow_empty && str_is_blank(value)) || value.unicode_len() > max || str_contains_char(
        value,
        '\0',
    ) {
        let mut msg = String::from_str(label);
        push_str(&mut msg, "长度不符合要求");
        return Err(AppError::Validation(msg));
    }
    Ok(())
}

// ----- numeric fields -----
pub open spec fn range_message(label: Seq<char>, min: nat, max: nat) -> Seq<char> {
    label + "必须在 "@ + dec(min) + " 到 "@ + dec(max) + " 之间"@
}

pub open spec fn u16_within(v: Option<u16>, min: u16, max: u16) -> bool {
    v matches Some(x) ==> min <= x <= max
}

pub open spec fn u16_check(label: Seq<char>, v: Option<u16>, min: u16, max: u16) -> Option<
    Seq<char>,
> {
    if u16_within(v, min, max) {
        None
    } else {
        Some(range_message(label, min as nat, max as nat))
    }
}

fn range_error(label: &str, min: u64, max: u64) -> (e: AppError)
    ensures
        e.is_validation(range_message(label@, min as nat, max as nat)),
{
    let mut msg = String::from_str(label);
    push_str(&mut msg, "必须在 ");
    push_decimal(&mut msg, min);
    push_str(&mut msg, " 到 ");
    push_decimal(&mut msg, max);
    push_str(&mut msg, " 之间");
    AppError::Validation(msg)
}

/// Checks that an optional integer setting lies in `min..=max`.
pub fn bounded_u16(label: &str, value: Option<u16>, min: u16, max: u16) -> (r: Result<
    (),
    AppError,
>)
    ensures
        outcome_matches(r, u16_check(label@, value, min, max)),
{
    if let Some(v) = value {
        if !(min <= v && v <= max) {
            return Err(range_error(label, min as u64, max as u64));
        }
    }
    Ok(())
}

/// The IEEE-754 single with these bits is finite and lies in `0.0..=1.0`
/// (negative zero included, as `0.0 <= -0.0`).
pub open spec fn f32_bits_in_unit_interval(bits: u32) -> bool {
    let sign = bits >> 31u32;
    let exponent = (bits >> 23u32) & 0xffu32;
    let mantissa = bits & 0x7f_ffffu32;
    &&& exponent != 0xffu32
    &&& if sign == 0 {
        exponent < 127 || (exponent == 127 && mantissa == 0)
    } else {
        exponent == 0 && mantissa == 0
    }
}

pub open spec fn unit_check(label: Seq<char>, v: Option<u32>) -> Option<Seq<char>> {
    if (v matches Some(b) ==> f32_bits_in_unit_interval(b)) {
        None
    } else {
        Some(range_message(label, 0, 1))
    }
}

fn in_unit_interval(bits: u32) -> (r: bool)
    ensures
        r == f32_bits_in_unit_interval(bits),
{
    assert((bits <= 0x3f80_0000u32 || bits == 0x8000_0000u32) == ({
        let sign = bits >> 31u32;
        let exponent = (bits >> 23u32) & 0xffu32;
        let mantissa = bits & 0x7f_ffffu32;
        &&& exponent != 0xffu32
        &&& if sign == 0 {
            exponent < 127 || (exponent == 127 && mantissa == 0)
        } else {
            exponent == 0 && mantissa == 0
        }
    })) by (bit_vector);
    bits <= 0x3f80_0000u32 || bits == 0x8000_0000u32
}

/// Checks that an optional `f32` setting (given by its bits) is finite and
/// in `0.0..=1.0`. The message prints the bounds as `f32` `Display` does:
/// `0` and `1`.
pub fn bounded_unit_f32(label: &str, value: Option<u32>) -> (r: Result<(), AppError>)
    ensures
        outcome_matches(r, unit_check(label@, value)),
{
    if let Some(b) = value {
        if !in_unit_interval(b) {
            return Err(range_error(label, 0, 1));
        }
    }
    Ok(())
}

// ----- colors -----
/// `#` and then 3, 4, 6 or 8 hexadecimal digits. (Such a text is ASCII, so
/// its byte length and character count agree.)
pub open spec fn is_hex_color(s: Seq<char>) -> bool {
    &&& (s.len() == 4 || s.len() == 5 || s.len() == 7 || s.len() == 9)
    &&& s[0] == '#'
    &&& forall|i: int| 1 <= i < s.len() ==> is_ascii_hexdigit(#[trigger] s[i])
}

/// Whether `value` is a hexadecimal CSS color.
pub fn valid_hex_color(value: &str) -> (r: bool)
    ensures
        r == is_hex_color(value@),
{
    let n = value.unicode_len();
    if !(n == 4 || n == 5 || n == 7 || n == 9) {
        return false;
    }
    if value.get_char(0) != '#' {
        return false;
    }
    let mut i: usize = 1;
    while i < n
        invariant
            n == value@.len(),
            1 <= i <= n,
            forall|k: int| 1 <= k < i ==> is_ascii_hexdigit(#[trigger] value@[k]),
        decreases n - i,
    {
        let c = value.get_char(i);
        if !(('0' <= c && c <= '9') || ('a' <= c && c <= 'f') || ('A' <= c && c <= 'F')) {
            return false;
        }
        i = i + 1;
    }
    true
}

/// The color names a theme may set.
pub open spec fn allowed_color_key(k: Seq<char>) -> bool {
    ||| k == "background"@
    ||| k == "panel"@
    ||| k == "panel-alt"@
    ||| k == "accent"@
    ||| k == "accent-alt"@
    ||| k == "secondary"@
    ||| k == "highlight"@
    ||| k == "text"@
    ||| k == "muted"@
    ||| k == "line"@
    ||| k == "surface"@
}

fn is_allowed_color_key(k: &str) -> (r: bool)
    ensures
        r == allowed_color_key(k@),
{
    str_eq(k, "background") || str_eq(k, "panel") || str_eq(k, "panel-alt") || str_eq(
        k,
        "accent",
    ) || str_eq(k, "accent-alt") || str_eq(k, "secondary") || str_eq(k, "highlight") || str_eq(
        k,
        "text",
    ) || str_eq(k, "muted") || str_eq(k, "line") || str_eq(k, "surface")
}

/// The first entry, in iteration order, with an unknown name or a value that
/// is not a hexadecimal color.
pub open spec fn entries_violation(s: Seq<EntryView>) -> Option<Seq<char>>
    decreases s.len(),
{
    if s.len() == 0 {
        None
    } else if !allowed_color_key(s[0].0) {
        Some("不支持的颜色字段："@ + s[0].0)
    } else if !is_hex_color(s[0].1) {
        Some("颜色 "@ + s[0].0 + " 不是有效的十六进制颜色"@)
    } else {
        entries_violation(s.drop_first())
    }
}

/// Every color has an allowed name and a hexadecimal value.
pub open spec fn colors_ok(s: Seq<EntryView>) -> bool {
    forall|i: int| 0 <= i < s.len() ==> allowed_color_key(#[trigger] s[i].0) && is_hex_color(s[i].1)
}

proof fn lemma_entries_violation(s: Seq<EntryView>)
    ensures
        entries_violation(s) is None <==> colors_ok(s),
    decreases s.len(),
{
    if s.len() > 0 {
        lemma_entries_violation(s.drop_first());
        assert forall|i: int| 0 < i < s.len() implies #[trigger] s[i] == s.drop_first()[i - 1] by {}
        if colors_ok(s.drop_first()) && allowed_color_key(s[0].0) && is_hex_color(s[0].1) {
            assert forall|i: int| 0 <= i < s.len() implies allowed_color_key(#[trigger] s[i].0)
                && is_hex_color(s[i].1) by {
                if i > 0 {
                    assert(s[i] == s.drop_first()[i - 1]);
                }
            }
        }
        if colors_ok(s) {
            assert forall|i: int| 0 <= i < s.drop_first().len() implies allowed_color_key(
                #[trigger] s.drop_first()[i].0,
            ) && is_hex_color(s.drop_first()[i].1) by {
                assert(s.drop_first()[i] == s[i + 1]);
            }
        }
    }
}

/// For keys in ascending order, as a theme's colors always are, the color
/// check passes exactly when every name is allowed and every value is a
/// hexadecimal color: distinct allowed names are never more than 11.
pub proof fn lemma_colors_check(s: Seq<EntryView>)
    requires
        keys_ascending(s),
    ensures
        colors_violation(s) is None <==> colors_ok(s),
{
    lemma_entries_violation(s);
    if colors_ok(s) {
        let allowed = set![
            "background"@, "panel"@, "panel-alt"@, "accent"@, "accent-alt"@, "secondary"@,
            "highlight"@, "text"@, "muted"@, "line"@, "surface"@,
        ];
        assert(allowed.finite() && allowed.len() <= 11);
        let ks = s.map_values(|e: EntryView| e.0);
        assert forall|i: int, j: int| 0 <= i < ks.len() && 0 <= j < ks.len() && i != j implies ks[i]
            != ks[j] by {
            if i < j {
                assert(seq_lt(s[i].0, s[j].0));
            } else {
                assert(seq_lt(s[j].0, s[i].0));
            }
            lemma_seq_lt_irreflexive(s[i].0);
        }
        assert(ks.no_duplicates());
        ks.unique_seq_to_set();
        assert(ks.to_set().subset_of(allowed)) by {
            assert forall|k: Seq<char>| ks.to_set().contains(k) implies allowed.contains(k) by {
                let i = ks.index_of(k);
                assert(allowed_color_key(s[i].0));
            }
        }
        vstd::set_lib::lemma_len_subset(ks.to_set(), allowed);
    }
}

/// At most one entry per allowed name, then every entry well formed.
pub open spec fn colors_violation(s: Seq<EntryView>) -> Option<Seq<char>> {
    if s.len() > 11 {
        Some("主题颜色数量过多"@)
    } else {
        entries_violation(s)
    }
}

fn validate_colors(colors: &ColorMap) -> (r: Result<(), AppError>)
    ensures
        outcome_matches(r, colors_violation(colors@)),
{
    if colors.len() > 11 {
        return Err(validation("主题颜色数量过多"));
    }
    let entries = colors.entries();
    let ghost s = colors@;
    let n = entries.len();
    let mut i: usize = 0;
    assert(s.skip(0) =~= s);
    while i < n
        invariant
            n == entries@.len(),
            s == colors@,
            s.len() <= 11,
            s == entries@.map_values(|p: (String, String)| pair_view(p)),
            i <= n,
            entries_violation(s) == entries_violation(s.skip(i as int)),
        decreases n - i,
    {
        let key = &entries[i].0;
        let value = &entries[i].1;
        assert(s.skip(i as int)[0] == (key@, value@));
        if !is_allowed_color_key(key.as_str()) {
            let mut msg = String::from_str("不支持的颜色字段：");
            push_str(&mut msg, key.as_str());
            return Err(AppError::Validation(msg));
        }
        if !valid_hex_color(value.as_str()) {
            let mut msg = String::from_str("颜色 ");
            push_str(&mut msg, key.as_str());
            push_str(&mut msg, " 不是有效的十六进制颜色");
            return Err(AppError::Validation(msg));
        }
        assert(s.skip(i as int).drop_first() =~= s.skip(i + 1));
        i = i + 1;
    }
    assert(s.skip(n as int).len() == 0);
    Ok(())
}

// ----- background image -----
/// The path of an imported image: `images/...`, with no `..`, NUL or
/// backslash. (A path that starts with `images/` is never absolute.)
pub open spec fn valid_image_ref(s: Seq<char>) -> bool {
    &&& starts_with(s, "images/"@)
    &&& !contains_seq(s, ".."@)
    &&& !s.contains('\0')
    &&& !s.contains('\\')
}

/// Whether `s` names an imported image.
pub fn is_image_ref(s: &str) -> (r: bool)
    ensures
        r == valid_image_ref(s@),
{
    proof {
        reveal_strlit("..");
    }
    assert(".."@ =~= seq!['.', '.']);
    let dots = str_contains_pair(s, '.', '.');
    let nul = str_contains_char(s, '\0');
    let backslash = str_contains_char(s, '\\');
    let prefix = str_starts_with(s, "images/");
    prefix && !dots && !nul && !backslash
}

// ----- the whole theme -----
pub open spec fn identity_violation(t: Theme) -> Option<Seq<char>> {
    if t.schema_version != 1 {
        Some("仅支持版本 1 的主题文件"@)
    } else if !valid_theme_id(t.id@) {
        Some("主题 ID 只能包含 1–80 个英文字母、数字、短横线或下划线"@)
    } else {
        None
    }
}

pub open spec fn texts_violation(t: Theme) -> Option<Seq<char>> {
    first_of(
        text_check("主题名称"@, t.name@, 120, false),
        first_of(
            text_check("副标题"@, t.subtitle@, 80, true),
            first_of(
                text_check("主题说明"@, t.tagline@, 160, true),
                first_of(
                    text_check("项目名前缀"@, t.project_prefix@, 80, true),
                    first_of(
                        text_check("项目栏标题"@, t.project_label@, 80, true),
                        first_of(
                            text_check("状态文字"@, t.status_text@, 80, true),
                            text_check("引言"@, t.quote@, 80, true),
                        ),
                    ),
                ),
            ),
        ),
    )
}

pub open spec fn ranges_violation(t: Theme) -> Option<Seq<char>> {
    first_of(
        unit_check("背景透明度"@, t.opacity),
        first_of(
            u16_check("背景模糊"@, t.blur_px, 0, 100),
            first_of(
                u16_check("背景亮度"@, t.brightness_pct, 10, 200),
                first_of(
                    u16_check("背景饱和度"@, t.saturation_pct, 0, 300),
                    first_of(
                        u16_check("图片横向位置"@, t.image_position_x_pct, 0, 100),
                        first_of(
                            u16_check("图片纵向位置"@, t.image_position_y_pct, 0, 100),
                            first_of(
                                u16_check("图片缩放"@, t.image_scale_pct, 50, 200),
                                first_of(
                                    unit_check("面板透明度"@, t.panel_opacity),
                                    first_of(
                                        u16_check("面板模糊"@, t.panel_blur_px, 0, 60),
                                        first_of(
                                            u16_check("圆角"@, t.corner_radius_px, 0, 40),
                                            u16_check(
                                                "内容最大宽度"@,
                                                t.content_max_width_px,
                                                640,
                                                1600,
                                            ),
                                        ),
                                    ),
                                ),
                            ),
                        ),
                    ),
                ),
            ),
        ),
    )
}

pub open spec fn extras_violation(t: Theme) -> Option<Seq<char>> {
    if t.particle_count matches Some(v) && v > 24 {
        Some("粒子数量不能超过 24"@)
    } else if t.background_image matches Some(p) && !valid_image_ref(p@) {
        Some("背景图片必须是已导入的 images/<文件名> 路径"@)
    } else {
        None
    }
}

/// The message of the first rule the theme breaks, in the order the rules
/// are checked; `None` for a valid theme.
pub open spec fn theme_violation(t: Theme) -> Option<Seq<char>> {
    first_of(
        identity_violation(t),
        first_of(
            texts_violation(t),
            first_of(colors_violation(t.colors@), first_of(ranges_violation(t), extras_violation(t))),
        ),
    )
}

pub open spec fn valid_theme(t: Theme) -> bool {
    theme_violation(t) is None
}

impl Theme {
    fn validate_identity(&self) -> (r: Result<(), AppError>)
        ensures
            outcome_matches(r, identity_violation(*self)),
    {
        if self.schema_version != 1 {
            return Err(validation("仅支持版本 1 的主题文件"));
        }
        if !id_is_valid(self.id.as_str()) {
            return Err(validation("主题 ID 只能包含 1–80 个英文字母、数字、短横线或下划线"));
        }
        Ok(())
    }

    fn validate_texts(&self) -> (r: Result<(), AppError>)
        ensures
            outcome_matches(r, texts_violation(*self)),
    {
        let r = validate_text("主题名称", self.name.as_str(), 120, false);
        if r.is_err() {
            return r;
        }
        let r = validate_text("副标题", self.subtitle.as_str(), 80, true);
        if r.is_err() {
            return r;
        }
        let r = validate_text("主题说明", self.tagline.as_str(), 160, true);
        if r.is_err() {
            return r;
        }
        let r = validate_text("项目名前缀", self.project_prefix.as_str(), 80, true);
        if r.is_err() {
            return r;
        }
        let r = validate_text("项目栏标题", self.project_label.as_str(), 80, true);
        if r.is_err() {
            return r;
        }
        let r = validate_text("状态文字", self.status_text.as_str(), 80, true);
        if r.is_err() {
            return r;
        }
        validate_text("引言", self.quote.as_str(), 80, true)
    }

    fn validate_ranges(&self) -> (r: Result<(), AppError>)
        ensures
            outcome_matches(r, ranges_violation(*self)),
    {
        let r = bounded_unit_f32("背景透明度", self.opacity);
        if r.is_err() {
            return r;
        }
        let r = bounded_u16("背景模糊", self.blur_px, 0, 100);
        if r.is_err() {
            return r;
        }
        let r = bounded_u16("背景亮度", self.brightness_pct, 10, 200);
        if r.is_err() {
            return r;
        }
        let r = bounded_u16("背景饱和度", self.saturation_pct, 0, 300);
        if r.is_err() {
            return r;
        }
        let r = bounded_u16("图片横向位置", self.image_position_x_pct, 0, 100);
        if r.is_err() {
            return r;
        }
        let r = bounded_u16("图片纵向位置", self.image_position_y_pct, 0, 100);
        if r.is_err() {
            return r;
        }
        let r = bounded_u16("图片缩放", self.image_scale_pct, 50, 200);
        if r.is_err() {
            return r;
        }
        let r = bounded_unit_f32("面板透明度", self.panel_opacity);
        if r.is_err() {
            return r;
        }
        let r = bounded_u16("面板模糊", self.panel_blur_px, 0, 60);
        if r.is_err() {
            return r;
        }
        let r = bounded_u16("圆角", self.corner_radius_px, 0, 40);
        if r.is_err() {
            return r;
        }
        bounded_u16("内容最大宽度", self.content_max_width_px, 640, 1600)
    }

    fn validate_extras(&self) -> (r: Result<(), AppError>)
        ensures
            outcome_matches(r, extras_violation(*self)),
    {
        if let Some(v) = self.particle_count {
            if v > 24 {
                return Err(validation("粒子数量不能超过 24"));
            }
        }
        if let Some(image) = &self.background_image {
            if !is_image_ref(image.as_str()) {
                return Err(validation("背景图片必须是已导入的 images/<文件名> 路径"));
            }
        }
        Ok(())
    }

    /// Checks every rule of a theme, in a fixed order, and reports the first
    /// one broken.
    pub fn validate(&self) -> (r: Result<(), AppError>)
        ensures
            outcome_matches(r, theme_violation(*self)),
            colors_violation(self.colors@) is None <==> colors_ok(self.colors@),
    {
        proof {
            use_type_invariant(&self.colors);
            lemma_colors_check(self.colors@);
        }
        let r = self.validate_identity();
        if r.is_err() {
            return r;
        }
        let r = self.validate_texts();
        if r.is_err() {
            return r;
        }
        let r = validate_colors(&self.colors);
        if r.is_err() {
            return r;
        }
        let r = self.validate_ranges();
        if r.is_err() {
            return r;
        }
        self.validate_extras()
    }
}


/// `b` has every setting of `a` except, possibly, the background image.
pub open spec fn same_settings(a: Theme, b: Theme) -> bool {
    &&& b.schema_version == a.schema_version
    &&& b.id@ == a.id@
    &&& b.name@ == a.name@
    &&& b.subtitle@ == a.subtitle@
    &&& b.tagline@ == a.tagline@
    &&& b.project_prefix@ == a.project_prefix@
    &&& b.project_label@ == a.project_label@
    &&& b.status_text@ == a.status_text@
    &&& b.quote@ == a.quote@
    &&& b.colors@ == a.colors@
    &&& b.opacity == a.opacity
    &&& b.blur_px == a.blur_px
    &&& b.brightness_pct == a.brightness_pct
    &&& b.saturation_pct == a.saturation_pct
    &&& b.image_position_x_pct == a.image_position_x_pct
    &&& b.image_position_y_pct == a.image_position_y_pct
    &&& b.image_scale_pct == a.image_scale_pct
    &&& b.panel_opacity == a.panel_opacity
    &&& b.panel_blur_px == a.panel_blur_px
    &&& b.corner_radius_px == a.corner_radius_px
    &&& b.content_max_width_px == a.content_max_width_px
    &&& b.show_brand == a.show_brand
    &&& b.show_status == a.show_status
    &&& b.show_quote == a.show_quote
    &&& b.show_orbit == a.show_orbit
    &&& b.show_particles == a.show_particles
    &&& b.particle_count == a.particle_count
}

impl Theme {
    /// A copy fit for sharing with others: the local path of the background
    /// image is left out, everything else is kept.
    pub fn shareable(&self) -> (r: Theme)
        ensures
            same_settings(*self, r),
            r.background_image is None,
    {
        Theme {
            schema_version: self.schema_version,
            id: self.id.clone(),
            name: self.name.clone(),
            subtitle: self.subtitle.clone(),
            tagline: self.tagline.clone(),
            project_prefix: self.project_prefix.clone(),
            project_label: self.project_label.clone(),
            status_text: self.status_text.clone(),
            quote: self.quote.clone(),
            colors: self.colors.duplicate(),
            background_image: None,
            opacity: self.opacity,
            blur_px: self.blur_px,
            brightness_pct: self.brightness_pct,
            saturation_pct: self.saturation_pct,
            image_position_x_pct: self.image_position_x_pct,
            image_position_y_pct: self.image_position_y_pct,
            image_scale_pct: self.image_scale_pct,
            panel_opacity: self.panel_opacity,
            panel_blur_px: self.panel_blur_px,
            corner_radius_px: self.corner_radius_px,
            content_max_width_px: self.content_max_width_px,
            show_brand: self.show_brand,
            show_status: self.show_status,
            show_quote: self.show_quote,
            show_orbit: self.show_orbit,
            show_particles: self.show_particles,
            particle_count: self.particle_count,
        }
    }
}

/// Sharing a valid theme gives a valid theme: leaving out the background
/// image never breaks a rule.
pub proof fn lemma_shareable_stays_valid(t: Theme, shared: Theme)
    requires
        valid_theme(t),
        same_settings(t, shared),
        shared.background_image is None,
    ensures
        valid_theme(shared),
{
}

/// Every numeric setting of the theme lies in its allowed range: opacities
/// finite in `0..=1`, blur `0..=100`, brightness `10..=200`, saturation
/// `0..=300`, image position `0..=100` each way, image scale `50..=200`,
/// panel blur `0..=60`, corner radius `0..=40`, content width `640..=1600`.
pub open spec fn settings_in_range(t: Theme) -> bool {
    &&& (t.opacity matches Some(b) ==> f32_bits_in_unit_interval(b))
    &&& (t.blur_px matches Some(v) ==> v <= 100)
    &&& (t.brightness_pct matches Some(v) ==> 10 <= v <= 200)
    &&& (t.saturation_pct matches Some(v) ==> v <= 300)
    &&& (t.image_position_x_pct matches Some(v) ==> v <= 100)
    &&& (t.image_position_y_pct matches Some(v) ==> v <= 100)
    &&& (t.image_scale_pct matches Some(v) ==> 50 <= v <= 200)
    &&& (t.panel_opacity matches Some(b) ==> f32_bits_in_unit_interval(b))
    &&& (t.panel_blur_px matches Some(v) ==> v <= 60)
    &&& (t.corner_radius_px matches Some(v) ==> v <= 40)
    &&& (t.content_max_width_px matches Some(v) ==> 640 <= v <= 1600)
}

/// `a` and `b` agree on everything but the numeric settings.
pub open spec fn same_except_ranges(a: Theme, b: Theme) -> bool {
    &&& b.schema_version == a.schema_version
    &&& b.id@ == a.id@
    &&& b.name@ == a.name@
    &&& b.subtitle@ == a.subtitle@
    &&& b.tagline@ == a.tagline@
    &&& b.project_prefix@ == a.project_prefix@
    &&& b.project_label@ == a.project_label@
    &&& b.status_text@ == a.status_text@
    &&& b.quote@ == a.quote@
    &&& b.colors@ == a.colors@
    &&& (a.background_image matches Some(x) ==> (b.background_image matches Some(y) && x@ == y@))
    &&& (a.background_image is None ==> b.background_image is None)
    &&& b.show_brand == a.show_brand
    &&& b.show_status == a.show_status
    &&& b.show_quote == a.show_quote
    &&& b.show_orbit == a.show_orbit
    &&& b.show_particles == a.show_particles
    &&& b.particle_count == a.particle_count
}

/// A valid theme has every numeric setting in its range; so a theme with a
/// setting out of its range (an image scale of 500, say) is never valid.
pub proof fn lemma_valid_theme_settings_in_range(t: Theme)
    requires
        valid_theme(t),
    ensures
        settings_in_range(t),
{
}

/// Each range rule reads only its own setting: changing the numeric
/// settings of a valid theme to any values within their ranges (moving the
/// image to any vertical position in `0..=100`, say) keeps it valid.
pub proof fn lemma_ranges_constrain_only_their_own_setting(a: Theme, b: Theme)
    requires
        valid_theme(a),
        same_except_ranges(a, b),
        settings_in_range(b),
    ensures
        valid_theme(b),
{
    assert(identity_violation(b) == identity_violation(a));
    assert(texts_violation(b) == texts_violation(a));
    assert(extras_violation(b) == extras_violation(a));
    assert(ranges_violation(b) is None);
}

/// A text field's rule: non-blank unless it may be empty, at most `max`
/// characters, and no NUL.
pub open spec fn text_rule(v: Seq<char>, max: nat, may_be_empty: bool) -> bool {
    &&& (may_be_empty || exists|i: int| 0 <= i < v.len() && !is_white_space(#[trigger] v[i]))
    &&& v.len() <= max
    &&& forall|i: int| 0 <= i < v.len() ==> #[trigger] v[i] != '\0'
}

/// A color entry's rule: one of the eleven color names, and `#` followed by
/// 3, 4, 6 or 8 hexadecimal digits.
pub open spec fn color_rule(k: Seq<char>, v: Seq<char>) -> bool {
    &&& (k == "background"@ || k == "panel"@ || k == "panel-alt"@ || k == "accent"@ || k
        == "accent-alt"@ || k == "secondary"@ || k == "highlight"@ || k == "text"@ || k == "muted"@
        || k == "line"@ || k == "surface"@)
    &&& (v.len() == 4 || v.len() == 5 || v.len() == 7 || v.len() == 9)
    &&& v[0] == '#'
    &&& forall|i: int|
        1 <= i < v.len() ==> ('0' <= #[trigger] v[i] <= '9' || 'a' <= v[i] <= 'f' || 'A' <= v[i]
            <= 'F')
}

/// Every rule a theme must meet, written out: format version 1; an id of 1
/// to 80 ASCII letters, digits, `-` or `_`; the text limits; allowed colors
/// with hexadecimal values; numeric settings in range; at most 24
/// particles; and a background image, if any, under `images/` with no
/// `..`, NUL or backslash.
pub open spec fn theme_rules(t: Theme) -> bool {
    &&& t.schema_version == 1
    &&& 1 <= t.id@.len() <= 80
    &&& forall|i: int|
        0 <= i < t.id@.len() ==> ('0' <= #[trigger] t.id@[i] <= '9' || 'a' <= t.id@[i] <= 'z' || 'A'
            <= t.id@[i] <= 'Z' || t.id@[i] == '-' || t.id@[i] == '_')
    &&& text_rule(t.name@, 120, false)
    &&& text_rule(t.subtitle@, 80, true)
    &&& text_rule(t.tagline@, 160, true)
    &&& text_rule(t.project_prefix@, 80, true)
    &&& text_rule(t.project_label@, 80, true)
    &&& text_rule(t.status_text@, 80, true)
    &&& text_rule(t.quote@, 80, true)
    &&& forall|i: int| 0 <= i < t.colors@.len() ==> color_rule(#[trigger] t.colors@[i].0, t.colors@[i].1)
    &&& settings_in_range(t)
    &&& (t.particle_count matches Some(n) ==> n <= 24)
    &&& (t.background_image matches Some(p) ==> starts_with(p@, "images/"@) && !contains_seq(p@, ".."@)
        && !p@.contains('\0') && !p@.contains('\\'))
}

proof fn lemma_text_rule(label: Seq<char>, v: Seq<char>, max: nat, may_be_empty: bool)
    ensures
        (text_check(label, v, max, may_be_empty) is None) == text_rule(v, max, may_be_empty),
{
    if !may_be_empty && !blank(v) {
        let i = choose|i: int| 0 <= i < v.len() && !is_white_space(#[trigger] v[i]);
    }
    if v.contains('\0') {
        let i = choose|i: int| 0 <= i < v.len() && v[i] == '\0';
        assert(v[i] == '\0');
    }
}

/// A theme is valid exactly when it meets every rule of [`theme_rules`]
/// (its colors, as in any `ColorMap`, have distinct ascending names).
pub proof fn lemma_valid_theme_iff_rules(t: Theme)
    requires
        keys_ascending(t.colors@),
    ensures
        valid_theme(t) <==> theme_rules(t),
{
    lemma_colors_check(t.colors@);
    lemma_text_rule("主题名称"@, t.name@, 120, false);
    lemma_text_rule("副标题"@, t.subtitle@, 80, true);
    lemma_text_rule("主题说明"@, t.tagline@, 160, true);
    lemma_text_rule("项目名前缀"@, t.project_prefix@, 80, true);
    lemma_text_rule("项目栏标题"@, t.project_label@, 80, true);
    lemma_text_rule("状态文字"@, t.status_text@, 80, true);
    lemma_text_rule("引言"@, t.quote@, 80, true);
    assert(colors_ok(t.colors@) <==> forall|i: int|
        0 <= i < t.colors@.len() ==> color_rule(#[trigger] t.colors@[i].0, t.colors@[i].1)) by {
        assert forall|i: int| 0 <= i < t.colors@.len() implies (allowed_color_key(
            #[trigger] t.colors@[i].0,
        ) && is_hex_color(t.colors@[i].1)) == color_rule(t.colors@[i].0, t.colors@[i].1) by {}
    }
}

/// A valid theme's background image, if any, names an imported image.
pub proof fn lemma_valid_theme_image_is_ref(t: Theme)
    requires
        valid_theme(t),
    ensures
        t.background_image matches Some(p) ==> valid_image_ref(p@),
{
}

} // verus!
