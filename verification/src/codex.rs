//! Finding Codex, launching it with a loopback DevTools port, and deciding
//! which DevTools targets may be talked to.
use vstd::prelude::*;

use crate::error::{cdp_error, validation, AppError};
pub use crate::text::HostOs;
use crate::text::{
    windows_join, windows_path_join,
    chars_of, dec, join_path, path_join,
    push_char, push_decimal, push_str, starts_with, str_contains_char, str_eq, str_starts_with,
    string_of_range,
};

verus! {

/// A Codex executable found on this machine.
#[derive(Debug)]
pub struct CodexInstallation {
    pub executable: String,
    pub display_name: String,
}

/// A target listed by the DevTools `/json/list` endpoint.
#[derive(Debug)]
pub struct DevtoolsTarget {
    pub id: String,
    pub title: String,
    pub url: String,
    pub kind: String,
    pub web_socket_debugger_url: String,
}

// ----- URLs -----
/// The parts of a parsed URL, as `url::Url`'s accessors give them.
#[derive(Debug)]
pub struct UrlParts {
    /// `Url::as_str`: the serialization.
    pub serialization: String,
    pub scheme: String,
    /// `Url::host_str`.
    pub host: Option<String>,
    /// `Url::port`: `None` when absent or the scheme's default.
    pub port: Option<u16>,
    pub path: String,
    pub query: Option<String>,
    pub fragment: Option<String>,
    pub username: String,
    pub password: Option<String>,
}

/// The parts of a parsed URL as character sequences.
pub struct UrlView {
    pub serialization: Seq<char>,
    pub scheme: Seq<char>,
    pub host: Option<Seq<char>>,
    pub port: Option<u16>,
    pub path: Seq<char>,
    pub query: Option<Seq<char>>,
    pub fragment: Option<Seq<char>>,
    pub username: Seq<char>,
    pub password: Option<Seq<char>>,
}

pub open spec fn opt_view(o: Option<String>) -> Option<Seq<char>> {
    match o {
        Some(s) => Some(s@),
        None => None,
    }
}

impl View for UrlParts {
    type V = UrlView;

    open spec fn view(&self) -> UrlView {
        UrlView {
            serialization: self.serialization@,
            scheme: self.scheme@,
            host: opt_view(self.host),
            port: self.port,
            path: self.path@,
            query: opt_view(self.query),
            fragment: opt_view(self.fragment),
            username: self.username@,
            password: opt_view(self.password),
        }
    }
}

/// What `url::Url::parse` gives for this text: the parts of the URL, or the
/// message of its error.
pub uninterp spec fn parsed_url(raw: Seq<char>) -> Result<UrlView, Seq<char>>;

/// `url::Url::parse(raw)`, its result converted to `UrlParts` by the
/// accessors `as_str`, `scheme`, `host_str`, `port`, `path`, `query`,
/// `fragment`, `username` and `password`, and its error to its `Display`
/// text. The contract names the result.
#[verifier::external_body]
fn parse_url(raw: &str) -> (r: Result<UrlParts, String>)
    ensures
        match r {
            Ok(p) => parsed_url(raw@) == Ok::<UrlView, Seq<char>>(p@),
            Err(m) => parsed_url(raw@) == Err::<UrlView, Seq<char>>(m@),
        },
{
    match url::Url::parse(raw) {
        Ok(u) => Ok(UrlParts {
            serialization: u.as_str().to_owned(),
            scheme: u.scheme().to_owned(),
            host: u.host_str().map(String::from),
            port: u.port(),
            path: u.path().to_owned(),
            query: u.query().map(String::from),
            fragment: u.fragment().map(String::from),
            username: u.username().to_owned(),
            password: u.password().map(String::from),
        }),
        Err(e) => Err(e.to_string()),
    }
}

/// The WebSocket URL of page `id` on the loopback DevTools port, and
/// nothing more: no other scheme, host or port, no query, fragment or
/// credentials.
pub open spec fn ws_url_acceptable(u: UrlView, port: u16, id: Seq<char>) -> bool {
    &&& u.scheme == "ws"@
    &&& u.host == Some("127.0.0.1"@)
    &&& u.port == Some(port)
    &&& u.path == "/devtools/page/"@ + id
    &&& u.query is None
    &&& u.fragment is None
    &&& u.username.len() == 0
    &&& u.password is None
}

/// What checking an already parsed URL gives: the URL, or the message of
/// the DevTools error.
pub open spec fn ws_check_outcome(parsed: Result<UrlView, Seq<char>>, port: u16, id: Seq<char>) -> Result<
    UrlView,
    Seq<char>,
> {
    match parsed {
        Err(m) => Err(m),
        Ok(u) => if ws_url_acceptable(u, port, id) {
            Ok(u)
        } else {
            Err("调试连接地址未通过安全校验"@)
        },
    }
}

/// What checking a raw target URL gives.
pub open spec fn ws_url_outcome(raw: Seq<char>, port: u16, id: Seq<char>) -> Result<UrlView, Seq<char>> {
    if id.len() == 0 || id.contains('/') {
        Err("调试目标 ID 无效"@)
    } else {
        ws_check_outcome(parsed_url(raw), port, id)
    }
}

/// `r` is the URL of `expected`, or the DevTools error with its message.
pub open spec fn url_result_matches(r: Result<UrlParts, AppError>, expected: Result<UrlView, Seq<char>>) -> bool {
    match expected {
        Ok(u) => r matches Ok(p) && p@ == u,
        Err(m) => r matches Err(e) && e.is_cdp(m),
    }
}

/// The target check accepts a raw URL exactly when the id is not empty and
/// has no `/`, and the URL parses as `ws://127.0.0.1:<port>/devtools/page/<id>`
/// with no query, fragment or credentials; it then gives that parsed URL.
/// The id is refused only when empty or holding `/`, whatever its length.
pub proof fn lemma_ws_url_accepts_exact_page(raw: Seq<char>, port: u16, id: Seq<char>)
    ensures
        ws_url_outcome(raw, port, id) is Ok <==> (id.len() > 0 && !id.contains('/') && (parsed_url(
            raw,
        ) matches Ok(u) && u.scheme == "ws"@ && u.host == Some("127.0.0.1"@) && u.port == Some(port)
            && u.path == "/devtools/page/"@ + id && u.query is None && u.fragment is None
            && u.username.len() == 0 && u.password is None)),
        ws_url_outcome(raw, port, id) matches Ok(u) ==> parsed_url(raw) == Ok::<UrlView, Seq<char>>(u),
        (id.len() == 0 || id.contains('/')) ==> ws_url_outcome(raw, port, id) == Err::<UrlView, Seq<char>>(
            "调试目标 ID 无效"@,
        ),
{
}

/// Checks a parsed target URL against the DevTools port and target id.
pub fn check_ws_url(parsed: Result<UrlParts, String>, expected_port: u16, expected_id: &str) -> (r:
    Result<UrlParts, AppError>)
    ensures
        url_result_matches(
            r,
            ws_check_outcome(
                match parsed {
                    Ok(p) => Ok::<UrlView, Seq<char>>(p@),
                    Err(m) => Err::<UrlView, Seq<char>>(m@),
                },
                expected_port,
                expected_id@,
            ),
        ),
{
    let url = match parsed {
        Ok(u) => u,
        Err(m) => return Err(AppError::Cdp(m)),
    };
    let mut exact_path = String::from_str("/devtools/page/");
    push_str(&mut exact_path, expected_id);
    let host_ok = match &url.host {
        Some(h) => str_eq(h.as_str(), "127.0.0.1"),
        None => false,
    };
    let ok = str_eq(url.scheme.as_str(), "ws") && host_ok && url.port == Some(expected_port) && str_eq(
        url.path.as_str(),
        exact_path.as_str(),
    ) && url.query.is_none() && url.fragment.is_none() && url.username.as_str().unicode_len() == 0
        && url.password.is_none();
    if !ok {
        return Err(cdp_error("调试连接地址未通过安全校验"));
    }
    Ok(url)
}

/// Checks the WebSocket URL a DevTools target advertises: the target id must
/// be usable in a path, and the URL must be exactly that target's page URL
/// on the loopback port.
pub fn validate_target_ws_url(raw: &str, expected_port: u16, expected_id: &str) -> (r: Result<
    UrlParts,
    AppError,
>)
    ensures
        url_result_matches(r, ws_url_outcome(raw@, expected_port, expected_id@)),
{
    if expected_id.unicode_len() == 0 || str_contains_char(expected_id, '/') {
        return Err(cdp_error("调试目标 ID 无效"));
    }
    check_ws_url(parse_url(raw), expected_port, expected_id)
}

// ----- choosing a target -----
/// A target the workshop may style: a page or web view (or a target of no
/// stated type) with an id, an exact loopback WebSocket URL, and no
/// `devtools://` page.
pub open spec fn preview_candidate(t: DevtoolsTarget, port: u16) -> bool {
    &&& (t.kind@ == "page"@ || t.kind@ == "webview"@ || t.kind@.len() == 0)
    &&& t.id@.len() > 0
    &&& ws_url_outcome(t.web_socket_debugger_url@, port, t.id@) is Ok
    &&& !starts_with(t.url@, "devtools://"@)
}

fn is_preview_candidate(t: &DevtoolsTarget, port: u16) -> (r: bool)
    ensures
        r == preview_candidate(*t, port),
{
    let kind_ok = str_eq(t.kind.as_str(), "page") || str_eq(t.kind.as_str(), "webview")
        || t.kind.as_str().unicode_len() == 0;
    if !kind_ok || t.id.as_str().unicode_len() == 0 {
        return false;
    }
    let url_ok = validate_target_ws_url(t.web_socket_debugger_url.as_str(), port, t.id.as_str()).is_ok();
    url_ok && !str_starts_with(t.url.as_str(), "devtools://")
}

/// The first target the workshop may style, if any.
pub fn select_preview_target(targets: Vec<DevtoolsTarget>, port: u16) -> (r: Option<DevtoolsTarget>)
    ensures
        match r {
            Some(t) => exists|i: int|
                0 <= i < targets@.len() && targets@[i] == t && preview_candidate(t, port) && forall|j: int|
                    0 <= j < i ==> !preview_candidate(#[trigger] targets@[j], port),
            None => forall|j: int| 0 <= j < targets@.len() ==> !preview_candidate(#[trigger] targets@[j], port),
        },
{
    let mut list = targets;
    let ghost all = list@;
    let n = list.len();
    let mut i: usize = 0;
    while i < n
        invariant
            n == list@.len(),
            list@ == all,
            all == targets@,
            i <= n,
            forall|j: int| 0 <= j < i ==> !preview_candidate(#[trigger] all[j], port),
        decreases n - i,
    {
        if is_preview_candidate(&list[i], port) {
            let t = list.remove(i);
            assert(all[i as int] == t);
            return Some(t);
        }
        i = i + 1;
    }
    None
}

/// `i` is the first target with this id.
pub open spec fn is_first_with_id(s: Seq<DevtoolsTarget>, id: Seq<char>, i: int) -> bool {
    &&& 0 <= i < s.len()
    &&& s[i].id@ == id
    &&& forall|j: int| 0 <= j < i ==> (#[trigger] s[j]).id@ != id
}

/// `e` is the error checking the target's URL gives.
pub open spec fn is_url_error_of(t: DevtoolsTarget, port: u16, e: AppError) -> bool {
    match ws_url_outcome(t.web_socket_debugger_url@, port, t.id@) {
        Err(m) => e.is_cdp(m),
        Ok(_) => false,
    }
}

/// The target `target_id` among those the managed Codex advertises, once
/// its WebSocket URL passes the check.
pub fn find_trusted_target(targets: Vec<DevtoolsTarget>, port: u16, target_id: &str) -> (r: Result<
    DevtoolsTarget,
    AppError,
>)
    ensures
        match r {
            Ok(t) => exists|i: int|
                is_first_with_id(targets@, target_id@, i) && #[trigger] targets@[i] == t && ws_url_outcome(
                    t.web_socket_debugger_url@,
                    port,
                    t.id@,
                ) is Ok,
            Err(e) => {
                ||| (forall|j: int| 0 <= j < targets@.len() ==> (#[trigger] targets@[j]).id@ != target_id@)
                    && e.is_validation("target is not currently advertised by managed Codex"@)
                ||| exists|i: int|
                    is_first_with_id(targets@, target_id@, i) && is_url_error_of(#[trigger] targets@[i], port, e)
            },
        },
{
    let mut list = targets;
    let ghost all = list@;
    let n = list.len();
    let mut i: usize = 0;
    while i < n
        invariant
            n == list@.len(),
            list@ == all,
            all == targets@,
            i <= n,
            forall|j: int| 0 <= j < i ==> (#[trigger] all[j]).id@ != target_id@,
        decreases n - i,
    {
        if str_eq(list[i].id.as_str(), target_id) {
            let t = list.remove(i);
            assert(all[i as int] == t);
            return match validate_target_ws_url(t.web_socket_debugger_url.as_str(), port, t.id.as_str()) {
                Ok(_) => Ok(t),
                Err(e) => Err(e),
            };
        }
        i = i + 1;
    }
    Err(validation("target is not currently advertised by managed Codex"))
}

// ----- finding Codex -----
pub open spec fn opt_str_view(o: Option<&str>) -> Option<Seq<char>> {
    match o {
        Some(s) => Some(s@),
        None => None,
    }
}

/// Where Codex may be installed on macOS.
pub open spec fn mac_candidates(home: Option<Seq<char>>) -> Seq<Seq<char>> {
    let fixed = seq![
        "/Applications/Codex.app/Contents/MacOS/Codex"@,
        "/Applications/ChatGPT.app/Contents/MacOS/ChatGPT"@,
    ];
    match home {
        Some(h) => fixed + seq![
            join_path(h, "Applications/ChatGPT.app/Contents/MacOS/ChatGPT"@),
            join_path(h, "Applications/Codex.app/Contents/MacOS/Codex"@),
        ],
        None => fixed,
    }
}

/// The two places under one Windows base directory.
pub open spec fn windows_base_candidates(base: Option<Seq<char>>) -> Seq<Seq<char>> {
    match base {
        Some(b) => seq![
            windows_join(windows_join(b, "Codex"@), "Codex.exe"@),
            windows_join(windows_join(windows_join(b, "OpenAI"@), "Codex"@), "ChatGPT.exe"@),
        ],
        None => Seq::empty(),
    }
}

/// Where Codex may be installed on Windows.
pub open spec fn windows_candidates(
    local_app_data: Option<Seq<char>>,
    program_files: Option<Seq<char>>,
    program_files_x86: Option<Seq<char>>,
) -> Seq<Seq<char>> {
    let aliases = match local_app_data {
        Some(l) => {
            let dir = windows_join(windows_join(l, "Microsoft"@), "WindowsApps"@);
            seq![windows_join(dir, "ChatGPT.exe"@), windows_join(dir, "Codex.exe"@)]
        },
        None => Seq::empty(),
    };
    windows_base_candidates(local_app_data) + windows_base_candidates(program_files)
        + windows_base_candidates(program_files_x86) + aliases
}

/// Where Codex may be installed, given the operating system and the
/// environment variables `HOME`, `LOCALAPPDATA`, `PROGRAMFILES` and
/// `PROGRAMFILES(X86)`.
pub open spec fn candidates(
    os: HostOs,
    home: Option<Seq<char>>,
    local_app_data: Option<Seq<char>>,
    program_files: Option<Seq<char>>,
    program_files_x86: Option<Seq<char>>,
) -> Seq<Seq<char>> {
    match os {
        HostOs::MacOs => mac_candidates(home),
        HostOs::Windows => windows_candidates(local_app_data, program_files, program_files_x86),
        HostOs::Other => Seq::empty(),
    }
}

/// The two places Codex may be installed under a Windows base directory.
pub open spec fn codex_under(b: Seq<char>) -> Seq<char> {
    windows_join(windows_join(b, "Codex"@), "Codex.exe"@)
}

pub open spec fn chatgpt_under(b: Seq<char>) -> Seq<char> {
    windows_join(windows_join(windows_join(b, "OpenAI"@), "Codex"@), "ChatGPT.exe"@)
}

/// On Windows every base directory that is set (`LOCALAPPDATA`,
/// `PROGRAMFILES`, `PROGRAMFILES(X86)`) is searched for `Codex\Codex.exe`
/// and `OpenAI\Codex\ChatGPT.exe`; with `PROGRAMFILES` alone set, these two
/// are the only candidates.
pub proof fn lemma_windows_bases_searched(
    home: Option<Seq<char>>,
    local_app_data: Option<Seq<char>>,
    program_files: Option<Seq<char>>,
    program_files_x86: Option<Seq<char>>,
)
    ensures
        ({
            let c = candidates(HostOs::Windows, home, local_app_data, program_files, program_files_x86);
            &&& (local_app_data matches Some(b) ==> c.contains(codex_under(b)) && c.contains(chatgpt_under(b)))
            &&& (program_files matches Some(b) ==> c.contains(codex_under(b)) && c.contains(chatgpt_under(b)))
            &&& (program_files_x86 matches Some(b) ==> c.contains(codex_under(b)) && c.contains(
                chatgpt_under(b),
            ))
        }),
        program_files matches Some(p) ==> candidates(HostOs::Windows, home, None, Some(p), None) == seq![
            codex_under(p),
            chatgpt_under(p),
        ],
{
    let c = candidates(HostOs::Windows, home, local_app_data, program_files, program_files_x86);
    let l = windows_base_candidates(local_app_data);
    let p = windows_base_candidates(program_files);
    let x = windows_base_candidates(program_files_x86);
    let aliases = match local_app_data {
        Some(la) => {
            let dir = windows_join(windows_join(la, "Microsoft"@), "WindowsApps"@);
            seq![windows_join(dir, "ChatGPT.exe"@), windows_join(dir, "Codex.exe"@)]
        },
        None => Seq::empty(),
    };
    assert(c == l + p + x + aliases);
    if let Some(b) = local_app_data {
        assert(c[0] == codex_under(b));
        assert(c[1] == chatgpt_under(b));
    }
    if let Some(b) = program_files {
        assert(c[l.len() as int] == codex_under(b));
        assert(c[(l.len() + 1) as int] == chatgpt_under(b));
        assert(candidates(HostOs::Windows, home, None, Some(b), None) =~= seq![
            codex_under(b),
            chatgpt_under(b),
        ]);
    }
    if let Some(b) = program_files_x86 {
        assert(c[(l.len() + p.len()) as int] == codex_under(b));
        assert(c[(l.len() + p.len() + 1) as int] == chatgpt_under(b));
    }
}

pub open spec fn strings_view(v: Seq<String>) -> Seq<Seq<char>> {
    v.map_values(|s: String| s@)
}

fn push_windows_base(paths: &mut Vec<String>, base: Option<&str>)
    ensures
        strings_view(final(paths)@) == strings_view(old(paths)@) + windows_base_candidates(
            opt_str_view(base),
        ),
{
    if let Some(b) = base {
        let codex_dir = windows_path_join(b, "Codex");
        paths.push(windows_path_join(codex_dir.as_str(), "Codex.exe"));
        let openai = windows_path_join(b, "OpenAI");
        let openai_codex = windows_path_join(openai.as_str(), "Codex");
        paths.push(windows_path_join(openai_codex.as_str(), "ChatGPT.exe"));
    }
    assert(strings_view(paths@) =~= strings_view(old(paths)@) + windows_base_candidates(
        opt_str_view(base),
    ));
}

/// The paths where Codex may be installed, in the order they are tried.
pub fn candidate_paths(
    os: HostOs,
    home: Option<&str>,
    local_app_data: Option<&str>,
    program_files: Option<&str>,
    program_files_x86: Option<&str>,
) -> (r: Vec<String>)
    ensures
        strings_view(r@) == candidates(
            os,
            opt_str_view(home),
            opt_str_view(local_app_data),
            opt_str_view(program_files),
            opt_str_view(program_files_x86),
        ),
{
    let mut paths: Vec<String> = Vec::new();
    match os {
        HostOs::MacOs => {
            paths.push(String::from_str("/Applications/Codex.app/Contents/MacOS/Codex"));
            paths.push(String::from_str("/Applications/ChatGPT.app/Contents/MacOS/ChatGPT"));
            if let Some(h) = home {
                paths.push(path_join(h, "Applications/ChatGPT.app/Contents/MacOS/ChatGPT"));
                paths.push(path_join(h, "Applications/Codex.app/Contents/MacOS/Codex"));
            }
            assert(strings_view(paths@) =~= mac_candidates(opt_str_view(home)));
        },
        HostOs::Windows => {
            push_windows_base(&mut paths, local_app_data);
            push_windows_base(&mut paths, program_files);
            push_windows_base(&mut paths, program_files_x86);
            let ghost before = strings_view(paths@);
            if let Some(l) = local_app_data {
                let ms = windows_path_join(l, "Microsoft");
                let aliases = windows_path_join(ms.as_str(), "WindowsApps");
                paths.push(windows_path_join(aliases.as_str(), "ChatGPT.exe"));
                paths.push(windows_path_join(aliases.as_str(), "Codex.exe"));
            }
            assert(strings_view(paths@) =~= windows_candidates(
                opt_str_view(local_app_data),
                opt_str_view(program_files),
                opt_str_view(program_files_x86),
            ));
        },
        HostOs::Other => {
            assert(strings_view(paths@) =~= Seq::<Seq<char>>::empty());
        },
    }
    paths
}

/// The candidates that are regular files, in order.
pub open spec fn present_paths(c: Seq<Seq<char>>, is_file: Seq<bool>) -> Seq<Seq<char>>
    decreases c.len(),
{
    if c.len() == 0 {
        Seq::empty()
    } else {
        let rest = present_paths(c.drop_last(), is_file);
        if is_file[c.len() - 1] {
            rest.push(c.last())
        } else {
            rest
        }
    }
}

/// The Codex installations among the candidate paths: those that are
/// regular files (`is_file[i]` for `candidates[i]`), named "Codex".
pub fn detect_codex(candidates: Vec<String>, is_file: &Vec<bool>) -> (r: Vec<CodexInstallation>)
    requires
        is_file@.len() == candidates@.len(),
    ensures
        r@.map_values(|c: CodexInstallation| c.executable@) == present_paths(
            strings_view(candidates@),
            is_file@,
        ),
        forall|i: int| 0 <= i < r@.len() ==> (#[trigger] r@[i]).display_name@ == "Codex"@,
{
    let ghost c = strings_view(candidates@);
    let mut r: Vec<CodexInstallation> = Vec::new();
    let n = candidates.len();
    let mut i: usize = 0;
    while i < n
        invariant
            n == candidates@.len(),
            is_file@.len() == n,
            c == strings_view(candidates@),
            i <= n,
            r@.map_values(|x: CodexInstallation| x.executable@) == present_paths(c.take(i as int), is_file@),
            forall|k: int| 0 <= k < r@.len() ==> (#[trigger] r@[k]).display_name@ == "Codex"@,
        decreases n - i,
    {
        assert(c.take(i + 1).drop_last() =~= c.take(i as int));
        if is_file[i] {
            r.push(CodexInstallation {
                executable: candidates[i].clone(),
                display_name: String::from_str("Codex"),
            });
        }
        assert(r@.map_values(|x: CodexInstallation| x.executable@) =~= present_paths(
            c.take(i + 1),
            is_file@,
        ));
        i = i + 1;
    }
    assert(c.take(n as int) =~= c);
    r
}

// ----- comparing paths -----
/// A path separator on this operating system: `/`, and also `\` on
/// Windows.
pub open spec fn is_separator(os: HostOs, c: char) -> bool {
    c == '/' || (os == HostOs::Windows && c == '\\')
}

/// Index of the last separator in `s`, or -1.
pub open spec fn last_separator(os: HostOs, s: Seq<char>) -> int
    decreases s.len(),
{
    if s.len() == 0 {
        -1
    } else if is_separator(os, s.last()) {
        s.len() - 1
    } else {
        last_separator(os, s.drop_last())
    }
}

proof fn lemma_last_separator_bounds(os: HostOs, s: Seq<char>)
    ensures
        -1 <= last_separator(os, s) < s.len(),
        last_separator(os, s) >= 0 ==> is_separator(os, s[last_separator(os, s)]),
    decreases s.len(),
{
    if s.len() > 0 && !is_separator(os, s.last()) {
        lemma_last_separator_bounds(os, s.drop_last());
    }
}

fn find_last_separator(os: HostOs, v: &Vec<char>, end: usize) -> (r: Option<usize>)
    requires
        end <= v@.len(),
    ensures
        r matches Some(k) ==> k == last_separator(os, v@.take(end as int)),
        r is None ==> last_separator(os, v@.take(end as int)) == -1,
{
    let mut i = end;
    while i > 0
        invariant
            i <= end <= v@.len(),
            last_separator(os, v@.take(end as int)) == last_separator(os, v@.take(i as int)),
        decreases i,
    {
        assert(v@.take(i as int).drop_last() =~= v@.take(i - 1));
        let c = v[i - 1];
        if c == '/' || (os == HostOs::Windows && c == '\\') {
            return Some(i - 1);
        }
        i = i - 1;
    }
    None
}

/// The pieces of a path between its separators, in order.
pub open spec fn split_path(os: HostOs, s: Seq<char>) -> Seq<Seq<char>>
    decreases s.len(),
{
    let k = last_separator(os, s);
    if k < 0 || k >= s.len() {
        seq![s]
    } else {
        split_path(os, s.take(k)).push(s.skip(k + 1))
    }
}

/// The pieces that name something: empty pieces and `.` are left out.
pub open spec fn kept_parts(segs: Seq<Seq<char>>) -> Seq<Seq<char>>
    decreases segs.len(),
{
    if segs.len() == 0 {
        Seq::empty()
    } else {
        let rest = kept_parts(segs.drop_last());
        if segs.last().len() == 0 || segs.last() == seq!['.'] {
            rest
        } else {
            rest.push(segs.last())
        }
    }
}

/// The components `Path::components` gives for a path: `/` for a leading
/// root, then the first piece as it is (a leading `.` counts), then the
/// other pieces that name something.
pub open spec fn path_parts(os: HostOs, s: Seq<char>) -> Seq<Seq<char>> {
    let segs = split_path(os, s);
    let head = if segs[0].len() == 0 {
        if s.len() > 0 {
            seq![seq!['/']]
        } else {
            Seq::<Seq<char>>::empty()
        }
    } else {
        seq![segs[0]]
    };
    head + kept_parts(segs.skip(1))
}

/// Two paths are equal as `Path`s on this operating system: they have the
/// same components.
pub open spec fn same_path(os: HostOs, a: Seq<char>, b: Seq<char>) -> bool {
    path_parts(os, a) == path_parts(os, b)
}

proof fn lemma_split_path_nonempty(os: HostOs, s: Seq<char>)
    ensures
        split_path(os, s).len() >= 1,
    decreases s.len(),
{
    let k = last_separator(os, s);
    lemma_last_separator_bounds(os, s);
    if 0 <= k < s.len() {
        lemma_split_path_nonempty(os, s.take(k));
    }
}

fn segments_of(os: HostOs, v: &Vec<char>, end: usize) -> (r: Vec<String>)
    requires
        end <= v@.len(),
    ensures
        strings_view(r@) == split_path(os, v@.take(end as int)),
    decreases end,
{
    let ghost t = v@.take(end as int);
    let k = find_last_separator(os, v, end);
    proof {
        lemma_last_separator_bounds(os, t);
    }
    match k {
        None => {
            let mut r: Vec<String> = Vec::new();
            r.push(string_of_range(v, 0, end));
            assert(v@.subrange(0, end as int) =~= t);
            assert(strings_view(r@) =~= seq![t]);
            r
        },
        Some(k) => {
            let mut r = segments_of(os, v, k);
            let ghost before = r@;
            r.push(string_of_range(v, k + 1, end));
            assert(t.take(k as int) =~= v@.take(k as int));
            assert(t.skip(k + 1) =~= v@.subrange(k + 1, end as int));
            assert(strings_view(r@) =~= strings_view(before).push(t.skip(k + 1)));
            r
        },
    }
}

/// The components of a path on this operating system (see [`path_parts`]).
pub fn path_parts_of(os: HostOs, path: &str) -> (r: Vec<String>)
    ensures
        strings_view(r@) == path_parts(os, path@),
{
    let v = chars_of(path);
    let n = v.len();
    assert(v@.take(n as int) =~= path@);
    let segs = segments_of(os, &v, n);
    let ghost sv = strings_view(segs@);
    proof {
        lemma_split_path_nonempty(os, path@);
    }
    let mut out: Vec<String> = Vec::new();
    assert(sv[0] == segs@[0]@);
    if segs[0].as_str().unicode_len() == 0 {
        if n > 0 {
            out.push(String::from_str("/"));
            proof {
                reveal_strlit("/");
                assert("/"@ =~= seq!['/']);
            }
            assert(strings_view(out@) =~= seq![seq!['/']]);
        } else {
            assert(strings_view(out@) =~= Seq::<Seq<char>>::empty());
        }
    } else {
        out.push(segs[0].clone());
        assert(strings_view(out@) =~= seq![sv[0]]);
    }
    let ghost head = strings_view(out@);
    assert(head == if sv[0].len() == 0 {
        if path@.len() > 0 {
            seq![seq!['/']]
        } else {
            Seq::<Seq<char>>::empty()
        }
    } else {
        seq![sv[0]]
    });
    assert(sv.subrange(1, 1) =~= Seq::<Seq<char>>::empty());
    assert(head == head + kept_parts(sv.subrange(1, 1)));
    proof {
        reveal_strlit(".");
        assert("."@ =~= seq!['.']);
    }
    let m = segs.len();
    let mut i: usize = 1;
    while i < m
        invariant
            m == segs@.len(),
            sv == strings_view(segs@),
            1 <= i <= m,
            "."@ == seq!['.'],
            strings_view(out@) == head + kept_parts(sv.subrange(1, i as int)),
        decreases m - i,
    {
        let seg = segs[i].as_str();
        assert(sv.subrange(1, i + 1).drop_last() =~= sv.subrange(1, i as int));
        assert(sv.subrange(1, i + 1).last() == seg@);
        if seg.unicode_len() != 0 && !str_eq(seg, ".") {
            let ghost before = out@;
            out.push(segs[i].clone());
            assert(strings_view(out@) =~= strings_view(before).push(seg@));
        }
        i = i + 1;
    }
    assert(sv.subrange(1, m as int) =~= sv.skip(1));
    out
}

fn same_parts(a: &Vec<String>, b: &Vec<String>) -> (r: bool)
    ensures
        r == (strings_view(a@) == strings_view(b@)),
{
    if a.len() != b.len() {
        assert(strings_view(a@).len() != strings_view(b@).len());
        return false;
    }
    let n = a.len();
    let mut i: usize = 0;
    while i < n
        invariant
            n == a@.len(),
            n == b@.len(),
            i <= n,
            forall|k: int| 0 <= k < i ==> a@[k]@ == b@[k]@,
        decreases n - i,
    {
        if !str_eq(a[i].as_str(), b[i].as_str()) {
            assert(strings_view(a@)[i as int] != strings_view(b@)[i as int]);
            return false;
        }
        i = i + 1;
    }
    assert(strings_view(a@) =~= strings_view(b@));
    true
}

/// Only a detected Codex executable may be launched: the path must equal,
/// component by component on this operating system, one that detection
/// found.
pub fn check_launch_executable(os: HostOs, installed: &Vec<CodexInstallation>, executable: &str) -> (r:
    Result<(), AppError>)
    ensures
        r is Ok <==> exists|i: int|
            0 <= i < installed@.len() && same_path(os, (#[trigger] installed@[i]).executable@, executable@),
        r matches Err(e) ==> e.is_validation("所选程序不是已检测到的 Codex"@),
{
    let wanted = path_parts_of(os, executable);
    let n = installed.len();
    let mut i: usize = 0;
    while i < n
        invariant
            n == installed@.len(),
            i <= n,
            strings_view(wanted@) == path_parts(os, executable@),
            forall|k: int| 0 <= k < i ==> !same_path(os, (#[trigger] installed@[k]).executable@, executable@),
        decreases n - i,
    {
        let parts = path_parts_of(os, installed[i].executable.as_str());
        if same_parts(&parts, &wanted) {
            return Ok(());
        }
        i = i + 1;
    }
    Err(validation("所选程序不是已检测到的 Codex"))
}

/// The arguments Codex is launched with: DevTools on `port`, bound to the
/// loopback address only.
pub fn launch_arguments(port: u16) -> (r: Vec<String>)
    ensures
        strings_view(r@) == seq![
            "--remote-debugging-port="@ + dec(port as nat),
            "--remote-debugging-address=127.0.0.1"@,
        ],
{
    let mut a = String::from_str("--remote-debugging-port=");
    push_decimal(&mut a, port as u64);
    let mut r: Vec<String> = Vec::new();
    r.push(a);
    r.push(String::from_str("--remote-debugging-address=127.0.0.1"));
    assert(strings_view(r@) =~= seq![
        "--remote-debugging-port="@ + dec(port as nat),
        "--remote-debugging-address=127.0.0.1"@,
    ]);
    r
}

/// The DevTools endpoint that lists the targets on `port`.
pub fn devtools_list_url(port: u16) -> (r: String)
    ensures
        r@ == "http://127.0.0.1:"@ + dec(port as nat) + "/json/list"@,
{
    let mut r = String::from_str("http://127.0.0.1:");
    push_decimal(&mut r, port as u64);
    push_str(&mut r, "/json/list");
    r
}

/// The reason phrase the `http` crate gives a status code, if it knows one.
pub uninterp spec fn status_reason(code: u16) -> Option<Seq<char>>;

/// `reqwest::StatusCode::from_u16(code)` and its `canonical_reason()`. The
/// contract names the result; `from_u16` accepts every code in
/// `100..=999`.
#[verifier::external_body]
fn reason_phrase(code: u16) -> (r: Option<&'static str>)
    requires
        100 <= code <= 999,
    ensures
        match r {
            Some(p) => status_reason(code) == Some(p@),
            None => status_reason(code) is None,
        },
{
    match reqwest::StatusCode::from_u16(code) {
        Ok(status) => status.canonical_reason(),
        Err(_) => None,
    }
}

/// How `Display for StatusCode` writes a status: the code, a space, and
/// its reason phrase (`<unknown status code>` when there is none).
pub open spec fn status_text(code: u16) -> Seq<char> {
    dec(code as nat) + " "@ + match status_reason(code) {
        Some(p) => p,
        None => "<unknown status code>"@,
    }
}

/// Checks the HTTP status of the target list (a status code is always in
/// `100..=999`): only a success status passes.
pub fn check_list_status(code: u16) -> (r: Result<(), AppError>)
    requires
        100 <= code <= 999,
    ensures
        r is Ok <==> 200 <= code <= 299,
        r matches Err(e) ==> e.is_cdp("本机调试接口返回状态 "@ + status_text(code)),
{
    if 200 <= code && code <= 299 {
        return Ok(());
    }
    let mut m = String::from_str("本机调试接口返回状态 ");
    push_decimal(&mut m, code as u64);
    push_str(&mut m, " ");
    match reason_phrase(code) {
        Some(p) => push_str(&mut m, p),
        None => push_str(&mut m, "<unknown status code>"),
    }
    assert(m@ =~= "本机调试接口返回状态 "@ + status_text(code));
    Err(AppError::Cdp(m))
}

} // verus!
