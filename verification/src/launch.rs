//! Launching Chrome: release channels, where each channel's executable is
//! looked for, and the command line the browser is started with.

use vstd::prelude::*;

use crate::cdp::CdpError;
use crate::json::JsonValue;
use crate::text::{chars_of, decimal, owned, push_str, push_u64, split_chars, split_on, str_eq, views_of};

verus! {

/// Chrome release channel.
#[derive(Clone, Copy, Debug, PartialEq, Eq, Structural)]
pub enum Channel {
    Stable,
    Beta,
    Dev,
    Canary,
}

/// The operating system family the executable is looked for on.
#[derive(Clone, Copy, Debug, PartialEq, Eq, Structural)]
pub enum Platform {
    MacOs,
    Windows,
    Other,
}

/// Configuration for launching a new Chrome instance.
pub struct LaunchConfig {
    pub executable_path: Option<String>,
    pub channel: Channel,
    pub headless: bool,
    pub viewport: Option<(u32, u32)>,
    pub user_data_dir: Option<String>,
    pub isolated: bool,
    pub chrome_args: Vec<String>,
    pub ignore_default_chrome_args: Vec<String>,
    pub accept_insecure_certs: bool,
    pub enable_extensions: bool,
    pub devtools: bool,
    pub proxy_server: Option<String>,
}

impl Default for LaunchConfig {
    /// Headless stable Chrome with no extra settings.
    fn default() -> (r: LaunchConfig)
        ensures
            r.executable_path is None,
            r.channel == Channel::Stable,
            r.headless,
            r.viewport is None,
            r.user_data_dir is None,
            !r.isolated,
            r.chrome_args@.len() == 0,
            r.ignore_default_chrome_args@.len() == 0,
            !r.accept_insecure_certs,
            !r.enable_extensions,
            !r.devtools,
            r.proxy_server is None,
    {
        LaunchConfig {
            executable_path: None,
            channel: Channel::Stable,
            headless: true,
            viewport: None,
            user_data_dir: None,
            isolated: false,
            chrome_args: Vec::new(),
            ignore_default_chrome_args: Vec::new(),
            accept_insecure_certs: false,
            enable_extensions: false,
            devtools: false,
            proxy_server: None,
        }
    }
}

/// Configuration for connecting to an existing Chrome instance.
pub struct ConnectConfig {
    pub browser_url: Option<String>,
    pub ws_endpoint: Option<String>,
    pub ws_headers: Option<JsonValue>,
    pub channel: Option<Channel>,
    pub user_data_dir: Option<String>,
    pub devtools: bool,
}

// ---------------------------------------------------------------------------
// Executable candidates
// ---------------------------------------------------------------------------

/// The views of a list of string slices.
pub open spec fn strs_view(v: Seq<&str>) -> Seq<Seq<char>> {
    v.map_values(|s: &str| s@)
}

/// Where the stable channel is looked for.
pub open spec fn stable_candidates(p: Platform) -> Seq<Seq<char>> {
    match p {
        Platform::MacOs => seq![
            "/Applications/Google Chrome.app/Contents/MacOS/Google Chrome"@,
            "google-chrome"@,
            "chrome"@,
        ],
        Platform::Windows => seq![
            "C:\\Program Files\\Google\\Chrome\\Application\\chrome.exe"@,
            "C:\\Program Files (x86)\\Google\\Chrome\\Application\\chrome.exe"@,
        ],
        Platform::Other => seq![
            "google-chrome-stable"@,
            "google-chrome"@,
            "chrome"@,
            "chromium-browser"@,
            "chromium"@,
        ],
    }
}

/// Where the canary channel is looked for.
pub open spec fn canary_candidates(p: Platform) -> Seq<Seq<char>> {
    match p {
        Platform::MacOs => seq![
            "/Applications/Google Chrome Canary.app/Contents/MacOS/Google Chrome Canary"@,
        ],
        Platform::Windows => seq![
            "C:\\Users\\*\\AppData\\Local\\Google\\Chrome SxS\\Application\\chrome.exe"@,
        ],
        Platform::Other => seq!["google-chrome-unstable"@],
    }
}

/// Where the beta channel is looked for.
pub open spec fn beta_candidates(p: Platform) -> Seq<Seq<char>> {
    match p {
        Platform::MacOs => seq![
            "/Applications/Google Chrome Beta.app/Contents/MacOS/Google Chrome Beta"@,
        ],
        _ => seq!["google-chrome-beta"@],
    }
}

/// Where the dev channel is looked for.
pub open spec fn dev_candidates(p: Platform) -> Seq<Seq<char>> {
    match p {
        Platform::MacOs => seq![
            "/Applications/Google Chrome Dev.app/Contents/MacOS/Google Chrome Dev"@,
        ],
        _ => seq!["google-chrome-dev"@, "google-chrome-unstable"@],
    }
}

/// Executable names and paths for the stable channel, in search order.
pub fn chrome_stable_candidates(platform: Platform) -> (r: Vec<&'static str>)
    ensures
        strs_view(r@) == stable_candidates(platform),
{
    let r = match platform {
        Platform::MacOs => vec![
            "/Applications/Google Chrome.app/Contents/MacOS/Google Chrome",
            "google-chrome",
            "chrome",
        ],
        Platform::Windows => vec![
            "C:\\Program Files\\Google\\Chrome\\Application\\chrome.exe",
            "C:\\Program Files (x86)\\Google\\Chrome\\Application\\chrome.exe",
        ],
        Platform::Other => vec![
            "google-chrome-stable",
            "google-chrome",
            "chrome",
            "chromium-browser",
            "chromium",
        ],
    };
    assert(strs_view(r@) =~= stable_candidates(platform));
    r
}

/// Executable names and paths for the canary channel.
pub fn chrome_canary_candidates(platform: Platform) -> (r: Vec<&'static str>)
    ensures
        strs_view(r@) == canary_candidates(platform),
{
    let r = match platform {
        Platform::MacOs => vec![
            "/Applications/Google Chrome Canary.app/Contents/MacOS/Google Chrome Canary",
        ],
        Platform::Windows => vec![
            "C:\\Users\\*\\AppData\\Local\\Google\\Chrome SxS\\Application\\chrome.exe",
        ],
        Platform::Other => vec!["google-chrome-unstable"],
    };
    assert(strs_view(r@) =~= canary_candidates(platform));
    r
}

/// Executable names and paths for the beta channel.
pub fn chrome_beta_candidates(platform: Platform) -> (r: Vec<&'static str>)
    ensures
        strs_view(r@) == beta_candidates(platform),
{
    let r = match platform {
        Platform::MacOs => vec![
            "/Applications/Google Chrome Beta.app/Contents/MacOS/Google Chrome Beta",
        ],
        _ => vec!["google-chrome-beta"],
    };
    assert(strs_view(r@) =~= beta_candidates(platform));
    r
}

/// Executable names and paths for the dev channel.
pub fn chrome_dev_candidates(platform: Platform) -> (r: Vec<&'static str>)
    ensures
        strs_view(r@) == dev_candidates(platform),
{
    let r = match platform {
        Platform::MacOs => vec![
            "/Applications/Google Chrome Dev.app/Contents/MacOS/Google Chrome Dev",
        ],
        _ => vec!["google-chrome-dev", "google-chrome-unstable"],
    };
    assert(strs_view(r@) =~= dev_candidates(platform));
    r
}

/// `which::which`: the executable that `name` resolves to on the search
/// path, shown as a string.
///
/// Trusted, with nothing stated of the result: it depends on the
/// environment and on what is on disk. The path is shown with
/// `Path::display`, so a path that is not valid UTF-8 comes back with its
/// invalid parts replaced.
#[verifier::external_body]
fn which_path(name: &str) -> (r: Option<String>) {
    match which::which(name) {
        Ok(p) => Some(p.display().to_string()),
        Err(_) => None,
    }
}

/// `std::path::Path::exists`.
///
/// Trusted, with nothing stated of the result: it depends on what is on
/// disk.
#[verifier::external_body]
fn path_exists(path: &str) -> (r: bool) {
    std::path::Path::new(path).exists()
}

/// Where a channel is looked for.
pub open spec fn channel_candidates(c: Channel, p: Platform) -> Seq<Seq<char>> {
    match c {
        Channel::Canary => canary_candidates(p),
        Channel::Beta => beta_candidates(p),
        Channel::Dev => dev_candidates(p),
        Channel::Stable => stable_candidates(p),
    }
}

/// The first path the search path gave, in candidate order.
pub open spec fn first_on_path(on_path: Seq<Option<Seq<char>>>) -> Option<Seq<char>>
    decreases on_path.len(),
{
    if on_path.len() == 0 {
        None
    } else if on_path[0] is Some {
        on_path[0]
    } else {
        first_on_path(on_path.drop_first())
    }
}

/// The first candidate that exists as a file.
pub open spec fn first_on_disk(cands: Seq<Seq<char>>, on_disk: Seq<bool>) -> Option<Seq<char>>
    decreases cands.len(),
{
    if cands.len() == 0 || on_disk.len() == 0 {
        None
    } else if on_disk[0] {
        Some(cands[0])
    } else {
        first_on_disk(cands.drop_first(), on_disk.drop_first())
    }
}

/// The executable chosen from the lookups of the candidates: the first one
/// the search path resolves, else the first candidate that exists as a file,
/// else none. `on_path[i]` and `on_disk[i]` are the lookups of `cands[i]`.
pub open spec fn chrome_choice(
    cands: Seq<Seq<char>>,
    on_path: Seq<Option<Seq<char>>>,
    on_disk: Seq<bool>,
) -> Option<Seq<char>> {
    match first_on_path(on_path) {
        Some(p) => Some(p),
        None => first_on_disk(cands, on_disk),
    }
}

/// The views of a list of optional strings.
pub open spec fn opt_views(v: Seq<Option<String>>) -> Seq<Option<Seq<char>>> {
    v.map_values(|o: Option<String>| opt_view(o))
}

/// Chooses the executable from the lookups of the candidates, as
/// `chrome_choice` says.
pub fn choose_chrome(candidates: &Vec<&str>, on_path: &Vec<Option<String>>, on_disk: &Vec<bool>) -> (r:
    Option<String>)
    requires
        on_path@.len() == candidates@.len(),
        on_disk@.len() == candidates@.len(),
    ensures
        opt_view(r) == chrome_choice(strs_view(candidates@), opt_views(on_path@), on_disk@),
{
    let ghost ov = opt_views(on_path@);
    let ghost cv = strs_view(candidates@);
    let mut i: usize = 0;
    assert(ov.subrange(0, ov.len() as int) =~= ov);
    while i < on_path.len()
        invariant
            i <= on_path@.len(),
            ov == opt_views(on_path@),
            first_on_path(ov) == first_on_path(ov.subrange(i as int, ov.len() as int)),
        decreases on_path@.len() - i,
    {
        let ghost rest = ov.subrange(i as int, ov.len() as int);
        assert(rest[0] == opt_view(on_path@[i as int]));
        assert(rest.drop_first() =~= ov.subrange(i + 1, ov.len() as int));
        match &on_path[i] {
            Some(p) => {
                return Some(p.clone());
            },
            None => {},
        }
        i = i + 1;
    }
    assert(ov.subrange(i as int, ov.len() as int) =~= Seq::<Option<Seq<char>>>::empty());
    let mut j: usize = 0;
    assert(cv.subrange(0, cv.len() as int) =~= cv);
    assert(on_disk@.subrange(0, on_disk@.len() as int) =~= on_disk@);
    while j < candidates.len()
        invariant
            j <= candidates@.len(),
            on_disk@.len() == candidates@.len(),
            cv == strs_view(candidates@),
            ov == opt_views(on_path@),
            first_on_path(ov) is None,
            first_on_disk(cv, on_disk@) == first_on_disk(
                cv.subrange(j as int, cv.len() as int),
                on_disk@.subrange(j as int, on_disk@.len() as int),
            ),
        decreases candidates@.len() - j,
    {
        let ghost rc = cv.subrange(j as int, cv.len() as int);
        let ghost rd = on_disk@.subrange(j as int, on_disk@.len() as int);
        assert(rc[0] == candidates@[j as int]@);
        assert(rd[0] == on_disk@[j as int]);
        assert(rc.drop_first() =~= cv.subrange(j + 1, cv.len() as int));
        assert(rd.drop_first() =~= on_disk@.subrange(j + 1, on_disk@.len() as int));
        if on_disk[j] {
            return Some(owned(candidates[j]));
        }
        j = j + 1;
    }
    None
}

/// Find the Chrome executable: the configured path, else the executable
/// chosen from the lookups of the channel's candidates (`chrome_choice`):
/// the first one found on the search path, else the first that exists as a
/// file. The search path is consulted candidate by candidate until one is
/// found, and the files only when none is. What the lookups give depends on
/// the machine; the result is the choice for what they gave.
pub fn find_chrome(config: &LaunchConfig, platform: Platform) -> (r: Result<String, CdpError>)
    ensures
        match config.executable_path {
            Some(p) => r matches Ok(x) && x@ == p@,
            None => exists|on_path: Seq<Option<Seq<char>>>, on_disk: Seq<bool>|
                on_path.len() == channel_candidates(config.channel, platform).len()
                    && on_disk.len() == channel_candidates(config.channel, platform).len()
                    && match #[trigger] chrome_choice(
                    channel_candidates(config.channel, platform),
                    on_path,
                    on_disk,
                ) {
                    Some(x) => r matches Ok(y) && y@ == x,
                    None => r matches Err(e) && e is ChromeNotFound,
                },
        },
{
    if let Some(p) = &config.executable_path {
        return Ok(p.clone());
    }
    let candidates = match config.channel {
        Channel::Canary => chrome_canary_candidates(platform),
        Channel::Beta => chrome_beta_candidates(platform),
        Channel::Dev => chrome_dev_candidates(platform),
        Channel::Stable => chrome_stable_candidates(platform),
    };
    let n = candidates.len();
    let mut on_path: Vec<Option<String>> = Vec::new();
    let mut found = false;
    let mut i: usize = 0;
    while i < n
        invariant
            i <= n,
            n == candidates@.len(),
            on_path@.len() == i,
        decreases n - i,
    {
        let hit = if found {
            None
        } else {
            which_path(candidates[i])
        };
        if hit.is_some() {
            found = true;
        }
        on_path.push(hit);
        i = i + 1;
    }
    let mut on_disk: Vec<bool> = Vec::new();
    let mut j: usize = 0;
    while j < n
        invariant
            j <= n,
            n == candidates@.len(),
            on_disk@.len() == j,
        decreases n - j,
    {
        let hit = if found {
            false
        } else {
            path_exists(candidates[j])
        };
        if hit {
            found = true;
        }
        on_disk.push(hit);
        j = j + 1;
    }
    let choice = choose_chrome(&candidates, &on_path, &on_disk);
    let ghost cands = channel_candidates(config.channel, platform);
    assert(strs_view(candidates@) == cands);
    let ghost op = opt_views(on_path@);
    assert(op.len() == cands.len());
    let r = match choice {
        Some(p) => Ok(p),
        None => Err(CdpError::ChromeNotFound),
    };
    assert(chrome_choice(cands, op, on_disk@) == opt_view(choice));
    r
}

// ---------------------------------------------------------------------------
// Command line
// ---------------------------------------------------------------------------

/// The flags Chrome gets by default when automated.
pub open spec fn default_flags() -> Seq<Seq<char>> {
    seq![
        "--disable-background-networking"@,
        "--disable-background-timer-throttling"@,
        "--disable-backgrounding-occluded-windows"@,
        "--disable-breakpad"@,
        "--disable-component-extensions-with-background-pages"@,
        "--disable-component-update"@,
        "--disable-default-apps"@,
        "--disable-dev-shm-usage"@,
        "--disable-hang-monitor"@,
        "--disable-ipc-flooding-protection"@,
        "--disable-popup-blocking"@,
        "--disable-prompt-on-repost"@,
        "--disable-renderer-backgrounding"@,
        "--disable-sync"@,
        "--enable-features=NetworkService,NetworkServiceInProcess"@,
        "--force-color-profile=srgb"@,
        "--metrics-recording-only"@,
        "--no-first-run"@,
        "--password-store=basic"@,
        "--use-mock-keychain"@,
    ]
}

fn default_flag_list() -> (r: Vec<&'static str>)
    ensures
        strs_view(r@) == default_flags(),
{
    let r = vec![
        "--disable-background-networking",
        "--disable-background-timer-throttling",
        "--disable-backgrounding-occluded-windows",
        "--disable-breakpad",
        "--disable-component-extensions-with-background-pages",
        "--disable-component-update",
        "--disable-default-apps",
        "--disable-dev-shm-usage",
        "--disable-hang-monitor",
        "--disable-ipc-flooding-protection",
        "--disable-popup-blocking",
        "--disable-prompt-on-repost",
        "--disable-renderer-backgrounding",
        "--disable-sync",
        "--enable-features=NetworkService,NetworkServiceInProcess",
        "--force-color-profile=srgb",
        "--metrics-recording-only",
        "--no-first-run",
        "--password-store=basic",
        "--use-mock-keychain",
    ];
    assert(strs_view(r@) =~= default_flags());
    r
}

/// The name of a flag: the part before its first `=`.
pub open spec fn flag_name(flag: Seq<char>) -> Seq<char> {
    split_on(flag, '=')[0]
}

/// Whether a default flag is to be left out: some ignored argument is its
/// name or the whole flag.
pub open spec fn is_ignored(ignore: Seq<Seq<char>>, flag: Seq<char>) -> bool {
    exists|i: int| 0 <= i < ignore.len() && (ignore[i] == flag_name(flag) || ignore[i] == flag)
}

/// The default flags that are not ignored, in order.
pub open spec fn kept_defaults(ignore: Seq<Seq<char>>, flags: Seq<Seq<char>>) -> Seq<Seq<char>>
    decreases flags.len(),
{
    if flags.len() == 0 {
        Seq::empty()
    } else {
        let rest = kept_defaults(ignore, flags.drop_last());
        if is_ignored(ignore, flags.last()) {
            rest
        } else {
            rest.push(flags.last())
        }
    }
}

/// An optional string's view.
pub open spec fn opt_view(o: Option<String>) -> Option<Seq<char>> {
    match o {
        Some(s) => Some(s@),
        None => None,
    }
}

/// One argument when the condition holds, none otherwise.
pub open spec fn arg_if(cond: bool, arg: Seq<char>) -> Seq<Seq<char>> {
    if cond {
        seq![arg]
    } else {
        Seq::empty()
    }
}

/// The command line Chrome is launched with: the flags the configuration
/// asks for, then the default flags that are not ignored, then the extra
/// arguments.
pub open spec fn chrome_command_line(config: LaunchConfig, user_data_dir: Option<Seq<char>>) -> Seq<
    Seq<char>,
> {
    arg_if(config.headless, "--headless=new"@) + match user_data_dir {
        Some(d) => seq!["--user-data-dir="@ + d],
        None => Seq::empty(),
    } + match config.viewport {
        Some((w, h)) => seq!["--window-size="@ + decimal(w as nat) + ","@ + decimal(h as nat)],
        None => Seq::empty(),
    } + arg_if(config.accept_insecure_certs, "--ignore-certificate-errors"@) + arg_if(
        !config.enable_extensions,
        "--disable-extensions"@,
    ) + match opt_view(config.proxy_server) {
        Some(p) => seq!["--proxy-server="@ + p],
        None => Seq::empty(),
    } + kept_defaults(views_of(config.ignore_default_chrome_args@), default_flags()) + views_of(
        config.chrome_args@,
    )
}

fn push_arg(args: &mut Vec<String>, arg: String)
    ensures
        views_of(final(args)@) == views_of(old(args)@).push(arg@),
{
    let ghost a = arg@;
    args.push(arg);
    assert(views_of(args@) =~= views_of(old(args)@).push(a));
}

fn ignored_default(ignore: &Vec<String>, flag: &str) -> (r: bool)
    ensures
        r == is_ignored(views_of(ignore@), flag@),
{
    let cs = chars_of(flag);
    let parts = split_chars(&cs, '=');
    proof {
        crate::text::lemma_split_on_nonempty(flag@, '=');
    }
    let name = crate::text::string_of(&parts[0]);
    let ghost iv = views_of(ignore@);
    let mut i: usize = 0;
    while i < ignore.len()
        invariant
            i <= ignore@.len(),
            iv == views_of(ignore@),
            name@ == flag_name(flag@),
            forall|k: int| 0 <= k < i ==> !(iv[k] == flag_name(flag@) || iv[k] == flag@),
        decreases ignore@.len() - i,
    {
        if str_eq(ignore[i].as_str(), name.as_str()) || str_eq(ignore[i].as_str(), flag) {
            assert(iv[i as int] == ignore@[i as int]@);
            return true;
        }
        i = i + 1;
    }
    false
}

/// Builds the command-line arguments Chrome is launched with.
pub fn build_chrome_args(config: &LaunchConfig, user_data_dir: Option<&str>) -> (r: Vec<String>)
    ensures
        views_of(r@) == chrome_command_line(
            *config,
            match user_data_dir {
                Some(d) => Some(d@),
                None => None,
            },
        ),
{
    let mut args: Vec<String> = Vec::new();
    assert(views_of(args@) =~= Seq::<Seq<char>>::empty());
    if config.headless {
        push_arg(&mut args, owned("--headless=new"));
    }
    if let Some(dir) = user_data_dir {
        let mut a = owned("--user-data-dir=");
        push_str(&mut a, dir);
        push_arg(&mut args, a);
    }
    if let Some((w, h)) = config.viewport {
        let mut a = owned("--window-size=");
        push_u64(&mut a, w as u64);
        push_str(&mut a, ",");
        push_u64(&mut a, h as u64);
        push_arg(&mut args, a);
    }
    if config.accept_insecure_certs {
        push_arg(&mut args, owned("--ignore-certificate-errors"));
    }
    if !config.enable_extensions {
        push_arg(&mut args, owned("--disable-extensions"));
    }
    if let Some(proxy) = &config.proxy_server {
        let mut a = owned("--proxy-server=");
        push_str(&mut a, proxy.as_str());
        push_arg(&mut args, a);
    }
    let ghost head = views_of(args@);
    let defaults = default_flag_list();
    let ghost dv = strs_view(defaults@);
    let ghost iv = views_of(config.ignore_default_chrome_args@);
    let mut i: usize = 0;
    while i < defaults.len()
        invariant
            i <= defaults@.len(),
            dv == strs_view(defaults@),
            dv == default_flags(),
            iv == views_of(config.ignore_default_chrome_args@),
            views_of(args@) == head + kept_defaults(iv, dv.take(i as int)),
        decreases defaults@.len() - i,
    {
        assert(dv.take(i + 1).drop_last() =~= dv.take(i as int));
        assert(dv.take(i + 1).last() == defaults@[i as int]@);
        if !ignored_default(&config.ignore_default_chrome_args, defaults[i]) {
            push_arg(&mut args, owned(defaults[i]));
        }
        i = i + 1;
        assert(views_of(args@) =~= head + kept_defaults(iv, dv.take(i as int)));
    }
    assert(dv.take(defaults@.len() as int) =~= dv);
    let ghost mid = views_of(args@);
    let extra = &config.chrome_args;
    let mut j: usize = 0;
    while j < extra.len()
        invariant
            j <= extra@.len(),
            views_of(args@) == mid + views_of(extra@).take(j as int),
        decreases extra@.len() - j,
    {
        push_arg(&mut args, extra[j].clone());
        j = j + 1;
        assert(views_of(args@) =~= mid + views_of(extra@).take(j as int));
    }
    assert(views_of(extra@).take(extra@.len() as int) =~= views_of(extra@));
    args
}

} // verus!
