//! Command-line configuration and what it asks of the browser: the
//! viewport and channel options as parsed, and the launch or connect
//! settings derived from them.

use vstd::prelude::*;

use crate::json::JsonValue;
use crate::launch::{Channel, ConnectConfig, LaunchConfig};
use crate::text::{
    chars_of, clone_opt, clone_strings, owned, push_str, split_chars, split_on, str_eq,
    lowered, to_lowercase,
};

verus! {

/// Server configuration as given on the command line.
pub struct Config {
    pub headless: bool,
    pub executable_path: Option<String>,
    pub channel: String,
    pub isolated: bool,
    pub user_data_dir: Option<String>,
    pub viewport: Option<String>,
    pub proxy_server: Option<String>,
    pub accept_insecure_certs: bool,
    pub chrome_args: Vec<String>,
    pub ignore_default_chrome_args: Vec<String>,
    pub browser_url: Option<String>,
    pub ws_endpoint: Option<String>,
    pub ws_headers: Option<String>,
    pub auto_connect: bool,
    pub slim: bool,
    pub experimental_vision: bool,
    pub experimental_screencast: bool,
    pub experimental_page_id_routing: bool,
    pub experimental_devtools: bool,
    pub category_emulation: bool,
    pub category_performance: bool,
    pub category_network: bool,
    pub category_extensions: bool,
    pub category_in_page_tools: bool,
    pub performance_crux: bool,
    pub lighthouse_path: Option<String>,
    pub log_file: Option<String>,
}

// ---------------------------------------------------------------------------
// Unsigned integer syntax (as `str::parse::<u32>`)
// ---------------------------------------------------------------------------

/// Whether every character is an ASCII digit.
pub open spec fn all_digits(d: Seq<char>) -> bool {
    forall|i: int| 0 <= i < d.len() ==> '0' <= #[trigger] d[i] && d[i] <= '9'
}

/// The value of a string of decimal digits.
pub open spec fn digits_value(d: Seq<char>) -> int
    decreases d.len(),
{
    if d.len() == 0 {
        0
    } else {
        digits_value(d.drop_last()) * 10 + (d.last() as int - '0' as int)
    }
}

/// The `u32` a string denotes: an optional `+`, then at least one decimal
/// digit, with a value that fits.
pub open spec fn parse_u32(s: Seq<char>) -> Option<u32> {
    let d = if s.len() > 0 && s[0] == '+' {
        s.drop_first()
    } else {
        s
    };
    if d.len() > 0 && all_digits(d) && digits_value(d) <= u32::MAX {
        Some(digits_value(d) as u32)
    } else {
        None
    }
}

/// Parses a `u32` from its decimal text.
pub fn parse_u32_chars(s: &Vec<char>) -> (r: Option<u32>)
    ensures
        r == parse_u32(s@),
{
    let start: usize = if s.len() > 0 && s[0] == '+' {
        1
    } else {
        0
    };
    let ghost d = if s@.len() > 0 && s@[0] == '+' {
        s@.drop_first()
    } else {
        s@
    };
    assert(d =~= s@.subrange(start as int, s@.len() as int));
    if start == s.len() {
        return None;
    }
    let mut v: u64 = 0;
    let mut overflow = false;
    let mut i: usize = start;
    while i < s.len()
        invariant
            start <= i <= s@.len(),
            d == s@.subrange(start as int, s@.len() as int),
            d == (if s@.len() > 0 && s@[0] == '+' {
                s@.drop_first()
            } else {
                s@
            }),
            all_digits(d.take(i - start)),
            digits_value(d.take(i - start)) >= 0,
            overflow ==> digits_value(d.take(i - start)) > u32::MAX,
            !overflow ==> v == digits_value(d.take(i - start)),
            v <= u32::MAX,
        decreases s@.len() - i,
    {
        let c = s[i];
        let ghost k = i - start;
        assert(d.take(k + 1).drop_last() =~= d.take(k));
        assert(d.take(k + 1).last() == c);
        if !('0' <= c && c <= '9') {
            assert(d[k] == c);
            return None;
        }
        let digit: u64 = (c as u32 - 48) as u64;
        if !overflow {
            let next = v * 10 + digit;
            if next > 4294967295u64 {
                overflow = true;
            } else {
                v = next;
            }
        }
        i = i + 1;
        assert(all_digits(d.take(i - start))) by {
            assert forall|j: int| 0 <= j < d.take(i - start).len() implies '0' <= #[trigger] d.take(
                i - start,
            )[j] && d.take(i - start)[j] <= '9' by {
                if j < k {
                    assert(d.take(i - start)[j] == d.take(k)[j]);
                }
            }
        }
    }
    assert(d.take(s@.len() - start) =~= d);
    if overflow {
        None
    } else {
        Some(v as u32)
    }
}

// ---------------------------------------------------------------------------
// Derived settings
// ---------------------------------------------------------------------------

/// The viewport a `WxH` option asks for.
pub open spec fn viewport_of(v: Option<String>) -> Option<(u32, u32)> {
    match v {
        Some(text) => {
            let parts = split_on(text@, 'x');
            if parts.len() == 2 {
                match (parse_u32(parts[0]), parse_u32(parts[1])) {
                    (Some(w), Some(h)) => Some((w, h)),
                    _ => None,
                }
            } else {
                None
            }
        },
        None => None,
    }
}

/// The release channel a channel option names (compared after lower-casing,
/// ASCII case folding for ASCII text;
/// anything unknown is the stable channel).
pub open spec fn channel_of(name: Seq<char>) -> Channel {
    let l = lowered(name);
    if l == "canary"@ {
        Channel::Canary
    } else if l == "beta"@ {
        Channel::Beta
    } else if l == "dev"@ {
        Channel::Dev
    } else {
        Channel::Stable
    }
}

/// The first line of the notice printed at start-up.
pub open spec fn notice_text(version: Seq<char>) -> Seq<char> {
    "browsertools-mcp v"@ + version
        + " exposes browser content to MCP clients.\nAvoid sharing sensitive information you do not want to share with MCP clients."@
}

/// The line printed when field performance data may be sent out.
pub open spec fn crux_notice() -> Seq<char> {
    "Performance tools may send trace URLs to the Google CrUX API. To disable, run with --no-performance-crux."@
}

impl Config {
    /// Parse the viewport string (e.g., "1280x720") into (width, height).
    pub fn viewport_size(&self) -> (r: Option<(u32, u32)>)
        ensures
            r == viewport_of(self.viewport),
    {
        match &self.viewport {
            Some(v) => {
                let cs = chars_of(v.as_str());
                let parts = split_chars(&cs, 'x');
                if parts.len() == 2 {
                    let w = parse_u32_chars(&parts[0]);
                    let h = parse_u32_chars(&parts[1]);
                    match (w, h) {
                        (Some(w), Some(h)) => Some((w, h)),
                        _ => None,
                    }
                } else {
                    None
                }
            },
            None => None,
        }
    }

    /// Parse the Chrome channel string into a `Channel`.
    pub fn chrome_channel(&self) -> (r: Channel)
        ensures
            r == channel_of(self.channel@),
    {
        let folded = to_lowercase(self.channel.as_str());
        let l = folded.as_str();
        if str_eq(l, "canary") {
            Channel::Canary
        } else if str_eq(l, "beta") {
            Channel::Beta
        } else if str_eq(l, "dev") {
            Channel::Dev
        } else {
            Channel::Stable
        }
    }

    /// Whether the server attaches to a running browser (a browser URL, a
    /// WebSocket endpoint or auto-connect) rather than launching one.
    pub fn connects_to_running(&self) -> (r: bool)
        ensures
            r == (self.browser_url is Some || self.ws_endpoint is Some || self.auto_connect),
    {
        self.browser_url.is_some() || self.ws_endpoint.is_some() || self.auto_connect
    }

    /// The settings for launching a browser.
    pub fn launch_config(&self) -> (r: LaunchConfig)
        ensures
            r.executable_path == self.executable_path,
            r.channel == channel_of(self.channel@),
            r.headless == self.headless,
            r.viewport == viewport_of(self.viewport),
            r.user_data_dir == self.user_data_dir,
            r.isolated == self.isolated,
            r.chrome_args@ == self.chrome_args@,
            r.ignore_default_chrome_args@ == self.ignore_default_chrome_args@,
            r.accept_insecure_certs == self.accept_insecure_certs,
            r.enable_extensions == self.category_extensions,
            r.devtools == self.experimental_devtools,
            r.proxy_server == self.proxy_server,
    {
        LaunchConfig {
            executable_path: clone_opt(&self.executable_path),
            channel: self.chrome_channel(),
            headless: self.headless,
            viewport: self.viewport_size(),
            user_data_dir: clone_opt(&self.user_data_dir),
            isolated: self.isolated,
            chrome_args: clone_strings(&self.chrome_args),
            ignore_default_chrome_args: clone_strings(&self.ignore_default_chrome_args),
            accept_insecure_certs: self.accept_insecure_certs,
            enable_extensions: self.category_extensions,
            devtools: self.experimental_devtools,
            proxy_server: clone_opt(&self.proxy_server),
        }
    }

    /// The settings for connecting to a running browser; `ws_headers` is the
    /// header option already parsed as JSON (where it parsed).
    pub fn connect_config(&self, ws_headers: Option<JsonValue>) -> (r: ConnectConfig)
        ensures
            r.browser_url == self.browser_url,
            r.ws_endpoint == self.ws_endpoint,
            r.ws_headers == ws_headers,
            r.channel == (if self.auto_connect {
                Some(channel_of(self.channel@))
            } else {
                None
            }),
            r.user_data_dir == self.user_data_dir,
            r.devtools == self.experimental_devtools,
    {
        ConnectConfig {
            browser_url: clone_opt(&self.browser_url),
            ws_endpoint: clone_opt(&self.ws_endpoint),
            ws_headers,
            channel: if self.auto_connect {
                Some(self.chrome_channel())
            } else {
                None
            },
            user_data_dir: clone_opt(&self.user_data_dir),
            devtools: self.experimental_devtools,
        }
    }

    /// The notice lines printed at start-up for a given version.
    pub fn disclaimers(&self, version: &str) -> (r: Vec<String>)
        ensures
            r@.len() == (if !self.slim && self.performance_crux {
                2int
            } else {
                1int
            }),
            r@[0]@ == notice_text(version@),
            r@.len() == 2 ==> r@[1]@ == crux_notice(),
    {
        let mut first = owned("browsertools-mcp v");
        push_str(&mut first, version);
        push_str(
            &mut first,
            " exposes browser content to MCP clients.\nAvoid sharing sensitive information you do not want to share with MCP clients.",
        );
        let mut lines: Vec<String> = Vec::new();
        lines.push(first);
        if !self.slim && self.performance_crux {
            lines.push(
                owned(
                    "Performance tools may send trace URLs to the Google CrUX API. To disable, run with --no-performance-crux.",
                ),
            );
        }
        lines
    }
}

} // verus!
