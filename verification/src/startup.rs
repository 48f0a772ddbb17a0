//! Start-up decisions: the stored settings and their defaults, whether to
//! show the window on launch, and the update source configuration.
use vstd::prelude::*;
use crate::text::{
    chars_of, str_equal, string_from_chars, string_views, trim, trim_chars,
};

verus! {

/// Name of the settings store.
pub const SETTINGS_FILE: &'static str = "settings.json";

/// Setting: start hidden when launched at log-in.
pub const START_MINIMIZED_KEY: &'static str = "startMinimizedOnAutostart";

/// Setting: notify when the battery runs low.
pub const LOW_BATTERY_NOTIFICATIONS_KEY: &'static str = "lowBatteryNotifications";

/// Setting: the low-battery alert threshold, in percent.
pub const LOW_BATTERY_THRESHOLD_KEY: &'static str = "lowBatteryThreshold";

/// Setting: the menu language code.
pub const LANGUAGE_KEY: &'static str = "language";

/// Default of the start-minimized setting.
pub const DEFAULT_START_MINIMIZED: bool = true;

/// Default of the low-battery notification setting.
pub const DEFAULT_LOW_BATTERY_NOTIFICATIONS: bool = true;

/// Default alert threshold, in percent.
pub const DEFAULT_LOW_BATTERY_THRESHOLD: u8 = 20;

/// Default menu language code.
pub const DEFAULT_LANGUAGE: &'static str = "en";

/// Argument given to the program when the system starts it at log-in.
pub const AUTOSTART_FLAG: &'static str = "--autostart";

/// Seconds between two battery readings.
pub const BATTERY_REFRESH_INTERVAL_SECONDS: u64 = 20;

/// Seconds a HID scan may take before it counts as failed.
pub const HID_SCAN_TIMEOUT_SECONDS: u64 = 10;

/// The update source used when none is configured.
pub const DEFAULT_UPDATE_ENDPOINT: &'static str =
    "https://github.com/NansMM/atk-tray-monitor/releases/latest/download/latest.json";

// ---------------------------------------------------------------------------
// Launch
// ---------------------------------------------------------------------------

/// One of the program arguments is the autostart flag.
pub open spec fn has_autostart_flag(args: Seq<Seq<char>>) -> bool {
    exists|i: int| 0 <= i < args.len() && #[trigger] args[i] == "--autostart"@
}

/// Whether the program was started at log-in (one argument is
/// `--autostart`).
pub fn launched_from_autostart(args: &Vec<String>) -> (r: bool)
    ensures
        r == has_autostart_flag(string_views(args@)),
{
    let ghost views = string_views(args@);
    let n = args.len();
    for i in 0..n
        invariant
            n == args.len(),
            views == string_views(args@),
            forall|j: int| 0 <= j < i ==> #[trigger] views[j] != "--autostart"@,
    {
        if str_equal(args[i].as_str(), AUTOSTART_FLAG) {
            assert(views[i as int] == "--autostart"@);
            return true;
        }
    }
    false
}

/// The window shows on launch unless the program was started at log-in
/// with the start-minimized setting on.
pub fn should_show_on_launch(launched_from_autostart: bool, start_minimized: bool) -> (r: bool)
    ensures
        r == !(launched_from_autostart && start_minimized),
{
    !(launched_from_autostart && start_minimized)
}

/// A stored whole number read as a percentage setting: kept when it fits
/// in a byte, the default otherwise or when nothing is stored.
pub fn u8_setting_or(stored: Option<u64>, default: u8) -> (r: u8)
    ensures
        r == (match stored {
            Some(v) => if v <= 255 {
                v as u8
            } else {
                default
            },
            None => default,
        }),
{
    match stored {
        Some(v) => if v <= 255 {
            v as u8
        } else {
            default
        },
        None => default,
    }
}

// ---------------------------------------------------------------------------
// Update source
// ---------------------------------------------------------------------------

/// The pieces of `s` between the occurrences of `c` (`s.split(c)`): one
/// more piece than there are occurrences, empty pieces included.
pub open spec fn split_on(s: Seq<char>, c: char) -> Seq<Seq<char>>
    decreases s.len(),
{
    if s.len() == 0 {
        seq![Seq::empty()]
    } else {
        let prev = split_on(s.drop_last(), c);
        if s.last() == c {
            prev.push(Seq::empty())
        } else {
            prev.update(prev.len() - 1, prev.last().push(s.last()))
        }
    }
}

proof fn lemma_split_on_nonempty(s: Seq<char>, c: char)
    ensures
        split_on(s, c).len() > 0,
    decreases s.len(),
{
    if s.len() > 0 {
        lemma_split_on_nonempty(s.drop_last(), c);
    }
}

/// The pieces, trimmed, without the empty ones.
pub open spec fn trimmed_nonempty(pieces: Seq<Seq<char>>) -> Seq<Seq<char>>
    decreases pieces.len(),
{
    if pieces.len() == 0 {
        Seq::empty()
    } else {
        let prev = trimmed_nonempty(pieces.drop_last());
        let t = trim(pieces.last());
        if t.len() == 0 {
            prev
        } else {
            prev.push(t)
        }
    }
}

/// The update sources listed in `s`: separated by `;`, trimmed, empty
/// entries left out.
pub open spec fn endpoint_list(s: Seq<char>) -> Seq<Seq<char>> {
    trimmed_nonempty(split_on(s, ';'))
}

/// The update sources listed in `source`.
pub fn split_endpoints(source: &str) -> (r: Vec<String>)
    ensures
        string_views(r@) == endpoint_list(source@),
{
    let chars = chars_of(source);
    let n = chars.len();
    let mut r: Vec<String> = Vec::new();
    let mut piece: Vec<char> = Vec::new();
    proof {
        assert(chars@.take(0) =~= Seq::<char>::empty());
    }
    for i in 0..n
        invariant
            n == chars.len(),
            chars@ == source@,
            split_on(chars@.take(i as int), ';').len() > 0,
            piece@ == split_on(chars@.take(i as int), ';').last(),
            string_views(r@) =~= trimmed_nonempty(
                split_on(chars@.take(i as int), ';').drop_last(),
            ),
    {
        let c = chars[i];
        let ghost t = chars@.take(i + 1);
        let ghost prev = split_on(chars@.take(i as int), ';');
        proof {
            assert(t.drop_last() == chars@.take(i as int));
            assert(t.last() == c);
        }
        if c == ';' {
            let trimmed = trim_chars(&piece);
            if trimmed.len() > 0 {
                let ghost before = string_views(r@);
                r.push(string_from_chars(&trimmed));
                assert(string_views(r@) =~= before.push(trimmed@));
            }
            piece = Vec::new();
            proof {
                assert(split_on(t, ';') == prev.push(Seq::empty()));
                assert(split_on(t, ';').drop_last() =~= prev);
                assert(prev.drop_last().push(prev.last()) =~= prev);
                assert(piece@ =~= Seq::<char>::empty());
            }
        } else {
            piece.push(c);
            proof {
                assert(split_on(t, ';').drop_last() =~= prev.drop_last());
            }
        }
    }
    let trimmed = trim_chars(&piece);
    let ghost all = split_on(chars@, ';');
    proof {
        assert(chars@.take(n as int) == chars@);
        assert(all.drop_last().push(all.last()) =~= all);
    }
    if trimmed.len() > 0 {
        let ghost before = string_views(r@);
        r.push(string_from_chars(&trimmed));
        assert(string_views(r@) =~= before.push(trimmed@));
    }
    r
}

/// Where and how updates are fetched.
pub struct UpdaterConfig {
    pub pubkey: String,
    pub endpoints: Vec<String>,
}

/// The first configured value: the one fixed at build time, else the one
/// of the environment.
pub open spec fn first_configured(
    build_time: Option<Seq<char>>,
    environment: Option<Seq<char>>,
) -> Option<Seq<char>> {
    match build_time {
        Some(v) => Some(v),
        None => environment,
    }
}

/// The key that signs updates: configured, else the embedded one when it
/// is not blank (trimmed).
pub open spec fn updater_pubkey(
    build_time: Option<Seq<char>>,
    environment: Option<Seq<char>>,
    embedded: Seq<char>,
) -> Option<Seq<char>> {
    match first_configured(build_time, environment) {
        Some(v) => Some(v),
        None => if trim(embedded).len() > 0 {
            Some(trim(embedded))
        } else {
            None
        },
    }
}

/// The update sources: the configured list, else the default source.
pub open spec fn updater_endpoints(
    build_time: Option<Seq<char>>,
    environment: Option<Seq<char>>,
) -> Seq<Seq<char>> {
    match first_configured(build_time, environment) {
        Some(v) => endpoint_list(v),
        None => endpoint_list(
            "https://github.com/NansMM/atk-tray-monitor/releases/latest/download/latest.json"@,
        ),
    }
}

/// The model of an optional string reference.
pub open spec fn opt_str(s: Option<&str>) -> Option<Seq<char>> {
    match s {
        Some(t) => Some(t@),
        None => None,
    }
}

/// The update configuration before the sources are read as URLs: there is
/// none without a signing key or without any update source.  The sources
/// still have to pass `parsed_endpoints`.
pub fn load_updater_config(
    build_time_pubkey: Option<&str>,
    environment_pubkey: Option<&str>,
    embedded_pubkey: &str,
    build_time_endpoints: Option<&str>,
    environment_endpoints: Option<&str>,
) -> (r: Option<UpdaterConfig>)
    ensures
        ({
            let key = updater_pubkey(
                opt_str(build_time_pubkey),
                opt_str(environment_pubkey),
                embedded_pubkey@,
            );
            let sources = updater_endpoints(
                opt_str(build_time_endpoints),
                opt_str(environment_endpoints),
            );
            match r {
                Some(config) => {
                    &&& key == Some(config.pubkey@)
                    &&& sources.len() > 0
                    &&& string_views(config.endpoints@) == sources
                },
                None => key is None || sources.len() == 0,
            }
        }),
{
    let pubkey = match build_time_pubkey {
        Some(v) => String::from_str(v),
        None => match environment_pubkey {
            Some(v) => String::from_str(v),
            None => {
                let embedded = chars_of(embedded_pubkey);
                let trimmed = trim_chars(&embedded);
                if trimmed.len() == 0 {
                    return None;
                }
                string_from_chars(&trimmed)
            },
        },
    };
    let source = match build_time_endpoints {
        Some(v) => v,
        None => match environment_endpoints {
            Some(v) => v,
            None => DEFAULT_UPDATE_ENDPOINT,
        },
    };
    let endpoints = split_endpoints(source);
    if endpoints.len() == 0 {
        return None;
    }
    Some(UpdaterConfig { pubkey, endpoints })
}

/// Every source was read as a URL.
pub open spec fn all_parsed<T>(outcomes: Seq<Option<T>>) -> bool {
    forall|i: int| 0 <= i < outcomes.len() ==> #[trigger] outcomes[i] is Some
}

/// The update sources as URLs, given the outcome of reading each source as
/// a URL, in order: all of them when every source was read, none as soon as
/// one source was not.
pub fn parsed_endpoints<T>(outcomes: Vec<Option<T>>) -> (r: Option<Vec<T>>)
    ensures
        r is Some <==> all_parsed(outcomes@),
        r matches Some(urls) ==> {
            &&& urls@.len() == outcomes@.len()
            &&& forall|i: int| 0 <= i < urls@.len() ==> outcomes@[i] == Some(#[trigger] urls@[i])
        },
{
    let ghost all = outcomes@;
    assert(all.skip(0) =~= all);
    let mut rest = outcomes;
    let mut urls: Vec<T> = Vec::new();
    while rest.len() > 0
        invariant
            all == outcomes@,
            urls@.len() + rest@.len() == all.len(),
            rest@ == all.skip(urls@.len() as int),
            forall|i: int| 0 <= i < urls@.len() ==> all[i] == Some(#[trigger] urls@[i]),
        decreases rest.len(),
    {
        let k = urls.len();
        let ghost before = rest@;
        let next = rest.remove(0);
        assert(before[0] == all[k as int]);
        assert(rest@ =~= all.skip(k + 1));
        match next {
            Some(url) => {
                urls.push(url);
            },
            None => {
                assert(k < all.len());
                assert(!(all[k as int] is Some));
                assert(!all_parsed(all));
                return None;
            },
        }
    }
    assert forall|i: int| 0 <= i < all.len() implies #[trigger] all[i] is Some by {
        assert(all[i] == Some(urls@[i]));
    }
    Some(urls)
}

} // verus!
