//! The command line, the environment's say in the configuration, and a few formats of the screen.
use vstd::prelude::*;
use vstd::string::*;
use crate::config::{Config, PrinterStatus};
use crate::number::{above, zero, Reading};
use crate::text::{
    blank, concat, debug_text, decimal, digit, holds, is_blank, opt_string, pair_view,
    parse_unsigned, parsed_unsigned, push_decimal, quoted, same, strip_end, stripped_end, texts,
    trim, trimmed,
};

verus! {

/// Where the configuration lies unless something else is said.
pub const DEFAULT_CONFIG: &'static str = "/etc/barclock.toml";

/// How the program is called.
pub const USAGE: &'static str = "barclock [--config /etc/barclock.toml] [--touch-test]\nbarclock --preview out.png [--preview-state normal|connecting|dim|busy|paused|error|idle|toast|touchtest]\nbarclock --version | --help\n\nEnvironment: HA_TOKEN, MQTT_USER, MQTT_PASSWORD, BARCLOCK_CONFIG, RUST_LOG,\n             SLINT_BACKEND (default linuxkms-software), SLINT_KMS_ROTATION (default from config)";

// ---------------- command line ----------------

/// What the command line asks for.
#[derive(Clone, Debug, PartialEq, Eq)]
pub struct Cli {
    pub config: String,
    pub touch_test: bool,
    /// The picture to write, and the state to show on it.
    pub preview: Option<(String, String)>,
}

/// What to do.
#[derive(Clone, Debug, PartialEq, Eq)]
pub enum Invocation {
    Run(Cli),
    Version,
    Help,
}

/// The model of a `Cli`.
#[verifier::ext_equal]
pub struct CliV {
    pub config: Seq<char>,
    pub touch_test: bool,
    pub preview: Option<(Seq<char>, Seq<char>)>,
}

/// The model of an `Invocation`.
#[verifier::ext_equal]
pub enum InvocationV {
    Run(CliV),
    Version,
    Help,
}

impl View for Cli {
    type V = CliV;

    open spec fn view(&self) -> CliV {
        CliV {
            config: self.config@,
            touch_test: self.touch_test,
            preview: match self.preview {
                Some((p, s)) => Some((p@, s@)),
                None => None,
            },
        }
    }
}

impl View for Invocation {
    type V = InvocationV;

    open spec fn view(&self) -> InvocationV {
        match self {
            Invocation::Run(c) => InvocationV::Run(c@),
            Invocation::Version => InvocationV::Version,
            Invocation::Help => InvocationV::Help,
        }
    }
}

/// What has been read of the command line: `preview` is the picture to write.
#[verifier::ext_equal]
pub struct ArgsV {
    pub config: Seq<char>,
    pub touch_test: bool,
    pub preview: Option<Seq<char>>,
    pub preview_state: Seq<char>,
}

/// What the arguments ask for, after what has been read already: each option once more replaces
/// what it said before, and `--version` and `--help` end the reading.
pub open spec fn cli_of(args: Seq<Seq<char>>, c: ArgsV) -> Result<InvocationV, Seq<char>>
    decreases args.len(),
{
    if args.len() == 0 {
        Ok(
            InvocationV::Run(
                CliV {
                    config: c.config,
                    touch_test: c.touch_test,
                    preview: match c.preview {
                        Some(p) => Some((p, c.preview_state)),
                        None => None,
                    },
                },
            ),
        )
    } else if args[0] == "--config"@ || args[0] == "-c"@ {
        if args.len() < 2 {
            Err("--config needs a path"@)
        } else {
            cli_of(args.skip(2), ArgsV { config: args[1], ..c })
        }
    } else if args[0] == "--touch-test"@ {
        cli_of(args.skip(1), ArgsV { touch_test: true, ..c })
    } else if args[0] == "--preview"@ {
        if args.len() < 2 {
            Err("--preview needs an output .png path"@)
        } else {
            cli_of(args.skip(2), ArgsV { preview: Some(args[1]), ..c })
        }
    } else if args[0] == "--preview-state"@ {
        if args.len() < 2 {
            Err("--preview-state needs a value"@)
        } else {
            cli_of(args.skip(2), ArgsV { preview_state: args[1], ..c })
        }
    } else if args[0] == "--version"@ || args[0] == "-V"@ {
        Ok(InvocationV::Version)
    } else if args[0] == "--help"@ || args[0] == "-h"@ {
        Ok(InvocationV::Help)
    } else {
        Err("unknown argument "@ + debug_text(args[0]) + "\n"@ + USAGE@)
    }
}

/// Before any argument is read.
pub open spec fn no_args(config: Option<Seq<char>>) -> ArgsV {
    ArgsV {
        config: match config {
            Some(c) => c,
            None => DEFAULT_CONFIG@,
        },
        touch_test: false,
        preview: None,
        preview_state: "normal"@,
    }
}

/// An outcome of reading the command line, by its model.
pub open spec fn cli_view(r: Result<Invocation, String>) -> Result<InvocationV, Seq<char>> {
    match r {
        Ok(i) => Ok(i@),
        Err(e) => Err(e@),
    }
}

/// Reads the arguments behind the program's name. `config` is what the environment says about the
/// configuration's place.
pub fn parse_cli(args: &Vec<String>, config: Option<&str>) -> (r: Result<Invocation, String>)
    ensures
        cli_view(r) == cli_of(texts(args@), no_args(crate::text::opt_text(config))),
{
    let ghost t = texts(args@);
    let ghost start = no_args(crate::text::opt_text(config));
    let mut path = match config {
        Some(c) => c.to_string(),
        None => DEFAULT_CONFIG.to_string(),
    };
    let mut touch_test = false;
    let mut preview: Option<String> = None;
    let mut preview_state = "normal".to_string();
    let mut i: usize = 0;
    assert(t.skip(0) =~= t);
    while i < args.len()
        invariant
            i <= args@.len(),
            t == texts(args@),
            cli_of(t, start) == cli_of(
                t.skip(i as int),
                ArgsV {
                    config: path@,
                    touch_test,
                    preview: crate::text::opt_string(preview),
                    preview_state: preview_state@,
                },
            ),
            start == no_args(crate::text::opt_text(config)),
        decreases args@.len() - i,
    {
        let a = args[i].as_str();
        let ghost rest = t.skip(i as int);
        assert(rest[0] == a@);
        assert(i + 1 < args@.len() ==> rest[1] == args@[i + 1]@);
        assert(i + 2 <= args@.len() ==> rest.skip(2) =~= t.skip(i + 2));
        assert(rest.skip(1) =~= t.skip(i + 1));
        if same(a, "--config") || same(a, "-c") {
            if i + 1 >= args.len() {
                return Err("--config needs a path".to_string());
            }
            path = args[i + 1].clone();
            i = i + 2;
        } else if same(a, "--touch-test") {
            touch_test = true;
            i = i + 1;
        } else if same(a, "--preview") {
            if i + 1 >= args.len() {
                return Err("--preview needs an output .png path".to_string());
            }
            preview = Some(args[i + 1].clone());
            i = i + 2;
        } else if same(a, "--preview-state") {
            if i + 1 >= args.len() {
                return Err("--preview-state needs a value".to_string());
            }
            preview_state = args[i + 1].clone();
            i = i + 2;
        } else if same(a, "--version") || same(a, "-V") {
            return Ok(Invocation::Version);
        } else if same(a, "--help") || same(a, "-h") {
            return Ok(Invocation::Help);
        } else {
            let mut m = "unknown argument ".to_string();
            m.append(quoted(a).as_str());
            m.append("\n");
            m.append(USAGE);
            return Err(m);
        }
    }
    let preview = match preview {
        Some(p) => Some((p, preview_state)),
        None => None,
    };
    Ok(Invocation::Run(Cli { config: path, touch_test, preview }))
}

// ---------------- environment ----------------

/// The place of the first `://`, or the length.
pub open spec fn scheme_end(s: Seq<char>) -> int
    decreases s.len(),
{
    if s.len() == 0 || (s.len() >= 3 && s[0] == ':' && s[1] == '/' && s[2] == '/') {
        0
    } else {
        1 + scheme_end(s.drop_first())
    }
}

/// What stands before and after the first `://`.
pub open spec fn scheme_split(s: Seq<char>) -> Option<(Seq<char>, Seq<char>)> {
    let i = scheme_end(s);
    if i < s.len() {
        Some((s.take(i), s.skip(i + 3)))
    } else {
        None
    }
}

/// The WebSocket URL for an address: `wss` unless it says `http` or `ws`, and the API's path
/// unless it has one.
pub open spec fn websocket_url(address: Seq<char>) -> Seq<char> {
    let url = stripped_end(address, '/');
    let (plain, rest) = match scheme_split(url) {
        Some((scheme, rest)) => (scheme == "http"@ || scheme == "ws"@, rest),
        None => (false, url),
    };
    let head = (if plain {
        "ws"@
    } else {
        "wss"@
    }) + "://"@ + rest;
    if rest.contains('/') {
        head
    } else {
        head + "/api/websocket"@
    }
}

/// The first `://` lies within the text.
pub proof fn lemma_scheme_end(s: Seq<char>)
    ensures
        0 <= scheme_end(s) <= s.len(),
        scheme_end(s) < s.len() ==> scheme_end(s) + 3 <= s.len(),
    decreases s.len(),
{
    if s.len() > 0 {
        lemma_scheme_end(s.drop_first());
    }
}

/// The text split at its first `://`.
fn split_scheme(url: &str) -> (r: Option<(&str, &str)>)
    ensures
        pair_view(r) == scheme_split(url@),
{
    let cs = crate::text::chars_of(url);
    let n = cs.len();
    let mut i: usize = 0;
    assert(url@.skip(0) =~= url@);
    while i < n && !(n - i >= 3 && cs[i] == ':' && cs[i + 1] == '/' && cs[i + 2] == '/')
        invariant
            i <= n,
            n == cs@.len(),
            cs@ == url@,
            scheme_end(url@) == i + scheme_end(url@.skip(i as int)),
        decreases n - i,
    {
        let ghost rest = url@.skip(i as int);
        assert(rest.drop_first() =~= url@.skip(i + 1));
        assert(rest.len() >= 3 ==> rest[0] == cs@[i as int] && rest[1] == cs@[i + 1] && rest[2]
            == cs@[i + 2]);
        i = i + 1;
    }
    proof {
        lemma_scheme_end(url@);
        let rest = url@.skip(i as int);
        if i < n {
            assert(rest[0] == cs@[i as int] && rest[1] == cs@[i + 1] && rest[2] == cs@[i + 2]);
        }
        assert(scheme_end(url@) == i);
    }
    if i < n {
        let scheme = url.substring_char(0, i);
        assert(scheme@ =~= url@.take(i as int));
        let rest = url.substring_char(i + 3, n);
        assert(rest@ =~= url@.skip(i + 3));
        Some((scheme, rest))
    } else {
        None
    }
}

/// `https://ha.example` gives `wss://ha.example/api/websocket`; explicit URLs with a path are kept.
pub fn normalize_ha_url(url: &str) -> (r: String)
    ensures
        r@ == websocket_url(url@),
{
    let url = strip_end(url, '/');
    let (plain, rest) = match split_scheme(url) {
        Some((scheme, rest)) => (same(scheme, "http") || same(scheme, "ws"), rest),
        None => (false, url),
    };
    let mut out = if plain { "ws".to_string() } else { "wss".to_string() };
    out.append("://");
    out.append(rest);
    if !holds(rest, '/') {
        out.append("/api/websocket");
    }
    out
}

/// What the journal says of an address with an odd scheme.
pub open spec fn scheme_warning(address: Seq<char>) -> Option<Seq<char>> {
    match scheme_split(stripped_end(address, '/')) {
        Some((scheme, _)) => if scheme == "https"@ || scheme == "wss"@ || scheme == "http"@
            || scheme == "ws"@ {
            None
        } else {
            Some(
                "HA_URL scheme "@ + debug_text(scheme) + " is not http(s)/ws(s); assuming wss"@,
            )
        },
        None => None,
    }
}

/// What the journal says of an address with an odd scheme.
pub fn odd_scheme(url: &str) -> (r: Option<String>)
    ensures
        opt_string(r) == scheme_warning(url@),
{
    match split_scheme(strip_end(url, '/')) {
        Some((scheme, _)) => {
            if same(scheme, "https") || same(scheme, "wss") || same(scheme, "http") || same(
                scheme,
                "ws",
            ) {
                return None;
            }
            let mut m = concat("HA_URL scheme ", quoted(scheme).as_str());
            m.append(" is not http(s)/ws(s); assuming wss");
            Some(m)
        },
        None => None,
    }
}

/// A value of the environment that says something.
pub open spec fn said(v: Option<Seq<char>>) -> Option<Seq<char>> {
    match v {
        Some(t) => if blank(t) {
            None
        } else {
            Some(trimmed(t))
        },
        None => None,
    }
}

fn said_text(v: Option<&str>) -> (r: Option<&str>)
    ensures
        crate::text::opt_text(r) == said(crate::text::opt_text(v)),
{
    match v {
        Some(t) => if is_blank(t) {
            None
        } else {
            Some(trim(t))
        },
        None => None,
    }
}

/// What the journal says of a port that is no port number.
pub open spec fn port_warning(mqtt_port: Option<Seq<char>>, kept: u16) -> Option<Seq<char>> {
    match said(mqtt_port) {
        Some(p) => if parsed_unsigned(p, u16::MAX as nat) is None {
            Some(
                "MQTT_PORT="@ + debug_text(mqtt_port->0) + " is not a port number, keeping "@
                    + decimal(kept as nat),
            )
        } else {
            None
        },
        None => None,
    }
}

/// What the journal says of the environment: an odd scheme, then a port that is none.
pub open spec fn env_warnings(
    ha_url: Option<Seq<char>>,
    mqtt_port: Option<Seq<char>>,
    kept: u16,
) -> Seq<Seq<char>> {
    let scheme = match said(ha_url) {
        Some(u) => scheme_warning(u),
        None => None,
    };
    let first = match scheme {
        Some(w) => seq![w],
        None => Seq::empty(),
    };
    match port_warning(mqtt_port, kept) {
        Some(w) => first.push(w),
        None => first,
    }
}

/// The URL of Home Assistant: what the environment says, or the one that there is.
pub open spec fn url_from(ha_url: Option<Seq<char>>, kept: Seq<char>) -> Seq<char> {
    match said(ha_url) {
        Some(u) => websocket_url(u),
        None => kept,
    }
}

/// The broker's host: what the environment says, or the one that there is.
pub open spec fn host_from(mqtt_host: Option<Seq<char>>, kept: Seq<char>) -> Seq<char> {
    match said(mqtt_host) {
        Some(h) => h,
        None => kept,
    }
}

/// The broker's port: what the environment says where that is a port number, or the one that there
/// is.
pub open spec fn port_from(mqtt_port: Option<Seq<char>>, kept: u16) -> u16 {
    match said(mqtt_port) {
        Some(p) => match parsed_unsigned(p, u16::MAX as nat) {
            Some(n) => n as u16,
            None => kept,
        },
        None => kept,
    }
}

/// Connection endpoints may also come from the environment, next to the secrets: `HA_URL`,
/// `MQTT_HOST`, `MQTT_PORT`. A port that is no port number is ignored. Returns what somebody should
/// be told.
pub fn apply_env_overrides(
    cfg: &mut Config,
    ha_url: Option<&str>,
    mqtt_host: Option<&str>,
    mqtt_port: Option<&str>,
) -> (warnings: Vec<String>)
    ensures
        texts(warnings@) == env_warnings(
            crate::text::opt_text(ha_url),
            crate::text::opt_text(mqtt_port),
            old(cfg).mqtt.port,
        ),
        final(cfg).general == old(cfg).general,
        final(cfg).clock == old(cfg).clock,
        final(cfg).display == old(cfg).display,
        final(cfg).entities == old(cfg).entities,
        final(cfg).thresholds == old(cfg).thresholds,
        final(cfg).weather_labels == old(cfg).weather_labels,
        final(cfg).iotawatt == old(cfg).iotawatt,
        final(cfg).homeassistant.url@ == match said(crate::text::opt_text(ha_url)) {
            Some(u) => websocket_url(u),
            None => old(cfg).homeassistant.url@,
        },
        final(cfg).homeassistant == (crate::config::HomeAssistant {
            url: final(cfg).homeassistant.url,
            ..old(cfg).homeassistant
        }),
        final(cfg).mqtt.host@ == match said(crate::text::opt_text(mqtt_host)) {
            Some(h) => h,
            None => old(cfg).mqtt.host@,
        },
        final(cfg).mqtt.port == match said(crate::text::opt_text(mqtt_port)) {
            Some(p) => match parsed_unsigned(p, u16::MAX as nat) {
                Some(n) => n as u16,
                None => old(cfg).mqtt.port,
            },
            None => old(cfg).mqtt.port,
        },
        final(cfg).mqtt == (crate::config::Mqtt {
            host: final(cfg).mqtt.host,
            port: final(cfg).mqtt.port,
            ..old(cfg).mqtt
        }),
        final(cfg).homeassistant.url@ == url_from(
            crate::text::opt_text(ha_url),
            old(cfg).homeassistant.url@,
        ),
        final(cfg).mqtt.host@ == host_from(crate::text::opt_text(mqtt_host), old(cfg).mqtt.host@),
        final(cfg).mqtt.port == port_from(crate::text::opt_text(mqtt_port), old(cfg).mqtt.port),
{
    let mut warnings: Vec<String> = Vec::new();
    assert(texts(warnings@) =~= Seq::empty());
    match said_text(ha_url) {
        Some(u) => {
            cfg.homeassistant.url = normalize_ha_url(u);
            match odd_scheme(u) {
                Some(w) => {
                    warnings.push(w);
                    assert(texts(warnings@) =~= seq![w@]);
                },
                None => {},
            }
        },
        None => {},
    }
    match said_text(mqtt_host) {
        Some(h) => {
            cfg.mqtt.host = h.to_string();
        },
        None => {},
    }
    match said_text(mqtt_port) {
        Some(p) => match parse_unsigned(p, u16::MAX as u64) {
            Some(n) => {
                cfg.mqtt.port = n as u16;
            },
            None => {
                let raw = match mqtt_port {
                    Some(raw) => raw,
                    None => p,
                };
                let mut m = concat("MQTT_PORT=", quoted(raw).as_str());
                m.append(" is not a port number, keeping ");
                push_decimal(&mut m, cfg.mqtt.port as u64);
                let ghost was = warnings@;
                warnings.push(m);
                assert(texts(warnings@) =~= texts(was).push(m@));
            },
        },
        None => {},
    }
    warnings
}

/// The broker's credentials that two values of the environment make.
pub open spec fn credentials_of(user: Option<Seq<char>>, password: Option<Seq<char>>) -> Option<
    (Seq<char>, Seq<char>),
> {
    match (user, password) {
        (Some(u), Some(p)) => if u.len() > 0 {
            Some((u, p))
        } else {
            None
        },
        _ => None,
    }
}

/// The broker's credentials: both values, of a user that has a name.
pub fn mqtt_credentials(user: Option<String>, password: Option<String>) -> (r: Option<
    (String, String),
>)
    ensures
        match (user, password) {
            (Some(u), Some(p)) => if u@.len() > 0 {
                r == Some((u, p))
            } else {
                r is None
            },
            _ => r is None,
        },
        (match r {
            Some((u, p)) => Some((u@, p@)),
            None => None,
        }) == credentials_of(opt_string(user), opt_string(password)),
{
    match (user, password) {
        (Some(u), Some(p)) => {
            if u.as_str().unicode_len() > 0 {
                Some((u, p))
            } else {
                None
            }
        },
        _ => None,
    }
}

// ---------------- formats ----------------

/// Three digits.
pub open spec fn three(n: nat) -> Seq<char> {
    seq![digit((n / 100) as int), digit(((n / 10) % 10) as int), digit((n % 10) as int)]
}

/// A number in groups of three digits, apart by a blank.
pub open spec fn grouped(n: nat) -> Seq<char>
    decreases n,
{
    if n < 1000 {
        decimal(n)
    } else {
        grouped(n / 1000) + seq![' '] + three(n % 1000)
    }
}

/// `1 235 W`
pub open spec fn watts_text(n: i64) -> Seq<char> {
    (if n < 0 {
        seq!['-'] + grouped((-n) as nat)
    } else {
        grouped(n as nat)
    }) + " W"@
}

fn push_grouped(out: &mut String, n: u64)
    ensures
        final(out)@ == old(out)@ + grouped(n as nat),
    decreases n,
{
    if n < 1000 {
        push_decimal(out, n);
    } else {
        push_grouped(out, n / 1000);
        let rest: u64 = n % 1000;
        let a: u8 = (rest / 100) as u8;
        let b: u8 = ((rest / 10) % 10) as u8;
        let c: u8 = (rest % 10) as u8;
        out.push(' ');
        out.push((48 + a) as char);
        out.push((48 + b) as char);
        out.push((48 + c) as char);
    }
    assert(out@ =~= old(out)@ + grouped(n as nat));
}

/// Whole watts as the screen shows them: `1235` gives `"1 235 W"`.
pub fn fmt_watts(n: i64) -> (r: String)
    ensures
        r@ == watts_text(n),
{
    let mut out = String::new();
    if n < 0 {
        out.push('-');
        push_grouped(&mut out, (-(n as i128)) as u64);
    } else {
        push_grouped(&mut out, n as u64);
    }
    out.append(" W");
    assert(out@ =~= watts_text(n));
    out
}

// ---------------- the printer ----------------

/// A print can be told from progress and time left alone: both are above 0.
pub open spec fn seems_printing(progress: Option<Reading>, hours: Option<Reading>) -> bool {
    &&& progress matches Some(p) && above(p, zero())
    &&& hours matches Some(h) && above(h, zero())
}

/// The 3D printer module's status.
///
/// Off only when the switch says off, or when Klipper is shut down and the switch does not say on
/// (a powered printer in emergency shutdown is an error, not off). Klipper `error` and `shutdown`
/// beat a stale print state. Without a print state, a running print is inferred from progress
/// above 0 with time left above 0.
pub open spec fn printer_status_of(
    power: Option<bool>,
    klipper: Option<Seq<char>>,
    print: Option<Seq<char>>,
    progress: Option<Reading>,
    hours: Option<Reading>,
    any_available: bool,
) -> PrinterStatus {
    if power == Some(false) || (power != Some(true) && klipper == Some("shutdown"@)) {
        PrinterStatus::Off
    } else if !any_available {
        PrinterStatus::Unknown
    } else if klipper == Some("shutdown"@) || klipper == Some("error"@) {
        PrinterStatus::Error
    } else {
        match print {
            Some(p) => if p == "printing"@ {
                PrinterStatus::Printing
            } else if p == "paused"@ {
                PrinterStatus::Paused
            } else if p == "error"@ {
                PrinterStatus::Error
            } else {
                PrinterStatus::Idle
            },
            None => if seems_printing(progress, hours) {
                PrinterStatus::Printing
            } else {
                PrinterStatus::Idle
            },
        }
    }
}

fn is_text(t: Option<&str>, want: &str) -> (r: bool)
    ensures
        r == (crate::text::opt_text(t) == Some(want@)),
{
    match t {
        Some(t) => same(t, want),
        None => false,
    }
}

/// The 3D printer module's status.
/// * `power`: the power switch (on, off, or `None` where it is unavailable or not configured)
/// * `klipper`: `ready`, `startup`, `shutdown` or `error`
/// * `print`: `standby`, `printing`, `paused`, `complete`, `cancelled` or `error`
pub fn derive_printer_status(
    power: Option<bool>,
    klipper: Option<&str>,
    print: Option<&str>,
    progress: Option<Reading>,
    hours: Option<Reading>,
    any_available: bool,
) -> (r: PrinterStatus)
    ensures
        r == printer_status_of(
            power,
            crate::text::opt_text(klipper),
            crate::text::opt_text(print),
            progress,
            hours,
            any_available,
        ),
{
    let (off, powered_on) = match power {
        Some(on) => (!on, on),
        None => (false, false),
    };
    if off || (!powered_on && is_text(klipper, "shutdown")) {
        return PrinterStatus::Off;
    }
    if !any_available {
        return PrinterStatus::Unknown;
    }
    if is_text(klipper, "shutdown") || is_text(klipper, "error") {
        return PrinterStatus::Error;
    }
    match print {
        Some(p) => {
            if same(p, "printing") {
                PrinterStatus::Printing
            } else if same(p, "paused") {
                PrinterStatus::Paused
            } else if same(p, "error") {
                PrinterStatus::Error
            } else {
                PrinterStatus::Idle
            }
        },
        None => {
            let under_way = match progress {
                Some(p) => p.exceeds(Reading { bits: 0 }),
                None => false,
            };
            let time_left = match hours {
                Some(h) => h.exceeds(Reading { bits: 0 }),
                None => false,
            };
            if under_way && time_left {
                PrinterStatus::Printing
            } else {
                PrinterStatus::Idle
            }
        },
    }
}

} // verus!
