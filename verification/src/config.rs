//! Settings: their defaults, how the environment overrides them, and the
//! assignments of a settings file.

use vstd::prelude::*;

use crate::double::Double;
use crate::text::{
    chars_of, find_char, in_range, lemma_already_trimmed, lemma_position_first,
    lemma_position_none, parse_signed,
    parse_unsigned, position, same_text, signed_value, trim, trimmed, unquote, unquoted,
    unsigned_value, white_space,
};

verus! {

/// What the market maker is set to do. Windows and the signal timeout are in
/// nanoseconds, the three intervals in milliseconds.
#[derive(Debug, Clone)]
pub struct Config {
    pub api_key_id: String,
    pub private_key_pem: String,
    pub rest_base_url: String,
    pub ws_url: String,
    pub series_ticker: String,
    pub order_size: i64,
    pub max_inventory: i64,
    pub hard_inventory_cap: i64,
    pub taker_enabled: bool,
    pub daily_loss_cap_cents: i64,
    pub rate_limit_writes_per_sec: u32,
    pub quote_refresh_interval: u64,
    pub rest_timeout: u64,
    pub market_check_interval: u64,
    pub market_rotate_before_close_secs: i64,
    pub z_score_window: u64,
    pub z60_window: u64,
    pub z_gear1_threshold: Double,
    pub z_gear2_threshold: Double,
    pub z60_noise_cap: Double,
    pub signal_timeout: u64,
    pub ladder_levels: usize,
    pub gear2_enabled: bool,
    pub no_open_before_close_secs: i64,
    pub no_trade_before_close_secs: i64,
    pub spread_max_for_gear2: Double,
}

/// What the environment says: the text of each variable that is set, and for
/// the variables that hold fractions the number read from it, where one was.
#[derive(Debug, Clone)]
pub struct EnvSettings {
    pub series_ticker: Option<String>,
    pub order_size: Option<String>,
    pub max_inventory: Option<String>,
    pub hard_inventory_cap: Option<String>,
    pub taker_enabled: Option<String>,
    pub daily_loss_cap: Option<String>,
    pub rate_limit_wps: Option<String>,
    pub quote_refresh_ms: Option<String>,
    pub rest_timeout_ms: Option<String>,
    pub rotate_before_close_secs: Option<String>,
    pub rest_base_url: Option<String>,
    pub ws_url: Option<String>,
    pub z_score_window: Option<u64>,
    pub z60_window: Option<u64>,
    pub z_gear1_threshold: Option<Double>,
    pub z_gear2_threshold: Option<Double>,
    pub z60_noise_cap: Option<Double>,
    pub signal_timeout: Option<u64>,
    pub ladder_levels: Option<String>,
    pub gear2_enabled: Option<String>,
    pub no_open_before_close_secs: Option<String>,
    pub no_trade_before_close_secs: Option<String>,
    pub spread_max_for_gear2: Option<Double>,
}

impl EnvSettings {
    /// Whether the environment sets nothing.
    pub open spec fn unset(&self) -> bool {
        &&& self.series_ticker is None
        &&& self.order_size is None
        &&& self.max_inventory is None
        &&& self.hard_inventory_cap is None
        &&& self.taker_enabled is None
        &&& self.daily_loss_cap is None
        &&& self.rate_limit_wps is None
        &&& self.quote_refresh_ms is None
        &&& self.rest_timeout_ms is None
        &&& self.rotate_before_close_secs is None
        &&& self.rest_base_url is None
        &&& self.ws_url is None
        &&& self.z_score_window is None
        &&& self.z60_window is None
        &&& self.z_gear1_threshold is None
        &&& self.z_gear2_threshold is None
        &&& self.z60_noise_cap is None
        &&& self.signal_timeout is None
        &&& self.ladder_levels is None
        &&& self.gear2_enabled is None
        &&& self.no_open_before_close_secs is None
        &&& self.no_trade_before_close_secs is None
        &&& self.spread_max_for_gear2 is None
    }
}

impl Config {
    /// Whether these are the settings of a process whose environment sets nothing.
    pub open spec fn is_default(&self) -> bool {
        &&& self.api_key_id@ == Seq::<char>::empty()
        &&& self.private_key_pem@ == Seq::<char>::empty()
        &&& self.rest_base_url@ == "https://api.elections.kalshi.com/trade-api/v2"@
        &&& self.ws_url@ == "wss://api.elections.kalshi.com/trade-api/ws/v2"@
        &&& self.series_ticker@ == "KXBTC15M"@
        &&& self.order_size == 1
        &&& self.max_inventory == 5
        &&& self.hard_inventory_cap == 7
        &&& self.taker_enabled
        &&& self.daily_loss_cap_cents == 500
        &&& self.rate_limit_writes_per_sec == 28
        &&& self.quote_refresh_interval == 5
        &&& self.rest_timeout == 200
        &&& self.market_check_interval == 30_000
        &&& self.market_rotate_before_close_secs == 210
        &&& self.z_score_window == 13_000_000_000
        &&& self.z60_window == 60_000_000_000
        &&& self.z_gear1_threshold.bits == 0x3ff3_3333_3333_3333
        &&& self.z_gear2_threshold.bits == 0x4000_0000_0000_0000
        &&& self.z60_noise_cap.bits == 0x3ff0_0000_0000_0000
        &&& self.signal_timeout == 30_000_000_000
        &&& self.ladder_levels == 2
        &&& !self.gear2_enabled
        &&& self.no_open_before_close_secs == 210
        &&& self.no_trade_before_close_secs == 240
        &&& self.spread_max_for_gear2.bits == 0x3ff8_0000_0000_0000
    }
}

impl Default for Config {
    fn default() -> (r: Config)
        ensures
            r.is_default(),
    {
        Config {
            api_key_id: String::new(),
            private_key_pem: String::new(),
            rest_base_url: "https://api.elections.kalshi.com/trade-api/v2".to_owned(),
            ws_url: "wss://api.elections.kalshi.com/trade-api/ws/v2".to_owned(),
            series_ticker: "KXBTC15M".to_owned(),
            order_size: 1,
            max_inventory: 5,
            hard_inventory_cap: 7,
            taker_enabled: true,
            daily_loss_cap_cents: 500,
            rate_limit_writes_per_sec: 28,
            quote_refresh_interval: 5,
            rest_timeout: 200,
            market_check_interval: 30_000,
            market_rotate_before_close_secs: 210,
            z_score_window: 13_000_000_000,
            z60_window: 60_000_000_000,
            z_gear1_threshold: Double { bits: 0x3ff3_3333_3333_3333 },
            z_gear2_threshold: Double { bits: 0x4000_0000_0000_0000 },
            z60_noise_cap: Double { bits: 0x3ff0_0000_0000_0000 },
            signal_timeout: 30_000_000_000,
            ladder_levels: 2,
            gear2_enabled: false,
            no_open_before_close_secs: 210,
            no_trade_before_close_secs: 240,
            spread_max_for_gear2: Double { bits: 0x3ff8_0000_0000_0000 },
        }
    }
}

/// A setting that is a text: that of the variable, if it is set.
pub open spec fn text_setting(var: Option<String>, default: Seq<char>) -> Seq<char> {
    match var {
        Some(t) => t@,
        None => default,
    }
}

/// A setting that is an integer: that of the variable, if it is set to one
/// between `lo` and `hi`.
pub open spec fn signed_setting(var: Option<String>, lo: int, hi: int, default: int) -> int {
    match var {
        Some(t) => match in_range(signed_value(t@), lo, hi) {
            Some(v) => v,
            None => default,
        },
        None => default,
    }
}

/// A setting that is a natural number: that of the variable, if it is set to
/// one of at most `hi`.
pub open spec fn unsigned_setting(var: Option<String>, hi: int, default: int) -> int {
    match var {
        Some(t) => match in_range(unsigned_value(t@), 0, hi) {
            Some(v) => v,
            None => default,
        },
        None => default,
    }
}

/// A switch: on where the variable is set to anything but `0` or `false`.
pub open spec fn switch_setting(var: Option<String>, default: bool) -> bool {
    match var {
        Some(t) => t@ != "0"@ && t@ != "false"@,
        None => default,
    }
}

/// A setting that is read elsewhere: the one that was read, if any.
pub open spec fn read_setting<T>(var: Option<T>, default: T) -> T {
    match var {
        Some(v) => v,
        None => default,
    }
}

fn choose_text(var: &Option<String>, default: String) -> (r: String)
    ensures
        r@ == text_setting(*var, default@),
{
    match var {
        Some(t) => t.clone(),
        None => default,
    }
}

fn choose_signed(var: &Option<String>, default: i64) -> (r: i64)
    ensures
        r == signed_setting(*var, i64::MIN as int, i64::MAX as int, default as int),
{
    match var {
        Some(t) => match parse_signed(t.as_str()) {
            Some(v) => v,
            None => default,
        },
        None => default,
    }
}

fn choose_unsigned(var: &Option<String>, limit: u64, default: u64) -> (r: u64)
    requires
        default <= limit,
    ensures
        r == unsigned_setting(*var, limit as int, default as int),
        r <= limit,
{
    match var {
        Some(t) => match parse_unsigned(t.as_str(), limit) {
            Some(v) => v,
            None => default,
        },
        None => default,
    }
}

fn choose_switch(var: &Option<String>, default: bool) -> (r: bool)
    ensures
        r == switch_setting(*var, default),
{
    match var {
        Some(t) => !same_text(t.as_str(), "0") && !same_text(t.as_str(), "false"),
        None => default,
    }
}

impl Config {
    /// The defaults, with what the environment sets in their place. A variable
    /// whose text does not spell a number of its kind changes nothing.
    pub fn from_env(env: &EnvSettings) -> (r: Config)
        ensures
            env.unset() ==> r.is_default(),
            r.api_key_id@ == Seq::<char>::empty(),
            r.private_key_pem@ == Seq::<char>::empty(),
            r.rest_base_url@ == text_setting(
                env.rest_base_url,
                "https://api.elections.kalshi.com/trade-api/v2"@,
            ),
            r.ws_url@ == text_setting(
                env.ws_url,
                "wss://api.elections.kalshi.com/trade-api/ws/v2"@,
            ),
            r.series_ticker@ == text_setting(env.series_ticker, "KXBTC15M"@),
            r.order_size == signed_setting(env.order_size, i64::MIN as int, i64::MAX as int, 1),
            r.max_inventory == signed_setting(
                env.max_inventory,
                i64::MIN as int,
                i64::MAX as int,
                5,
            ),
            r.hard_inventory_cap == signed_setting(
                env.hard_inventory_cap,
                i64::MIN as int,
                i64::MAX as int,
                7,
            ),
            r.taker_enabled == switch_setting(env.taker_enabled, true),
            r.daily_loss_cap_cents == signed_setting(
                env.daily_loss_cap,
                i64::MIN as int,
                i64::MAX as int,
                500,
            ),
            r.rate_limit_writes_per_sec == unsigned_setting(
                env.rate_limit_wps,
                u32::MAX as int,
                28,
            ),
            r.quote_refresh_interval == unsigned_setting(env.quote_refresh_ms, u64::MAX as int, 5),
            r.rest_timeout == unsigned_setting(env.rest_timeout_ms, u64::MAX as int, 200),
            r.market_check_interval == 30_000,
            r.market_rotate_before_close_secs == signed_setting(
                env.rotate_before_close_secs,
                i64::MIN as int,
                i64::MAX as int,
                210,
            ),
            r.z_score_window == read_setting(env.z_score_window, 13_000_000_000),
            r.z60_window == read_setting(env.z60_window, 60_000_000_000),
            r.z_gear1_threshold == read_setting(
                env.z_gear1_threshold,
                (Double { bits: 0x3ff3_3333_3333_3333 }),
            ),
            r.z_gear2_threshold == read_setting(
                env.z_gear2_threshold,
                (Double { bits: 0x4000_0000_0000_0000 }),
            ),
            r.z60_noise_cap == read_setting(
                env.z60_noise_cap,
                (Double { bits: 0x3ff0_0000_0000_0000 }),
            ),
            r.signal_timeout == read_setting(env.signal_timeout, 30_000_000_000),
            r.ladder_levels == unsigned_setting(env.ladder_levels, usize::MAX as int, 2),
            r.gear2_enabled == switch_setting(env.gear2_enabled, false),
            r.no_open_before_close_secs == signed_setting(
                env.no_open_before_close_secs,
                i64::MIN as int,
                i64::MAX as int,
                210,
            ),
            r.no_trade_before_close_secs == signed_setting(
                env.no_trade_before_close_secs,
                i64::MIN as int,
                i64::MAX as int,
                240,
            ),
            r.spread_max_for_gear2 == read_setting(
                env.spread_max_for_gear2,
                (Double { bits: 0x3ff8_0000_0000_0000 }),
            ),
    {
        let c = Config::default();
        Config {
            api_key_id: c.api_key_id,
            private_key_pem: c.private_key_pem,
            rest_base_url: choose_text(&env.rest_base_url, c.rest_base_url),
            ws_url: choose_text(&env.ws_url, c.ws_url),
            series_ticker: choose_text(&env.series_ticker, c.series_ticker),
            order_size: choose_signed(&env.order_size, c.order_size),
            max_inventory: choose_signed(&env.max_inventory, c.max_inventory),
            hard_inventory_cap: choose_signed(&env.hard_inventory_cap, c.hard_inventory_cap),
            taker_enabled: choose_switch(&env.taker_enabled, c.taker_enabled),
            daily_loss_cap_cents: choose_signed(&env.daily_loss_cap, c.daily_loss_cap_cents),
            rate_limit_writes_per_sec: choose_unsigned(
                &env.rate_limit_wps,
                u32::MAX as u64,
                c.rate_limit_writes_per_sec as u64,
            ) as u32,
            quote_refresh_interval: choose_unsigned(
                &env.quote_refresh_ms,
                u64::MAX,
                c.quote_refresh_interval,
            ),
            rest_timeout: choose_unsigned(&env.rest_timeout_ms, u64::MAX, c.rest_timeout),
            market_check_interval: c.market_check_interval,
            market_rotate_before_close_secs: choose_signed(
                &env.rotate_before_close_secs,
                c.market_rotate_before_close_secs,
            ),
            z_score_window: env.z_score_window.unwrap_or(c.z_score_window),
            z60_window: env.z60_window.unwrap_or(c.z60_window),
            z_gear1_threshold: env.z_gear1_threshold.unwrap_or(c.z_gear1_threshold),
            z_gear2_threshold: env.z_gear2_threshold.unwrap_or(c.z_gear2_threshold),
            z60_noise_cap: env.z60_noise_cap.unwrap_or(c.z60_noise_cap),
            signal_timeout: env.signal_timeout.unwrap_or(c.signal_timeout),
            ladder_levels: choose_unsigned(
                &env.ladder_levels,
                usize::MAX as u64,
                c.ladder_levels as u64,
            ) as usize,
            gear2_enabled: choose_switch(&env.gear2_enabled, c.gear2_enabled),
            no_open_before_close_secs: choose_signed(
                &env.no_open_before_close_secs,
                c.no_open_before_close_secs,
            ),
            no_trade_before_close_secs: choose_signed(
                &env.no_trade_before_close_secs,
                c.no_trade_before_close_secs,
            ),
            spread_max_for_gear2: env.spread_max_for_gear2.unwrap_or(c.spread_max_for_gear2),
        }
    }
}

/// The assignment on one line of a settings file: name and value around the
/// first equals sign, both trimmed, the value without the quotes around it.
/// Blank lines, comments and lines without an equals sign hold none.
pub open spec fn line_assignment(line: Seq<char>) -> Option<(Seq<char>, Seq<char>)> {
    let t = trimmed(line);
    let i = position(t, '=');
    if t.len() == 0 || t[0] == '#' || i >= t.len() {
        None
    } else {
        Some(
            (
                trimmed(t.subrange(0, i)),
                unquoted(trimmed(t.subrange(i + 1, t.len() as int))),
            ),
        )
    }
}

/// The assignments of a settings file, line by line.
pub open spec fn file_assignments(text: Seq<char>) -> Seq<(Seq<char>, Seq<char>)>
    decreases text.len(),
{
    let i = position(text, '\n');
    if i < 0 || i >= text.len() {
        match line_assignment(text) {
            Some(a) => seq![a],
            None => seq![],
        }
    } else {
        (match line_assignment(text.subrange(0, i)) {
            Some(a) => seq![a],
            None => seq![],
        }) + file_assignments(text.subrange(i + 1, text.len() as int))
    }
}

/// The characters of a list of assignments.
pub open spec fn assignment_texts(a: Seq<(String, String)>) -> Seq<(Seq<char>, Seq<char>)> {
    a.map_values(|p: (String, String)| (p.0@, p.1@))
}

fn parse_line(line: &str) -> (r: Option<(String, String)>)
    ensures
        match r {
            Some(a) => line_assignment(line@) == Some((a.0@, a.1@)),
            None => line_assignment(line@) is None,
        },
{
    let t = trim(line);
    let c = chars_of(t);
    if c.len() == 0 || c[0] == '#' {
        return None;
    }
    assert(c@.subrange(0, c@.len() as int) =~= c@);
    let i: usize = find_char(&c, '=', 0);
    if i >= c.len() {
        return None;
    }
    let key = trim(t.substring_char(0, i));
    let value = unquote(trim(t.substring_char(i + 1, c.len())));
    Some((key.to_owned(), value.to_owned()))
}

/// The assignments of a settings file, in the order of its lines.
pub fn env_assignments(contents: &str) -> (r: Vec<(String, String)>)
    ensures
        assignment_texts(r@) == file_assignments(contents@),
{
    let c = chars_of(contents);
    let mut out: Vec<(String, String)> = Vec::new();
    let mut start: usize = 0;
    assert(contents@.subrange(0, contents@.len() as int) =~= contents@);
    assert(assignment_texts(out@) =~= seq![]);
    loop
        invariant_except_break
            start <= c@.len(),
            assignment_texts(out@) + file_assignments(
                contents@.subrange(start as int, contents@.len() as int),
            ) == file_assignments(contents@),
        invariant
            c@ == contents@,
        ensures
            assignment_texts(out@) == file_assignments(contents@),
        decreases c@.len() - start,
    {
        let end: usize = find_char(&c, '\n', start);
        let ghost rest = contents@.subrange(start as int, contents@.len() as int);
        let ghost before = out@;
        let found = parse_line(contents.substring_char(start, end));
        proof {
            assert(rest.subrange(0, end - start) =~= contents@.subrange(start as int, end as int));
            if end == c@.len() {
                assert(rest.subrange(0, end - start) =~= rest);
            }
        }
        let ghost line = match line_assignment(contents@.subrange(start as int, end as int)) {
            Some(a) => seq![a],
            None => seq![],
        };
        match found {
            Some(a) => out.push(a),
            None => {},
        }
        assert(assignment_texts(out@) =~= assignment_texts(before) + line);
        if end >= c.len() {
            break;
        }
        proof {
            let next = contents@.subrange(end + 1, contents@.len() as int);
            assert(rest.subrange(end - start + 1, rest.len() as int) =~= next);
            assert(assignment_texts(before) + (line + file_assignments(next))
                =~= assignment_texts(out@) + file_assignments(next));
        }
        start = end + 1;
    }
    out
}

/// A variable that spells a number of its kind sets it, and one that does not, or
/// is not set, changes nothing.
pub proof fn law_number_set(t: String, lo: int, hi: int, default: int, n: int)
    ensures
        signed_setting(None, lo, hi, default) == default,
        unsigned_setting(None, hi, default) == default,
        signed_value(t@) == Some(n) && lo <= n <= hi ==> signed_setting(Some(t), lo, hi, default)
            == n,
        signed_value(t@) == Some(n) && !(lo <= n <= hi) ==> signed_setting(
            Some(t),
            lo,
            hi,
            default,
        ) == default,
        signed_value(t@) is None ==> signed_setting(Some(t), lo, hi, default) == default,
        unsigned_value(t@) == Some(n) && 0 <= n <= hi ==> unsigned_setting(Some(t), hi, default)
            == n,
        unsigned_value(t@) == Some(n) && !(0 <= n <= hi) ==> unsigned_setting(
            Some(t),
            hi,
            default,
        ) == default,
        unsigned_value(t@) is None ==> unsigned_setting(Some(t), hi, default) == default,
{
}

/// A text that is set counts as it is; a switch is off only where it is set to `0`
/// or `false`; and what was read elsewhere counts where something was.
pub proof fn law_text_set(t: String, default: Seq<char>, on: bool, value: u64, other: u64)
    ensures
        text_setting(Some(t), default) == t@,
        text_setting(None, default) == default,
        switch_setting(None, on) == on,
        switch_setting(Some(t), on) <==> t@ != "0"@ && t@ != "false"@,
        read_setting(Some(value), other) == value,
        read_setting(None, other) == other,
{
}

/// A line assigns what stands before its first equals sign what stands after it.
pub proof fn law_line_read(name: Seq<char>, value: Seq<char>)
    requires
        name.len() > 0,
        name[0] != '#',
        !white_space(name[0]),
        !white_space((name + seq!['='] + value).last()),
        forall|i: int| 0 <= i < name.len() ==> name[i] != '=',
    ensures
        line_assignment(name + seq!['='] + value) == Some(
            (trimmed(name), unquoted(trimmed(value))),
        ),
{
    let line = name + seq!['='] + value;
    lemma_already_trimmed(line);
    lemma_position_first(line, '=', name.len() as int);
    assert(line.subrange(0, name.len() as int) =~= name);
    assert(line.subrange(name.len() as int + 1, line.len() as int) =~= value);
}

/// Blank lines and comments assign nothing, and neither do lines without an equals
/// sign.
pub proof fn law_line_skipped(line: Seq<char>)
    ensures
        trimmed(line).len() == 0 || trimmed(line)[0] == '#' ==> line_assignment(line) is None,
        (forall|i: int| 0 <= i < trimmed(line).len() ==> trimmed(line)[i] != '=')
            ==> line_assignment(line) is None,
{
    if forall|i: int| 0 <= i < trimmed(line).len() ==> trimmed(line)[i] != '=' {
        lemma_position_none(trimmed(line), '=');
    }
}

/// A file is read line by line, in order.
pub proof fn law_file_read(line: Seq<char>, rest: Seq<char>)
    requires
        forall|i: int| 0 <= i < line.len() ==> line[i] != '\n',
    ensures
        ({
            let first = match line_assignment(line) {
                Some(a) => seq![a],
                None => seq![],
            };
            &&& file_assignments(line) == first
            &&& file_assignments(line + seq!['\n'] + rest) == first + file_assignments(rest)
        }),
{
    let all = line + seq!['\n'] + rest;
    lemma_position_none(line, '\n');
    lemma_position_first(all, '\n', line.len() as int);
    assert(all.subrange(0, line.len() as int) =~= line);
    assert(all.subrange(line.len() as int + 1, all.len() as int) =~= rest);
}

} // verus!
