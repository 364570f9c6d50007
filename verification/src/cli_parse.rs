//! The command-line surface: option definitions, parsing, and the assembly
//! of the session options.
//!
//! The option matching itself is getopts' work, reached through the trusted
//! declarations at the top of the module; which options exist, how their
//! values read, and what session comes out of them are the library's own
//! decisions, verified below over the names `opts_defined`, `matches_*`
//! that the trusted contracts introduce.

use crate::error::RingError;
use crate::iputils::IP;
use vstd::prelude::*;
use vstd::string::StrSliceExecFns;

verus! {

// --- the trusted getopts surface ---

#[verifier::external_type_specification]
#[verifier::external_body]
pub struct ExOptions(getopts::Options);

#[verifier::external_type_specification]
#[verifier::external_body]
pub struct ExMatches(getopts::Matches);

#[verifier::external_type_specification]
#[verifier::external_body]
pub struct ExFail(getopts::Fail);

/// The option names (short and long) defined on an option set.
pub uninterp spec fn opts_defined(o: getopts::Options) -> Set<Seq<char>>;

/// One option of the surface, as plain values: its short and long names and
/// whether it may carry an argument.  Every option the library defines is
/// optional and may occur once, so this is all of an option set that
/// getopts' parsing reads (descriptions and hints only feed the usage text).
pub struct OptShape {
    pub short: Seq<char>,
    pub long: Seq<char>,
    pub takes_arg: bool,
}

/// The options defined on an option set, in order, as plain values.  The
/// reading is for sets of optional, default-style options — the only kind
/// the library defines; a set holding any other kind of group reads as
/// shapes no such set has.
pub uninterp spec fn opts_shape(o: getopts::Options) -> Seq<OptShape>;

/// Whether getopts::Options::parse accepts an argument list.  The parse is a
/// function of the option set and the arguments alone, so its outcome can be
/// named over the option shapes.
pub uninterp spec fn parse_ok(shape: Seq<OptShape>, args: Seq<Seq<char>>) -> bool;

/// The names matched by a successful parse of `args` against `shape`.
pub uninterp spec fn parse_present(shape: Seq<OptShape>, args: Seq<Seq<char>>) -> Set<Seq<char>>;

/// The name-to-argument map of a successful parse of `args` against `shape`.
pub uninterp spec fn parse_value(shape: Seq<OptShape>, args: Seq<Seq<char>>) -> Map<
    Seq<char>,
    Seq<char>,
>;

/// The free (positional) arguments of a successful parse of `args` against
/// `shape`, in order.
pub uninterp spec fn parse_free(shape: Seq<OptShape>, args: Seq<Seq<char>>) -> Seq<Seq<char>>;

/// The views of a list of argument strings.
pub open spec fn views_of(args: Seq<String>) -> Seq<Seq<char>> {
    args.map_values(|s: String| s@)
}

/// The option names a parse result can be queried for.
pub uninterp spec fn matches_defined(m: getopts::Matches) -> Set<Seq<char>>;

/// The option names that were matched at least once.
pub uninterp spec fn matches_present(m: getopts::Matches) -> Set<Seq<char>>;

/// The option names whose first match carried an argument, to that argument.
pub uninterp spec fn matches_value(m: getopts::Matches) -> Map<Seq<char>, Seq<char>>;

/// The free (positional) arguments, in order.
pub uninterp spec fn matches_free(m: getopts::Matches) -> Seq<Seq<char>>;

/// Relies on getopts::Options::new: a blank set of options.
#[verifier::external_body]
fn options_new() -> (r: getopts::Options)
    ensures
        opts_defined(r) == Set::<Seq<char>>::empty(),
        opts_shape(r) == Seq::<OptShape>::empty(),
{
    getopts::Options::new()
}

/// Relies on getopts::Options::optflag: defines an optional flag under a
/// one-character short name and a longer long name (other shapes panic in
/// getopts' name validation, so they are kept out).
#[verifier::external_body]
fn optflag(opts: &mut getopts::Options, short: &str, long: &str, desc: &str)
    requires
        vstd::string::is_ascii(short),
        vstd::string::is_ascii(long),
        short@.len() == 1,
        long@.len() >= 2,
    ensures
        opts_defined(*final(opts)) == opts_defined(*old(opts)).insert(short@).insert(long@),
        opts_shape(*final(opts)) == opts_shape(*old(opts)).push(
            OptShape { short: short@, long: long@, takes_arg: false },
        ),
{
    opts.optflag(short, long, desc);
}

/// Relies on getopts::Options::optflagopt: defines an optional flag that may
/// carry an argument, under the same naming rules as `optflag`.
#[verifier::external_body]
fn optflagopt(opts: &mut getopts::Options, short: &str, long: &str, desc: &str, hint: &str)
    requires
        vstd::string::is_ascii(short),
        vstd::string::is_ascii(long),
        short@.len() == 1,
        long@.len() >= 2,
    ensures
        opts_defined(*final(opts)) == opts_defined(*old(opts)).insert(short@).insert(long@),
        opts_shape(*final(opts)) == opts_shape(*old(opts)).push(
            OptShape { short: short@, long: long@, takes_arg: true },
        ),
{
    opts.optflagopt(short, long, desc, hint);
}

/// Relies on getopts::Options::parse: matches the arguments against the
/// defined options.  The outcome is a function of the option set and the
/// arguments alone, named by `parse_ok` and mates; a successful result
/// answers queries for exactly the defined names, a name carries a value
/// only if it was matched, and — every option of the surface being
/// optional — an empty argument list parses to an empty match (nothing
/// present, nothing free).
#[verifier::external_body]
fn parse_args(opts: &getopts::Options, args: &[String]) -> (r: Result<
    getopts::Matches,
    getopts::Fail,
>)
    requires
        opts_shape(*opts) == ring_surface(),
    ensures
        parse_ok(opts_shape(*opts), views_of(args@)) ==> r is Ok,
        !parse_ok(opts_shape(*opts), views_of(args@)) ==> r is Err,
        r is Ok ==> matches_defined(r->Ok_0) == opts_defined(*opts),
        r is Ok ==> matches_present(r->Ok_0) == parse_present(opts_shape(*opts), views_of(args@)),
        r is Ok ==> matches_value(r->Ok_0) == parse_value(opts_shape(*opts), views_of(args@)),
        r is Ok ==> matches_free(r->Ok_0) == parse_free(opts_shape(*opts), views_of(args@)),
        r is Ok ==> matches_value(r->Ok_0).dom().subset_of(matches_present(r->Ok_0)),
        r is Ok || args@.len() > 0,
        r is Ok ==> (args@.len() == 0 ==> matches_present(r->Ok_0) == Set::<Seq<char>>::empty()),
        r is Ok ==> (args@.len() == 0 ==> matches_value(r->Ok_0) == Map::<Seq<char>, Seq<char>>::empty()),
        r is Ok ==> (args@.len() == 0 ==> matches_free(r->Ok_0) == Seq::<Seq<char>>::empty()),
{
    opts.parse(args)
}

/// Relies on getopts::Matches::opt_present: whether the named option was
/// matched.  getopts panics on an undefined name, so the name must be
/// defined.
#[verifier::external_body]
fn opt_present(m: &getopts::Matches, name: &str) -> (r: bool)
    requires
        matches_defined(*m).contains(name@),
    ensures
        r == matches_present(*m).contains(name@),
{
    m.opt_present(name)
}

/// Relies on getopts::Matches::opt_str: the argument of the first match of
/// the named option, where one was given.  getopts panics on an undefined
/// name, so the name must be defined.
#[verifier::external_body]
fn opt_str(m: &getopts::Matches, name: &str) -> (r: Option<String>)
    requires
        matches_defined(*m).contains(name@),
    ensures
        r is Some <==> matches_value(*m).dom().contains(name@),
        r is Some ==> r->0@ == matches_value(*m)[name@],
{
    m.opt_str(name)
}

/// Relies on getopts::Matches::free, the positional arguments in order.
#[verifier::external_body]
fn free_args(m: &getopts::Matches) -> (r: Vec<String>)
    ensures
        r@.len() == matches_free(*m).len(),
        forall|i: int| 0 <= i < r@.len() ==> r@[i]@ == matches_free(*m)[i],
{
    m.free.clone()
}

// --- decimal parsing ---

/// Every character is a decimal digit, and there is at least one.
pub open spec fn is_digits(s: Seq<char>) -> bool {
    s.len() > 0 && forall|j: int| 0 <= j < s.len() ==> 48 <= #[trigger] s[j] as int <= 57
}

/// The value of a decimal digit string.
pub open spec fn dec_val(s: Seq<char>) -> int
    decreases s.len(),
{
    if s.len() == 0 {
        0
    } else {
        dec_val(s.drop_last()) * 10 + (s.last() as int - 48)
    }
}

/// What the library's decimal parser accepts: digit strings whose value fits
/// in 32 bits.  No sign, no whitespace, no empty string.
pub open spec fn parse_u32_spec(s: Seq<char>) -> Option<u32> {
    if is_digits(s) && dec_val(s) <= u32::MAX {
        Option::Some(dec_val(s) as u32)
    } else {
        Option::None
    }
}

/// `parse_u32_spec`, with a default for whatever it rejects.
pub open spec fn parse_or(s: Seq<char>, default: u32) -> u32 {
    match parse_u32_spec(s) {
        Option::Some(v) => v,
        Option::None => default,
    }
}

/// A digit string's value only grows as digits are appended.
proof fn lemma_dec_val_grows(s: Seq<char>, k: int)
    requires
        0 <= k <= s.len(),
        forall|j: int| 0 <= j < s.len() ==> 48 <= #[trigger] s[j] as int <= 57,
        dec_val(s.take(k)) >= 0,
    ensures
        dec_val(s) >= dec_val(s.take(k)),
        dec_val(s) >= 0,
    decreases s.len() - k,
{
    if k == s.len() {
        assert(s.take(k) =~= s);
    } else {
        assert(s.take(k + 1).drop_last() =~= s.take(k));
        assert(s.take(k + 1).last() == s[k]);
        assert(dec_val(s.take(k + 1)) == dec_val(s.take(k)) * 10 + (s[k] as int - 48));
        lemma_dec_val_grows(s, k + 1);
    }
}

/// Parse a decimal digit string into 32 bits.
#[verifier::loop_isolation(false)]
pub fn parse_u32_dec(s: &str) -> (r: Option<u32>)
    ensures
        r == parse_u32_spec(s@),
{
    let n = s.unicode_len();
    if n == 0 {
        return None;
    }
    let mut val: u32 = 0;
    let mut i: usize = 0;
    while i < n
        invariant
            i <= n,
            forall|j: int| 0 <= j < i ==> 48 <= #[trigger] s@[j] as int <= 57,
            val == dec_val(s@.take(i as int)),
        decreases n - i,
    {
        let c = s.get_char(i);
        let cu: u32 = c as u32;
        if cu < 48 || cu > 57 {
            return None;
        }
        let d: u32 = cu - 48;
        proof {
            assert(s@.take(i as int + 1).drop_last() =~= s@.take(i as int));
            assert(s@.take(i as int + 1).last() == s@[i as int]);
        }
        if val > (u32::MAX - d) / 10 {
            // the digits read so far already overflow 32 bits, and appending
            // digits never shrinks the value
            proof {
                if is_digits(s@) {
                    lemma_dec_val_grows(s@, i as int + 1);
                    assert(dec_val(s@) > u32::MAX);
                }
            }
            return None;
        }
        val = val * 10 + d;
        i += 1;
    }
    proof {
        assert(s@.take(n as int) =~= s@);
    }
    Some(val)
}

// --- the session options ---

/// The static parameters of one session, read by the coordinator.  The
/// socket itself lives with the unverified shell.
#[derive(Debug, PartialEq, Eq)]
pub struct RingOptions {
    /// Stop after this many sends; 0 means unbounded.
    pub count: u32,
    /// The IP time-to-live to set on the socket.
    pub ttl: u32,
    /// Seconds between sends.
    pub interval: u64,
    /// Milliseconds to wait for each reply.
    pub timeout: u128,
    /// Suppress the per-reply lines.
    pub quite: bool,
    /// Enable broadcast on the socket.
    pub broadcast: bool,
    /// The destination as given on the command line.
    pub addr: String,
    /// The demanded address family, if any.
    pub ipv: Option<IP>,
}

impl RingOptions {
    /// The defaults: unbounded count, TTL 128, one-second interval, a
    /// 1000 ms reply timeout, no family preference.
    pub open spec fn is_default(self) -> bool {
        &&& self.count == 0
        &&& self.ttl == 128
        &&& self.interval == 1
        &&& self.timeout == 1000
        &&& self.quite == false
        &&& self.broadcast == false
        &&& self.addr@ == Seq::<char>::empty()
        &&& self.ipv is None
    }

    pub fn new() -> (r: Self)
        ensures
            r.is_default(),
    {
        RingOptions {
            count: 0,
            ttl: 128,
            interval: 1,
            timeout: 1000,
            quite: false,
            broadcast: false,
            addr: String::new(),
            ipv: None,
        }
    }

    /// The defaults, demanding the V4 family.
    pub fn new_ip4() -> (r: Self)
        ensures
            r.count == 0,
            r.ttl == 128,
            r.interval == 1,
            r.timeout == 1000,
            r.quite == false,
            r.broadcast == false,
            r.addr@ == Seq::<char>::empty(),
            r.ipv == Option::Some(IP::V4),
    {
        let mut r = Self::new();
        r.ipv = Some(IP::V4);
        r
    }

    pub fn set_count(&mut self, count: u32)
        ensures
            *final(self) == (RingOptions { count, ..*old(self) }),
    {
        self.count = count;
    }

    pub fn set_ttl(&mut self, ttl: u32)
        ensures
            *final(self) == (RingOptions { ttl, ..*old(self) }),
    {
        self.ttl = ttl;
    }

    pub fn set_quite(&mut self, quite: bool)
        ensures
            *final(self) == (RingOptions { quite, ..*old(self) }),
    {
        self.quite = quite;
    }

    /// Demand the V4 family; any other demand leaves the options unchanged
    /// (the session was built V6-first and only a V4 demand rebuilds it).
    pub fn set_ipv(&mut self, ip: Option<IP>)
        ensures
            ip == Option::Some(IP::V4) ==> *final(self) == (RingOptions {
                ipv: Option::Some(IP::V4),
                ..*old(self)
            }),
            ip != Option::Some(IP::V4) ==> *final(self) == *old(self),
    {
        if let Some(IP::V4) = ip {
            self.ipv = Some(IP::V4);
        }
    }
}

// --- the command-line decisions ---

/// The destination from a bare two-element argument list (program name and
/// destination): the shape `ring <host>`.
pub fn get_url_from_args(arg: Vec<String>) -> (r: Result<String, RingError>)
    ensures
        r is Ok <==> arg@.len() == 2,
        r is Ok ==> r->Ok_0@ == arg@[1]@,
        r is Err ==> r == Result::<String, RingError>::Err(RingError::ArgError),
{
    if arg.len() == 2 {
        Ok(arg[1].clone())
    } else {
        Err(RingError::ArgError)
    }
}

/// The option surface of the utility as plain values, in definition order:
/// the six flags, then the four value-carrying options.
pub open spec fn ring_surface() -> Seq<OptShape> {
    seq![
        (OptShape { short: "4"@, long: "ipv4"@, takes_arg: false }),
        (OptShape { short: "6"@, long: "ipv6"@, takes_arg: false }),
        (OptShape { short: "q"@, long: "quiet"@, takes_arg: false }),
        (OptShape { short: "h"@, long: "help"@, takes_arg: false }),
        (OptShape { short: "v"@, long: "version"@, takes_arg: false }),
        (OptShape { short: "b"@, long: "broadcast"@, takes_arg: false }),
        (OptShape { short: "c"@, long: "count"@, takes_arg: true }),
        (OptShape { short: "t"@, long: "ttl"@, takes_arg: true }),
        (OptShape { short: "i"@, long: "interval"@, takes_arg: true }),
        (OptShape { short: "d"@, long: "timeout"@, takes_arg: true }),
    ]
}

/// The full option set of the utility.
fn build_options() -> (r: getopts::Options)
    ensures
        opts_shape(r) == ring_surface(),
        opts_defined(r) == set![
            "4"@, "ipv4"@,
            "6"@, "ipv6"@,
            "q"@, "quiet"@,
            "h"@, "help"@,
            "v"@, "version"@,
            "b"@, "broadcast"@,
            "c"@, "count"@,
            "t"@, "ttl"@,
            "i"@, "interval"@,
            "d"@, "timeout"@,
        ],
{
    let mut opts = options_new();
    proof {
        reveal_strlit("4");
        reveal_strlit("ipv4");
        reveal_strlit("6");
        reveal_strlit("ipv6");
        reveal_strlit("q");
        reveal_strlit("quiet");
        reveal_strlit("h");
        reveal_strlit("help");
        reveal_strlit("v");
        reveal_strlit("version");
        reveal_strlit("b");
        reveal_strlit("broadcast");
        reveal_strlit("c");
        reveal_strlit("count");
        reveal_strlit("t");
        reveal_strlit("ttl");
        reveal_strlit("i");
        reveal_strlit("interval");
        reveal_strlit("d");
        reveal_strlit("timeout");
    }
    optflag(&mut opts, "4", "ipv4", "Ring a IPV4 address");
    optflag(&mut opts, "6", "ipv6", "Ring a IPV6 address");
    optflag(&mut opts, "q", "quiet", "Ring quietly without printing intermediate ring results");
    optflag(&mut opts, "h", "help", "Print this help message");
    optflag(&mut opts, "v", "version", "Print current Ring version");
    optflag(&mut opts, "b", "broadcast", "Enable ringing broadcast address");
    optflagopt(&mut opts, "c", "count", "Stop ringing after <count> times", "<COUNT>");
    optflagopt(&mut opts, "t", "ttl", "Set time-to-live value", "ring -t<n> <dest>");
    optflagopt(&mut opts, "i", "interval", "Wait <n> seconds before each echo request", "ring -i2 <destination>");
    optflagopt(&mut opts, "d", "timeout", "Wait <n> seconds for echo reply message", "ring -d2 <destination>");
    proof {
        assert(opts_defined(opts) =~= set![
            "4"@, "ipv4"@,
            "6"@, "ipv6"@,
            "q"@, "quiet"@,
            "h"@, "help"@,
            "v"@, "version"@,
            "b"@, "broadcast"@,
            "c"@, "count"@,
            "t"@, "ttl"@,
            "i"@, "interval"@,
            "d"@, "timeout"@,
        ]);
        assert(opts_shape(opts) =~= ring_surface());
    }
    opts
}

/// The destination according to the matches: the first positional argument,
/// unless help was asked for or none was given.
pub fn cli_actions(matches: &getopts::Matches) -> (r: Option<String>)
    requires
        matches_defined(*matches).contains("h"@),
    ensures
        r is Some <==> (!matches_present(*matches).contains("h"@) && matches_free(
            *matches,
        ).len() > 0),
        r is Some ==> r->0@ == matches_free(*matches)[0],
{
    if opt_present(matches, "h") {
        return None;
    }
    let free = free_args(matches);
    if free.len() > 0 {
        Some(free[0].clone())
    } else {
        None
    }
}

/// Parse an argument list (program name first) down to the destination
/// string, as the bare surface does: the result is the first positional
/// argument exactly when the line parses, help was not asked for, and a
/// positional argument exists; a parse failure, a help request, or a
/// missing destination (in particular, no arguments at all) is an argument
/// error.
pub fn get_args(args: Vec<String>) -> (r: Result<String, RingError>)
    requires
        args@.len() >= 1,
    ensures
        ({
            let sh = ring_surface();
            let a = views_of(args@.skip(1));
            &&& (r is Ok <==> (parse_ok(sh, a) && !parse_present(sh, a).contains("h"@)
                && parse_free(sh, a).len() > 0))
            &&& (r is Ok ==> r->Ok_0@ == parse_free(sh, a)[0])
            &&& (r is Err ==> r == Result::<String, RingError>::Err(RingError::ArgError))
        }),
        args@.len() == 1 ==> r == Result::<String, RingError>::Err(RingError::ArgError),
{
    let opts = build_options();
    let rest = &args.as_slice()[1..args.len()];
    proof {
        assert(args@.skip(1) =~= rest@);
    }
    let matches = match parse_args(&opts, rest) {
        Ok(m) => m,
        Err(_) => {
            return Err(RingError::ArgError);
        },
    };
    if let Some(addr) = cli_actions(&matches) {
        Ok(addr)
    } else {
        Err(RingError::ArgError)
    }
}

/// What a parsed command line asks for.
#[derive(Debug, PartialEq, Eq)]
pub enum CliCommand {
    /// Print usage and exit cleanly.
    Help,
    /// Print the version and exit cleanly.
    Version,
    /// Run a session with these options.
    Run(RingOptions),
}

/// The error text beside a missing destination.
pub fn missing_destination_text() -> (r: &'static str)
    ensures
        r@ == "Missing destination address"@,
{
    "Missing destination address"
}

/// Assemble the command from a parse result.  Help and version win, in that
/// order; then a destination must be present; broadcast cannot be demanded
/// together with the V6 family; and every numeric flag falls back to its
/// default when its value is absent or unreadable.
pub fn cli_command(m: &getopts::Matches) -> (r: Result<CliCommand, RingError>)
    requires
        matches_defined(*m).contains("4"@),
        matches_defined(*m).contains("6"@),
        matches_defined(*m).contains("q"@),
        matches_defined(*m).contains("h"@),
        matches_defined(*m).contains("v"@),
        matches_defined(*m).contains("b"@),
        matches_defined(*m).contains("c"@),
        matches_defined(*m).contains("t"@),
        matches_defined(*m).contains("i"@),
        matches_defined(*m).contains("d"@),
    ensures
        ({
            let p = matches_present(*m);
            let v = matches_value(*m);
            let f = matches_free(*m);
            if p.contains("h"@) {
                r == Result::<CliCommand, RingError>::Ok(CliCommand::Help)
            } else if p.contains("v"@) {
                r == Result::<CliCommand, RingError>::Ok(CliCommand::Version)
            } else if f.len() == 0 {
                r == Result::<CliCommand, RingError>::Err(RingError::ArgError)
            } else if p.contains("b"@) && p.contains("6"@) {
                r == Result::<CliCommand, RingError>::Err(RingError::ArgError)
            } else {
                &&& r is Ok
                &&& r->Ok_0 is Run
                &&& ({
                    let o = r->Ok_0->Run_0;
                    &&& o.ipv == (if p.contains("4"@) {
                        Option::Some(IP::V4)
                    } else if p.contains("6"@) {
                        Option::Some(IP::V6)
                    } else {
                        Option::<IP>::None
                    })
                    &&& o.quite == p.contains("q"@)
                    &&& o.broadcast == p.contains("b"@)
                    &&& o.count == (if v.dom().contains("c"@) {
                        parse_or(v["c"@], 0)
                    } else {
                        0u32
                    })
                    &&& o.interval == (if v.dom().contains("i"@) {
                        parse_or(v["i"@], 1) as u64
                    } else {
                        1u64
                    })
                    &&& o.timeout == (if v.dom().contains("d"@) {
                        parse_or(v["d"@], 1) * 1000
                    } else {
                        1000int
                    })
                    &&& o.ttl == (if v.dom().contains("t"@) {
                        parse_or(v["t"@], 64)
                    } else {
                        128u32
                    })
                    &&& o.addr@ == f[0]
                })
            }
        }),
{
    if opt_present(m, "h") {
        return Ok(CliCommand::Help);
    }
    if opt_present(m, "v") {
        return Ok(CliCommand::Version);
    }
    let free = free_args(m);
    if free.len() == 0 {
        return Err(RingError::ArgError);
    }
    let broadcast = opt_present(m, "b");
    let v6 = opt_present(m, "6");
    if broadcast && v6 {
        return Err(RingError::ArgError);
    }
    let mut opt = RingOptions::new();
    opt.broadcast = broadcast;
    if opt_present(m, "4") {
        opt.ipv = Some(IP::V4);
    } else if v6 {
        opt.ipv = Some(IP::V6);
    }
    if opt_present(m, "q") {
        opt.set_quite(true);
    }
    if let Some(c) = opt_str(m, "c") {
        opt.set_count(match parse_u32_dec(c.as_str()) {
            Some(n) => n,
            None => 0,
        });
    }
    if let Some(i) = opt_str(m, "i") {
        opt.interval = match parse_u32_dec(i.as_str()) {
            Some(n) => n as u64,
            None => 1,
        };
    }
    if let Some(d) = opt_str(m, "d") {
        let secs: u32 = match parse_u32_dec(d.as_str()) {
            Some(n) => n,
            None => 1,
        };
        opt.timeout = secs as u128 * 1000;
    }
    if let Some(t) = opt_str(m, "t") {
        opt.set_ttl(match parse_u32_dec(t.as_str()) {
            Some(n) => n,
            None => 64,
        });
    }
    opt.addr = free[0].clone();
    Ok(CliCommand::Run(opt))
}

/// Parse a whole argument list (program name first) into the command to
/// run.  The contract carries the whole surface decision: a line getopts
/// refuses is an argument error; help and version win, in that order; a
/// missing destination (in particular, no arguments at all) is an argument
/// error; broadcast together with the V6 family is rejected; otherwise the
/// session options carry the flags exactly as `cli_command` fixes them.
pub fn parse_and_configure(args: &Vec<String>) -> (r: Result<CliCommand, RingError>)
    requires
        args@.len() >= 1,
    ensures
        ({
            let sh = ring_surface();
            let a = views_of(args@.skip(1));
            let p = parse_present(sh, a);
            let v = parse_value(sh, a);
            let f = parse_free(sh, a);
            if !parse_ok(sh, a) {
                r == Result::<CliCommand, RingError>::Err(RingError::ArgError)
            } else if p.contains("h"@) {
                r == Result::<CliCommand, RingError>::Ok(CliCommand::Help)
            } else if p.contains("v"@) {
                r == Result::<CliCommand, RingError>::Ok(CliCommand::Version)
            } else if f.len() == 0 {
                r == Result::<CliCommand, RingError>::Err(RingError::ArgError)
            } else if p.contains("b"@) && p.contains("6"@) {
                r == Result::<CliCommand, RingError>::Err(RingError::ArgError)
            } else {
                &&& r is Ok
                &&& r->Ok_0 is Run
                &&& ({
                    let o = r->Ok_0->Run_0;
                    &&& o.ipv == (if p.contains("4"@) {
                        Option::Some(IP::V4)
                    } else if p.contains("6"@) {
                        Option::Some(IP::V6)
                    } else {
                        Option::<IP>::None
                    })
                    &&& o.quite == p.contains("q"@)
                    &&& o.broadcast == p.contains("b"@)
                    &&& o.count == (if v.dom().contains("c"@) {
                        parse_or(v["c"@], 0)
                    } else {
                        0u32
                    })
                    &&& o.interval == (if v.dom().contains("i"@) {
                        parse_or(v["i"@], 1) as u64
                    } else {
                        1u64
                    })
                    &&& o.timeout == (if v.dom().contains("d"@) {
                        parse_or(v["d"@], 1) * 1000
                    } else {
                        1000int
                    })
                    &&& o.ttl == (if v.dom().contains("t"@) {
                        parse_or(v["t"@], 64)
                    } else {
                        128u32
                    })
                    &&& o.addr@ == f[0]
                })
            }
        }),
        r is Err ==> (r == Result::<CliCommand, RingError>::Err(RingError::ArgError)),
        args@.len() == 1 ==> r == Result::<CliCommand, RingError>::Err(RingError::ArgError),
{
    let opts = build_options();
    let rest = &args.as_slice()[1..args.len()];
    proof {
        assert(args@.skip(1) =~= rest@);
    }
    let matches = match parse_args(&opts, rest) {
        Ok(m) => m,
        Err(_) => {
            return Err(RingError::ArgError);
        },
    };
    cli_command(&matches)
}

} // verus!
