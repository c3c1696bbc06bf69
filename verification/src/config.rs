//! Test configurations and the iperf3 command lines they stand for.
use vstd::prelude::*;

use crate::text::{chars_of, decimal, decimal_string, string_of_range, trim, trim_range};

verus! {

/// IP version preference (general option, `-4`/`-6`).
#[derive(Debug, Clone, Copy, PartialEq, Eq, Structural)]
pub enum IpVersion {
    Auto,
    V4,
    V6,
}

/// Client configuration for a test.
#[derive(Debug, Clone)]
pub struct ClientConfig {
    pub host: String,
    pub port: u16,
    pub duration: u32,
    pub parallel: u32,
    /// `true` = reverse (download: the server sends to us).
    pub reverse: bool,
    /// `true` = bidirectional (`--bidir`): measures both directions at once.
    pub bidir: bool,
    /// `true` = UDP instead of TCP.
    pub udp: bool,
    /// Target bitrate (`-b`), e.g. "10M", "0" (no limit). Empty = iperf3's
    /// default (unlimited for TCP; for UDP `-b 0` is forced).
    pub bitrate: String,
    /// Omit the first N seconds of the results (`-O`). 0 = none.
    pub omit: u32,
    /// IP version preference.
    pub ip_version: IpVersion,
    /// Local address/interface to bind (`-B`). Empty = none.
    pub bind: String,
    /// TCP window / socket buffer size (`-w`), e.g. "256K". Empty = none.
    pub window: String,
    /// Read/write buffer length (`-l`), e.g. "128K". Empty = none.
    pub length: String,
    /// TCP MSS (`-M`). 0 = none.
    pub mss: u32,
    /// TCP congestion control algorithm (`-C`). Empty = none.
    pub congestion: String,
    /// Disables Nagle's algorithm (`-N`).
    pub no_delay: bool,
    /// Zero-copy sending (`-Z`).
    pub zerocopy: bool,
}

/// Server mode configuration.
#[derive(Debug, Clone)]
pub struct ServerConfig {
    pub port: u16,
    /// Local address/interface to bind (`-B`). Empty = none.
    pub bind: String,
    /// Serve a single client then exit (`-1`).
    pub one_off: bool,
}

/// A list of arguments seen as plain values.
pub open spec fn args_view(v: Seq<String>) -> Seq<Seq<char>> {
    v.map_values(|s: String| s@)
}

/// `[flag, value]` when `cond` holds, nothing otherwise.
pub open spec fn opt_pair(cond: bool, flag: Seq<char>, value: Seq<char>) -> Seq<Seq<char>> {
    if cond {
        seq![flag, value]
    } else {
        Seq::empty()
    }
}

/// `[flag]` when `cond` holds, nothing otherwise.
pub open spec fn opt_flag(cond: bool, flag: Seq<char>) -> Seq<Seq<char>> {
    if cond {
        seq![flag]
    } else {
        Seq::empty()
    }
}

/// `[flag, trim(text)]` when the trimmed text is not empty.
pub open spec fn text_option(flag: Seq<char>, text: Seq<char>) -> Seq<Seq<char>> {
    opt_pair(trim(text).len() > 0, flag, trim(text))
}

/// The arguments every client run starts with: server, port, duration, one
/// report per second, flushed as it happens.
pub open spec fn client_base_args(c: ClientConfig) -> Seq<Seq<char>> {
    seq![
        "-c"@,
        c.host@,
        "-p"@,
        decimal(c.port as nat),
        "-t"@,
        decimal(c.duration as nat),
        "-i"@,
        "1"@,
        "--forceflush"@,
    ]
}

/// Direction: `--bidir` wins over reverse (`-R`); the two never go together.
pub open spec fn direction_args(c: ClientConfig) -> Seq<Seq<char>> {
    if c.bidir {
        seq!["--bidir"@]
    } else if c.reverse {
        seq!["-R"@]
    } else {
        Seq::empty()
    }
}

/// Bitrate: the given value if any; for UDP without one, `-b 0` (iperf3 would
/// otherwise cap UDP at 1 Mbit/s).
pub open spec fn bitrate_args(c: ClientConfig) -> Seq<Seq<char>> {
    if trim(c.bitrate@).len() > 0 {
        seq!["-b"@, trim(c.bitrate@)]
    } else if c.udp {
        seq!["-b"@, "0"@]
    } else {
        Seq::empty()
    }
}

pub open spec fn ip_args(v: IpVersion) -> Seq<Seq<char>> {
    match v {
        IpVersion::Auto => Seq::empty(),
        IpVersion::V4 => seq!["-4"@],
        IpVersion::V6 => seq!["-6"@],
    }
}

/// Streams, direction and protocol.
pub open spec fn stream_args(c: ClientConfig) -> Seq<Seq<char>> {
    opt_pair(c.parallel > 1, "-P"@, decimal(c.parallel as nat)) + direction_args(c) + opt_flag(
        c.udp,
        "-u"@,
    )
}

/// Bitrate, omitted seconds and IP version.
pub open spec fn pacing_args(c: ClientConfig) -> Seq<Seq<char>> {
    bitrate_args(c) + opt_pair(c.omit > 0, "-O"@, decimal(c.omit as nat)) + ip_args(c.ip_version)
}

/// Local binding and buffer sizes.
pub open spec fn buffer_args(c: ClientConfig) -> Seq<Seq<char>> {
    text_option("-B"@, c.bind@) + text_option("-w"@, c.window@) + text_option("-l"@, c.length@)
}

/// TCP tuning: MSS, congestion algorithm, no delay, zero copy.
pub open spec fn tcp_args(c: ClientConfig) -> Seq<Seq<char>> {
    opt_pair(c.mss > 0, "-M"@, decimal(c.mss as nat)) + text_option("-C"@, c.congestion@)
        + opt_flag(c.no_delay, "-N"@) + opt_flag(c.zerocopy, "-Z"@)
}

/// The iperf3 arguments for a client run of `c`, in this order: the base
/// arguments, `-P`, `--bidir`/`-R`, `-u`, `-b`, `-O`, `-4`/`-6`, `-B`, `-w`, `-l`,
/// `-M`, `-C`, `-N`, `-Z`.
pub open spec fn client_args_spec(c: ClientConfig) -> Seq<Seq<char>> {
    client_base_args(c) + stream_args(c) + pacing_args(c) + buffer_args(c) + tcp_args(c)
}

/// The iperf3 arguments for a server run of `c`.
pub open spec fn server_args_spec(c: ServerConfig) -> Seq<Seq<char>> {
    seq!["-s"@, "-p"@, decimal(c.port as nat), "-i"@, "1"@, "--forceflush"@] + text_option(
        "-B"@,
        c.bind@,
    ) + opt_flag(c.one_off, "-1"@)
}

fn push_text(args: &mut Vec<String>, s: &str)
    ensures
        args_view(final(args)@) == args_view(old(args)@).push(s@),
{
    args.push(String::from_str(s));
    assert(args_view(args@) =~= args_view(old(args)@).push(s@));
}

fn push_string(args: &mut Vec<String>, s: String)
    ensures
        args_view(final(args)@) == args_view(old(args)@).push(s@),
{
    let ghost v = s@;
    args.push(s);
    assert(args_view(args@) =~= args_view(old(args)@).push(v));
}

/// `s` without leading and trailing whitespace.
pub fn trimmed(s: &String) -> (r: String)
    ensures
        r@ == trim(s@),
{
    let cs = chars_of(s.as_str());
    let (a, b) = trim_range(&cs, 0, cs.len());
    assert(cs@.subrange(0, cs@.len() as int) =~= cs@);
    string_of_range(&cs, a, b)
}

/// Appends `[flag, trim(text)]` when the trimmed text is not empty.
fn push_text_option(args: &mut Vec<String>, flag: &str, text: &String)
    ensures
        args_view(final(args)@) == args_view(old(args)@) + text_option(flag@, text@),
{
    let t = trimmed(text);
    if !t.as_str().is_empty() {
        push_text(args, flag);
        push_string(args, t);
    }
    assert(args_view(args@) =~= args_view(old(args)@) + text_option(flag@, text@));
}

/// Appends `[flag, decimal(n)]` when `cond` holds.
fn push_number_option(args: &mut Vec<String>, cond: bool, flag: &str, n: u32)
    ensures
        args_view(final(args)@) == args_view(old(args)@) + opt_pair(cond, flag@, decimal(n as nat)),
{
    if cond {
        push_text(args, flag);
        push_string(args, decimal_string(n as u64));
    }
    assert(args_view(args@) =~= args_view(old(args)@) + opt_pair(cond, flag@, decimal(n as nat)));
}

/// Appends `[flag]` when `cond` holds.
fn push_flag(args: &mut Vec<String>, cond: bool, flag: &str)
    ensures
        args_view(final(args)@) == args_view(old(args)@) + opt_flag(cond, flag@),
{
    if cond {
        push_text(args, flag);
    }
    assert(args_view(args@) =~= args_view(old(args)@) + opt_flag(cond, flag@));
}

fn push_stream_args(args: &mut Vec<String>, cfg: &ClientConfig)
    ensures
        args_view(final(args)@) == args_view(old(args)@) + stream_args(*cfg),
{
    push_number_option(args, cfg.parallel > 1, "-P", cfg.parallel);
    let ghost a1 = args_view(args@);
    // `--bidir` and `-R` exclude each other; bidirectional wins over reverse.
    if cfg.bidir {
        push_text(args, "--bidir");
    } else if cfg.reverse {
        push_text(args, "-R");
    }
    assert(args_view(args@) =~= a1 + direction_args(*cfg));
    push_flag(args, cfg.udp, "-u");
    assert(args_view(args@) =~= args_view(old(args)@) + stream_args(*cfg));
}

fn push_pacing_args(args: &mut Vec<String>, cfg: &ClientConfig)
    ensures
        args_view(final(args)@) == args_view(old(args)@) + pacing_args(*cfg),
{
    // Explicit bitrate if given. For UDP iperf3 caps at 1 Mbit/s by default,
    // so without a value `-b 0` asks for the maximum.
    let bitrate = trimmed(&cfg.bitrate);
    if !bitrate.as_str().is_empty() {
        push_text(args, "-b");
        push_string(args, bitrate);
    } else if cfg.udp {
        push_text(args, "-b");
        push_text(args, "0");
    }
    assert(args_view(args@) =~= args_view(old(args)@) + bitrate_args(*cfg));
    push_number_option(args, cfg.omit > 0, "-O", cfg.omit);
    let ghost a3 = args_view(args@);
    match cfg.ip_version {
        IpVersion::Auto => {},
        IpVersion::V4 => push_text(args, "-4"),
        IpVersion::V6 => push_text(args, "-6"),
    }
    assert(args_view(args@) =~= a3 + ip_args(cfg.ip_version));
    assert(args_view(args@) =~= args_view(old(args)@) + pacing_args(*cfg));
}

fn push_buffer_args(args: &mut Vec<String>, cfg: &ClientConfig)
    ensures
        args_view(final(args)@) == args_view(old(args)@) + buffer_args(*cfg),
{
    push_text_option(args, "-B", &cfg.bind);
    push_text_option(args, "-w", &cfg.window);
    push_text_option(args, "-l", &cfg.length);
    assert(args_view(args@) =~= args_view(old(args)@) + buffer_args(*cfg));
}

fn push_tcp_args(args: &mut Vec<String>, cfg: &ClientConfig)
    ensures
        args_view(final(args)@) == args_view(old(args)@) + tcp_args(*cfg),
{
    push_number_option(args, cfg.mss > 0, "-M", cfg.mss);
    push_text_option(args, "-C", &cfg.congestion);
    push_flag(args, cfg.no_delay, "-N");
    push_flag(args, cfg.zerocopy, "-Z");
    assert(args_view(args@) =~= args_view(old(args)@) + tcp_args(*cfg));
}

/// The iperf3 arguments for a client test with `cfg`.
pub fn client_args(cfg: &ClientConfig) -> (args: Vec<String>)
    ensures
        args_view(args@) == client_args_spec(*cfg),
{
    let mut args: Vec<String> = Vec::new();
    push_text(&mut args, "-c");
    push_string(&mut args, cfg.host.clone());
    push_text(&mut args, "-p");
    push_string(&mut args, decimal_string(cfg.port as u64));
    push_text(&mut args, "-t");
    push_string(&mut args, decimal_string(cfg.duration as u64));
    push_text(&mut args, "-i");
    push_text(&mut args, "1");
    push_text(&mut args, "--forceflush");
    assert(args_view(args@) =~= client_base_args(*cfg));
    push_stream_args(&mut args, cfg);
    push_pacing_args(&mut args, cfg);
    push_buffer_args(&mut args, cfg);
    push_tcp_args(&mut args, cfg);
    assert(args_view(args@) =~= client_args_spec(*cfg));
    args
}

/// The iperf3 arguments for a server with `cfg`.
pub fn server_args(cfg: &ServerConfig) -> (args: Vec<String>)
    ensures
        args_view(args@) == server_args_spec(*cfg),
{
    let mut args: Vec<String> = Vec::new();
    push_text(&mut args, "-s");
    push_text(&mut args, "-p");
    push_string(&mut args, decimal_string(cfg.port as u64));
    push_text(&mut args, "-i");
    push_text(&mut args, "1");
    push_text(&mut args, "--forceflush");
    push_text_option(&mut args, "-B", &cfg.bind);
    push_flag(&mut args, cfg.one_off, "-1");
    assert(args_view(args@) =~= server_args_spec(*cfg));
    args
}

// ---------------------------------------------------------------------------
// Laws
// ---------------------------------------------------------------------------

/// `--bidir` and `-R` exclude each other: with bidirectional asked for, the
/// reverse setting changes nothing in the command line.
pub proof fn law_bidir_overrides_reverse(c: ClientConfig)
    requires
        c.bidir,
    ensures
        client_args_spec(ClientConfig { reverse: !c.reverse, ..c }) == client_args_spec(c),
{
    let d = ClientConfig { reverse: !c.reverse, ..c };
    assert(direction_args(d) == direction_args(c));
    assert(client_base_args(d) == client_base_args(c));
    assert(stream_args(d) == stream_args(c));
    assert(pacing_args(d) == pacing_args(c));
    assert(buffer_args(d) == buffer_args(c));
    assert(tcp_args(d) == tcp_args(c));
}

/// UDP without a bitrate asks for no limit: `-b 0` follows the stream options.
pub proof fn law_udp_unlimited_by_default(c: ClientConfig)
    requires
        c.udp,
        trim(c.bitrate@).len() == 0,
    ensures
        ({
            let a = client_args_spec(c);
            let k = (client_base_args(c).len() + stream_args(c).len()) as int;
            a[k] == "-b"@ && a[k + 1] == "0"@
        }),
{
    let a = client_args_spec(c);
    let k = (client_base_args(c).len() + stream_args(c).len()) as int;
    let front = client_base_args(c) + stream_args(c);
    assert(pacing_args(c)[0] == "-b"@ && pacing_args(c)[1] == "0"@);
    assert(a == front + pacing_args(c) + buffer_args(c) + tcp_args(c));
    assert((front + pacing_args(c))[k] == pacing_args(c)[0]);
    assert((front + pacing_args(c))[k + 1] == pacing_args(c)[1]);
}

/// An explicit bitrate is always passed on, trimmed, right after `-b`, for TCP
/// as well as UDP.
pub proof fn law_explicit_bitrate_is_passed(c: ClientConfig)
    requires
        trim(c.bitrate@).len() > 0,
    ensures
        exists|k: int|
            0 <= k && k + 1 < client_args_spec(c).len() && #[trigger] client_args_spec(c)[k]
                == "-b"@ && client_args_spec(c)[k + 1] == trim(c.bitrate@),
{
    let a = client_args_spec(c);
    let k = (client_base_args(c).len() + stream_args(c).len()) as int;
    let front = client_base_args(c) + stream_args(c);
    assert(a == front + pacing_args(c) + buffer_args(c) + tcp_args(c));
    assert(pacing_args(c)[0] == "-b"@ && pacing_args(c)[1] == trim(c.bitrate@));
    assert((front + pacing_args(c))[k] == pacing_args(c)[0]);
    assert((front + pacing_args(c))[k + 1] == pacing_args(c)[1]);
    assert(a[k] == "-b"@);
}

/// A server bound to an address is always told so: `-B` followed by the
/// trimmed address, whether or not it serves a single client.
pub proof fn law_server_bind_is_passed(c: ServerConfig)
    requires
        trim(c.bind@).len() > 0,
    ensures
        exists|k: int|
            0 <= k && k + 1 < server_args_spec(c).len() && #[trigger] server_args_spec(c)[k]
                == "-B"@ && server_args_spec(c)[k + 1] == trim(c.bind@),
{
    assert(server_args_spec(c)[6] == "-B"@);
}

/// `x` appears in `a`.
pub open spec fn has_item(a: Seq<Seq<char>>, x: Seq<char>) -> bool {
    exists|k: int| 0 <= k < a.len() && #[trigger] a[k] == x
}

/// `x` appears in `a` immediately followed by `y`.
pub open spec fn has_pair(a: Seq<Seq<char>>, x: Seq<char>, y: Seq<char>) -> bool {
    exists|k: int| 0 <= k && k + 1 < a.len() && #[trigger] a[k] == x && a[k + 1] == y
}

proof fn lemma_item_in_concat(a: Seq<Seq<char>>, b: Seq<Seq<char>>, x: Seq<char>)
    ensures
        has_item(a, x) ==> has_item(a + b, x),
        has_item(b, x) ==> has_item(a + b, x),
{
    if has_item(a, x) {
        let k = choose|k: int| 0 <= k < a.len() && #[trigger] a[k] == x;
        assert((a + b)[k] == x);
    }
    if has_item(b, x) {
        let k = choose|k: int| 0 <= k < b.len() && #[trigger] b[k] == x;
        assert((a + b)[a.len() + k] == x);
    }
}

proof fn lemma_pair_in_concat(a: Seq<Seq<char>>, b: Seq<Seq<char>>, x: Seq<char>, y: Seq<char>)
    ensures
        has_pair(a, x, y) ==> has_pair(a + b, x, y),
        has_pair(b, x, y) ==> has_pair(a + b, x, y),
{
    if has_pair(a, x, y) {
        let k = choose|k: int| 0 <= k && k + 1 < a.len() && #[trigger] a[k] == x && a[k + 1] == y;
        assert((a + b)[k] == x && (a + b)[k + 1] == y);
    }
    if has_pair(b, x, y) {
        let k = choose|k: int| 0 <= k && k + 1 < b.len() && #[trigger] b[k] == x && b[k + 1] == y;
        assert((a + b)[a.len() + k] == x && (a + b)[a.len() + k + 1] == y);
    }
}

proof fn lemma_pair_of_two(x: Seq<char>, y: Seq<char>)
    ensures
        has_pair(seq![x, y], x, y),
{
    assert(seq![x, y][0] == x && seq![x, y][1] == y);
}

proof fn lemma_item_of_one(x: Seq<char>)
    ensures
        has_item(seq![x], x),
{
    assert(seq![x][0] == x);
}

/// Lifts a fact about one group of client arguments to the whole command line.
proof fn lemma_client_groups(c: ClientConfig, x: Seq<char>, y: Seq<char>)
    ensures
        has_pair(stream_args(c), x, y) || has_pair(pacing_args(c), x, y) || has_pair(
            buffer_args(c),
            x,
            y,
        ) || has_pair(tcp_args(c), x, y) ==> has_pair(client_args_spec(c), x, y),
        has_item(stream_args(c), x) || has_item(pacing_args(c), x) || has_item(tcp_args(c), x)
            ==> has_item(client_args_spec(c), x),
{
    let b = client_base_args(c);
    let s = stream_args(c);
    let p = pacing_args(c);
    let f = buffer_args(c);
    let t = tcp_args(c);
    lemma_pair_in_concat(b, s, x, y);
    lemma_pair_in_concat(b + s, p, x, y);
    lemma_pair_in_concat(b + s + p, f, x, y);
    lemma_pair_in_concat(b + s + p + f, t, x, y);
    lemma_item_in_concat(b, s, x);
    lemma_item_in_concat(b + s, p, x);
    lemma_item_in_concat(b + s + p, f, x);
    lemma_item_in_concat(b + s + p + f, t, x);
}

/// The stream settings reach the command line: `-P` with the stream count
/// above one, `--bidir`, `-R` (only without bidirectional mode), `-u`.
pub proof fn law_stream_settings_reach_the_command(c: ClientConfig)
    ensures
        c.parallel > 1 ==> has_pair(client_args_spec(c), "-P"@, decimal(c.parallel as nat)),
        c.bidir ==> has_item(client_args_spec(c), "--bidir"@),
        !c.bidir && c.reverse ==> has_item(client_args_spec(c), "-R"@),
        c.udp ==> has_item(client_args_spec(c), "-u"@),
{
    let pp = opt_pair(c.parallel > 1, "-P"@, decimal(c.parallel as nat));
    let d = direction_args(c);
    let u = opt_flag(c.udp, "-u"@);
    if c.parallel > 1 {
        lemma_pair_of_two("-P"@, decimal(c.parallel as nat));
        lemma_pair_in_concat(pp, d, "-P"@, decimal(c.parallel as nat));
        lemma_pair_in_concat(pp + d, u, "-P"@, decimal(c.parallel as nat));
        lemma_client_groups(c, "-P"@, decimal(c.parallel as nat));
    }
    if c.bidir {
        lemma_item_of_one("--bidir"@);
        lemma_item_in_concat(pp, d, "--bidir"@);
        lemma_item_in_concat(pp + d, u, "--bidir"@);
        lemma_client_groups(c, "--bidir"@, "--bidir"@);
    }
    if !c.bidir && c.reverse {
        lemma_item_of_one("-R"@);
        lemma_item_in_concat(pp, d, "-R"@);
        lemma_item_in_concat(pp + d, u, "-R"@);
        lemma_client_groups(c, "-R"@, "-R"@);
    }
    if c.udp {
        lemma_item_of_one("-u"@);
        lemma_item_in_concat(pp + d, u, "-u"@);
        lemma_client_groups(c, "-u"@, "-u"@);
    }
}

/// The pacing settings reach the command line: the trimmed bitrate after `-b`
/// (TCP or UDP), the omitted seconds after `-O`, `-4` or `-6`.
pub proof fn law_pacing_settings_reach_the_command(c: ClientConfig)
    ensures
        trim(c.bitrate@).len() > 0 ==> has_pair(client_args_spec(c), "-b"@, trim(c.bitrate@)),
        c.omit > 0 ==> has_pair(client_args_spec(c), "-O"@, decimal(c.omit as nat)),
        c.ip_version == IpVersion::V4 ==> has_item(client_args_spec(c), "-4"@),
        c.ip_version == IpVersion::V6 ==> has_item(client_args_spec(c), "-6"@),
{
    let br = bitrate_args(c);
    let om = opt_pair(c.omit > 0, "-O"@, decimal(c.omit as nat));
    let ip = ip_args(c.ip_version);
    if trim(c.bitrate@).len() > 0 {
        lemma_pair_of_two("-b"@, trim(c.bitrate@));
        lemma_pair_in_concat(br, om, "-b"@, trim(c.bitrate@));
        lemma_pair_in_concat(br + om, ip, "-b"@, trim(c.bitrate@));
        lemma_client_groups(c, "-b"@, trim(c.bitrate@));
    }
    if c.omit > 0 {
        lemma_pair_of_two("-O"@, decimal(c.omit as nat));
        lemma_pair_in_concat(br, om, "-O"@, decimal(c.omit as nat));
        lemma_pair_in_concat(br + om, ip, "-O"@, decimal(c.omit as nat));
        lemma_client_groups(c, "-O"@, decimal(c.omit as nat));
    }
    if c.ip_version == IpVersion::V4 {
        lemma_item_of_one("-4"@);
        lemma_item_in_concat(br + om, ip, "-4"@);
        lemma_client_groups(c, "-4"@, "-4"@);
    }
    if c.ip_version == IpVersion::V6 {
        lemma_item_of_one("-6"@);
        lemma_item_in_concat(br + om, ip, "-6"@);
        lemma_client_groups(c, "-6"@, "-6"@);
    }
}

/// The binding and buffer settings reach the command line, trimmed, after
/// `-B`, `-w` and `-l`.
pub proof fn law_buffer_settings_reach_the_command(c: ClientConfig)
    ensures
        trim(c.bind@).len() > 0 ==> has_pair(client_args_spec(c), "-B"@, trim(c.bind@)),
        trim(c.window@).len() > 0 ==> has_pair(client_args_spec(c), "-w"@, trim(c.window@)),
        trim(c.length@).len() > 0 ==> has_pair(client_args_spec(c), "-l"@, trim(c.length@)),
{
    let bb = text_option("-B"@, c.bind@);
    let ww = text_option("-w"@, c.window@);
    let ll = text_option("-l"@, c.length@);
    if trim(c.bind@).len() > 0 {
        lemma_pair_of_two("-B"@, trim(c.bind@));
        lemma_pair_in_concat(bb, ww, "-B"@, trim(c.bind@));
        lemma_pair_in_concat(bb + ww, ll, "-B"@, trim(c.bind@));
        lemma_client_groups(c, "-B"@, trim(c.bind@));
    }
    if trim(c.window@).len() > 0 {
        lemma_pair_of_two("-w"@, trim(c.window@));
        lemma_pair_in_concat(bb, ww, "-w"@, trim(c.window@));
        lemma_pair_in_concat(bb + ww, ll, "-w"@, trim(c.window@));
        lemma_client_groups(c, "-w"@, trim(c.window@));
    }
    if trim(c.length@).len() > 0 {
        lemma_pair_of_two("-l"@, trim(c.length@));
        lemma_pair_in_concat(bb + ww, ll, "-l"@, trim(c.length@));
        lemma_client_groups(c, "-l"@, trim(c.length@));
    }
}

/// The TCP settings reach the command line: the MSS after `-M`, the trimmed
/// congestion algorithm after `-C`, `-N`, `-Z`.
pub proof fn law_tcp_settings_reach_the_command(c: ClientConfig)
    ensures
        c.mss > 0 ==> has_pair(client_args_spec(c), "-M"@, decimal(c.mss as nat)),
        trim(c.congestion@).len() > 0 ==> has_pair(
            client_args_spec(c),
            "-C"@,
            trim(c.congestion@),
        ),
        c.no_delay ==> has_item(client_args_spec(c), "-N"@),
        c.zerocopy ==> has_item(client_args_spec(c), "-Z"@),
{
    let mm = opt_pair(c.mss > 0, "-M"@, decimal(c.mss as nat));
    let cc = text_option("-C"@, c.congestion@);
    let nn = opt_flag(c.no_delay, "-N"@);
    let zz = opt_flag(c.zerocopy, "-Z"@);
    if c.mss > 0 {
        lemma_pair_of_two("-M"@, decimal(c.mss as nat));
        lemma_pair_in_concat(mm, cc, "-M"@, decimal(c.mss as nat));
        lemma_pair_in_concat(mm + cc, nn, "-M"@, decimal(c.mss as nat));
        lemma_pair_in_concat(mm + cc + nn, zz, "-M"@, decimal(c.mss as nat));
        lemma_client_groups(c, "-M"@, decimal(c.mss as nat));
    }
    if trim(c.congestion@).len() > 0 {
        lemma_pair_of_two("-C"@, trim(c.congestion@));
        lemma_pair_in_concat(mm, cc, "-C"@, trim(c.congestion@));
        lemma_pair_in_concat(mm + cc, nn, "-C"@, trim(c.congestion@));
        lemma_pair_in_concat(mm + cc + nn, zz, "-C"@, trim(c.congestion@));
        lemma_client_groups(c, "-C"@, trim(c.congestion@));
    }
    if c.no_delay {
        lemma_item_of_one("-N"@);
        lemma_item_in_concat(mm + cc, nn, "-N"@);
        lemma_item_in_concat(mm + cc + nn, zz, "-N"@);
        lemma_client_groups(c, "-N"@, "-N"@);
    }
    if c.zerocopy {
        lemma_item_of_one("-Z"@);
        lemma_item_in_concat(mm + cc + nn, zz, "-Z"@);
        lemma_client_groups(c, "-Z"@, "-Z"@);
    }
}

/// The server, port and duration stand right after `-c`, `-p` and `-t`.
pub proof fn law_client_target_reaches_the_command(c: ClientConfig)
    ensures
        client_args_spec(c)[0] == "-c"@ && client_args_spec(c)[1] == c.host@,
        client_args_spec(c)[2] == "-p"@ && client_args_spec(c)[3] == decimal(c.port as nat),
        client_args_spec(c)[4] == "-t"@ && client_args_spec(c)[5] == decimal(c.duration as nat),
{
    let rest = stream_args(c) + pacing_args(c) + buffer_args(c) + tcp_args(c);
    assert(client_args_spec(c) =~= client_base_args(c) + rest);
}

/// A one-off server is told so with `-1`.
pub proof fn law_one_off_is_passed(c: ServerConfig)
    requires
        c.one_off,
    ensures
        has_item(server_args_spec(c), "-1"@),
{
    let a = server_args_spec(c);
    assert(a[a.len() - 1] == "-1"@);
}

/// Every client run reports once per second and flushes each report as it
/// happens (the output is read line by line while the test runs).
pub proof fn law_client_streams_reports(c: ClientConfig)
    ensures
        client_args_spec(c).len() >= 9,
        client_args_spec(c).take(9) == client_base_args(c),
        client_args_spec(c)[6] == "-i"@,
        client_args_spec(c)[7] == "1"@,
        client_args_spec(c)[8] == "--forceflush"@,
{
    let rest = stream_args(c) + pacing_args(c) + buffer_args(c) + tcp_args(c);
    assert(client_args_spec(c) =~= client_base_args(c) + rest);
    assert(client_args_spec(c).take(9) =~= client_base_args(c));
}

/// Every server run listens on the given port, reports once per second and
/// flushes each report as it happens.
pub proof fn law_server_streams_reports(c: ServerConfig)
    ensures
        server_args_spec(c).len() >= 6,
        server_args_spec(c)[0] == "-s"@,
        server_args_spec(c)[2] == decimal(c.port as nat),
        server_args_spec(c)[3] == "-i"@,
        server_args_spec(c)[4] == "1"@,
        server_args_spec(c)[5] == "--forceflush"@,
{
}

} // verus!
