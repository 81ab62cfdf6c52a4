use crate::render::{
    url_text, decimal, decimal_string, dotted_quad, dotted_quad_string, socket_string, socket_text,
};
use crate::storage::{flags_of, Storage};
use vstd::prelude::*;
use vstd::seq_lib::lemma_concat_associative;
use vstd::string::*;

verus! {

/// The chain the oracle follows.
pub const CHAIN: &'static str = "regtest";

/// The block height from which the oracle indexes.
pub const SYNC_START_HEIGHT: u32 = 1;

/// How many tweaks the oracle computes in parallel.
pub const MAX_PARALLEL_TWEAK_COMPUTATIONS: u32 = 4;

/// How many requests the oracle serves in parallel.
pub const MAX_PARALLEL_REQUESTS: u32 = 4;

/// One line of the oracle's TOML configuration: `key = value`.
pub open spec fn setting(key: Seq<char>, value: Seq<char>) -> Seq<char> {
    key + " = "@ + value + "\n"@
}

/// A TOML string value: the text between double quotes.
pub open spec fn quoted(s: Seq<char>) -> Seq<char> {
    "\""@ + s + "\""@
}

/// 1 for `true`, 0 for `false`.
pub open spec fn bool_flag(b: bool) -> nat {
    if b {
        1
    } else {
        0
    }
}

/// Where bitcoind serves RPC, and its cookie file.
pub struct RpcTarget {
    /// IPv4 address of bitcoind's RPC socket.
    pub ip: [u8; 4],
    /// Port of bitcoind's RPC socket.
    pub port: u16,
    /// Absolute path of bitcoind's cookie file.
    pub cookie_path: String,
}

/// The configuration file handed to the oracle: it listens on `ip:port`, follows
/// regtest through bitcoind at `rpc`, and enables exactly the storage of `storage`.
pub open spec fn config_text(
    ip: Seq<char>,
    port: u16,
    rpc_ip: [u8; 4],
    rpc_port: u16,
    cookie_path: Seq<char>,
    tweaks_only: bool,
    storage: Storage,
) -> Seq<char> {
    let flags = flags_of(storage);
    setting("host"@, quoted(socket_text(ip, port)))
        + setting("chain"@, quoted(CHAIN@))
        + setting("rpc_endpoint"@, quoted("http://"@ + socket_text(dotted_quad(rpc_ip), rpc_port)))
        + setting("cookie_path"@, quoted(cookie_path))
        + setting("sync_start_height"@, decimal(SYNC_START_HEIGHT as nat))
        + setting("max_parallel_tweak_computations"@, decimal(MAX_PARALLEL_TWEAK_COMPUTATIONS as nat))
        + setting("max_parallel_requests"@, decimal(MAX_PARALLEL_REQUESTS as nat))
        + setting("tweaks_only"@, decimal(bool_flag(tweaks_only)))
        + setting("tweaks_full_basic"@, decimal(flags.0 as nat))
        + setting("tweaks_full_with_dust_filter"@, decimal(flags.1 as nat))
        + setting("tweaks_cut_through_with_dust_filter"@, decimal(flags.2 as nat))
}

/// Everything of the configuration file after its `host` line.
spec fn config_rest(
    rpc_ip: [u8; 4],
    rpc_port: u16,
    cookie_path: Seq<char>,
    tweaks_only: bool,
    storage: Storage,
) -> Seq<char> {
    let flags = flags_of(storage);
    setting("chain"@, quoted(CHAIN@))
        + setting("rpc_endpoint"@, quoted("http://"@ + socket_text(dotted_quad(rpc_ip), rpc_port)))
        + setting("cookie_path"@, quoted(cookie_path))
        + setting("sync_start_height"@, decimal(SYNC_START_HEIGHT as nat))
        + setting("max_parallel_tweak_computations"@, decimal(MAX_PARALLEL_TWEAK_COMPUTATIONS as nat))
        + setting("max_parallel_requests"@, decimal(MAX_PARALLEL_REQUESTS as nat))
        + setting("tweaks_only"@, decimal(bool_flag(tweaks_only)))
        + setting("tweaks_full_basic"@, decimal(flags.0 as nat))
        + setting("tweaks_full_with_dust_filter"@, decimal(flags.1 as nat))
        + setting("tweaks_cut_through_with_dust_filter"@, decimal(flags.2 as nat))
}

fn push_setting(out: &mut String, key: &str, value: &str)
    ensures
        final(out)@ == old(out)@ + setting(key@, value@),
{
    out.append(key);
    out.append(" = ");
    out.append(value);
    out.append("\n");
    assert(out@ =~= old(out)@ + setting(key@, value@));
}

fn push_quoted_setting(out: &mut String, key: &str, value: &str)
    ensures
        final(out)@ == old(out)@ + setting(key@, quoted(value@)),
{
    let mut q = String::new();
    q.append("\"");
    q.append(value);
    q.append("\"");
    assert(q@ =~= quoted(value@));
    push_setting(out, key, q.as_str());
}

fn push_number_setting(out: &mut String, key: &str, value: u32)
    ensures
        final(out)@ == old(out)@ + setting(key@, decimal(value as nat)),
{
    let v = decimal_string(value);
    push_setting(out, key, v.as_str());
}

/// Renders the oracle's configuration file.
pub fn render_config(
    ip: &str,
    port: u16,
    rpc: &RpcTarget,
    tweaks_only: bool,
    storage: Storage,
) -> (text: String)
    ensures
        text@ == config_text(ip@, port, rpc.ip, rpc.port, rpc.cookie_path@, tweaks_only, storage),
{
    let (a, b, c): (u8, u8, u8) = storage.values();
    let mut text = String::new();
    let host = socket_string(ip, port);
    push_quoted_setting(&mut text, "host", host.as_str());
    push_quoted_setting(&mut text, "chain", CHAIN);
    let rpc_ip = dotted_quad_string(rpc.ip);
    let rpc_socket = socket_string(rpc_ip.as_str(), rpc.port);
    let mut endpoint = String::new();
    endpoint.append("http://");
    endpoint.append(rpc_socket.as_str());
    push_quoted_setting(&mut text, "rpc_endpoint", endpoint.as_str());
    push_quoted_setting(&mut text, "cookie_path", rpc.cookie_path.as_str());
    push_number_setting(&mut text, "sync_start_height", SYNC_START_HEIGHT);
    push_number_setting(
        &mut text,
        "max_parallel_tweak_computations",
        MAX_PARALLEL_TWEAK_COMPUTATIONS,
    );
    push_number_setting(&mut text, "max_parallel_requests", MAX_PARALLEL_REQUESTS);
    let only: u32 = if tweaks_only {
        1
    } else {
        0
    };
    push_number_setting(&mut text, "tweaks_only", only);
    push_number_setting(&mut text, "tweaks_full_basic", a as u32);
    push_number_setting(&mut text, "tweaks_full_with_dust_filter", b as u32);
    push_number_setting(&mut text, "tweaks_cut_through_with_dust_filter", c as u32);
    assert(text@ =~= config_text(
        ip@,
        port,
        rpc.ip,
        rpc.port,
        rpc.cookie_path@,
        tweaks_only,
        storage,
    ));
    text
}

proof fn lemma_split_eq(a1: Seq<char>, b1: Seq<char>, a2: Seq<char>, b2: Seq<char>)
    requires
        a1 + b1 == a2 + b2,
        b1.len() == b2.len(),
    ensures
        a1 == a2,
        b1 == b2,
{
    assert(a1 =~= (a1 + b1).subrange(0, a1.len() as int));
    assert(a2 =~= (a2 + b2).subrange(0, a2.len() as int));
    assert(b1 =~= (a1 + b1).subrange(a1.len() as int, (a1 + b1).len() as int));
    assert(b2 =~= (a2 + b2).subrange(a2.len() as int, (a2 + b2).len() as int));
}

proof fn lemma_flag_setting_eq(key: Seq<char>, x: nat, y: nat)
    requires
        x <= 1,
        y <= 1,
        setting(key, decimal(x)) == setting(key, decimal(y)),
    ensures
        x == y,
{
    let i: int = (key.len() + " = "@.len()) as int;
    assert(setting(key, decimal(x))[i] == decimal(x)[0]);
    assert(setting(key, decimal(y))[i] == decimal(y)[0]);
}

/// The configuration file tells the storage strategy and the tweaks-only mode
/// apart: two renderings that differ only in these settings are different texts.
pub proof fn lemma_config_determines_mode(
    ip: Seq<char>,
    port: u16,
    rpc_ip: [u8; 4],
    rpc_port: u16,
    cookie_path: Seq<char>,
    tweaks_only_a: bool,
    storage_a: Storage,
    tweaks_only_b: bool,
    storage_b: Storage,
)
    ensures
        config_text(ip, port, rpc_ip, rpc_port, cookie_path, tweaks_only_a, storage_a)
            == config_text(ip, port, rpc_ip, rpc_port, cookie_path, tweaks_only_b, storage_b)
            ==> tweaks_only_a == tweaks_only_b && storage_a == storage_b,
{
    let ta = config_text(ip, port, rpc_ip, rpc_port, cookie_path, tweaks_only_a, storage_a);
    let tb = config_text(ip, port, rpc_ip, rpc_port, cookie_path, tweaks_only_b, storage_b);
    if ta == tb {
        let fa = flags_of(storage_a);
        let fb = flags_of(storage_b);
        let prefix = setting("host"@, quoted(socket_text(ip, port)))
            + setting("chain"@, quoted(CHAIN@))
            + setting("rpc_endpoint"@, quoted("http://"@ + socket_text(dotted_quad(rpc_ip), rpc_port)))
            + setting("cookie_path"@, quoted(cookie_path))
            + setting("sync_start_height"@, decimal(SYNC_START_HEIGHT as nat))
            + setting("max_parallel_tweak_computations"@, decimal(MAX_PARALLEL_TWEAK_COMPUTATIONS as nat))
            + setting("max_parallel_requests"@, decimal(MAX_PARALLEL_REQUESTS as nat));
        let oa = setting("tweaks_only"@, decimal(bool_flag(tweaks_only_a)));
        let ob = setting("tweaks_only"@, decimal(bool_flag(tweaks_only_b)));
        let aa = setting("tweaks_full_basic"@, decimal(fa.0 as nat));
        let ab = setting("tweaks_full_basic"@, decimal(fb.0 as nat));
        let ba = setting("tweaks_full_with_dust_filter"@, decimal(fa.1 as nat));
        let bb = setting("tweaks_full_with_dust_filter"@, decimal(fb.1 as nat));
        let ca = setting("tweaks_cut_through_with_dust_filter"@, decimal(fa.2 as nat));
        let cb = setting("tweaks_cut_through_with_dust_filter"@, decimal(fb.2 as nat));
        assert(decimal(0) == seq!['0']);
        assert(decimal(1) == seq!['1']);
        lemma_split_eq(prefix + oa + aa + ba, ca, prefix + ob + ab + bb, cb);
        lemma_split_eq(prefix + oa + aa, ba, prefix + ob + ab, bb);
        lemma_split_eq(prefix + oa, aa, prefix + ob, ab);
        lemma_split_eq(prefix, oa, prefix, ob);
        lemma_flag_setting_eq("tweaks_only"@, bool_flag(tweaks_only_a), bool_flag(tweaks_only_b));
        lemma_flag_setting_eq("tweaks_full_basic"@, fa.0 as nat, fb.0 as nat);
        lemma_flag_setting_eq("tweaks_full_with_dust_filter"@, fa.1 as nat, fb.1 as nat);
        lemma_flag_setting_eq("tweaks_cut_through_with_dust_filter"@, fa.2 as nat, fb.2 as nat);
        crate::storage::lemma_flags_injective(storage_a, storage_b);
    }
}

/// The server URL of an oracle listening on `ip:port` names exactly the socket
/// that the first line of its configuration file tells it to listen on.
pub proof fn lemma_url_names_configured_host(
    ip: Seq<char>,
    port: u16,
    rpc_ip: [u8; 4],
    rpc_port: u16,
    cookie_path: Seq<char>,
    tweaks_only: bool,
    storage: Storage,
)
    ensures
        ({
            let host = socket_text(ip, port);
            let first = setting("host"@, quoted(host));
            &&& config_text(ip, port, rpc_ip, rpc_port, cookie_path, tweaks_only, storage).subrange(
                0,
                first.len() as int,
            ) == first
            &&& url_text(ip, port) == "http://"@ + host
        }),
{
    let host = socket_text(ip, port);
    let first = setting("host"@, quoted(host));
    let text = config_text(ip, port, rpc_ip, rpc_port, cookie_path, tweaks_only, storage);
    let rest = text.subrange(first.len() as int, text.len() as int);
    assert(text =~= first + rest);
    assert(text.subrange(0, first.len() as int) =~= first);
}

/// The last four lines of the configuration file set the tweaks-only mode and the
/// three storage flags: `tweaks_only` is 1 exactly in tweaks-only mode, and of the
/// storage settings exactly the chosen strategy's is 1, the two others 0.
pub proof fn lemma_config_ends_with_mode_lines(
    ip: Seq<char>,
    port: u16,
    rpc_ip: [u8; 4],
    rpc_port: u16,
    cookie_path: Seq<char>,
    tweaks_only: bool,
    storage: Storage,
)
    ensures
        ({
            let text = config_text(ip, port, rpc_ip, rpc_port, cookie_path, tweaks_only, storage);
            let tail = "tweaks_only"@ + " = "@ + seq![if tweaks_only { '1' } else { '0' }] + "\n"@
                + "tweaks_full_basic"@ + " = "@ + seq![
                if storage == Storage::FullBasic {
                    '1'
                } else {
                    '0'
                },
            ] + "\n"@ + "tweaks_full_with_dust_filter"@ + " = "@ + seq![
                if storage == Storage::DustFilter {
                    '1'
                } else {
                    '0'
                },
            ] + "\n"@ + "tweaks_cut_through_with_dust_filter"@ + " = "@ + seq![
                if storage == Storage::DustFilterCutThrough {
                    '1'
                } else {
                    '0'
                },
            ] + "\n"@;
            &&& text.len() >= tail.len()
            &&& text.subrange(text.len() - tail.len(), text.len() as int) == tail
        }),
{
    let text = config_text(ip, port, rpc_ip, rpc_port, cookie_path, tweaks_only, storage);
    let flags = flags_of(storage);
    assert(decimal(0) == seq!['0']);
    assert(decimal(1) == seq!['1']);
    let head = setting("host"@, quoted(socket_text(ip, port)))
        + setting("chain"@, quoted(CHAIN@))
        + setting("rpc_endpoint"@, quoted("http://"@ + socket_text(dotted_quad(rpc_ip), rpc_port)))
        + setting("cookie_path"@, quoted(cookie_path))
        + setting("sync_start_height"@, decimal(SYNC_START_HEIGHT as nat))
        + setting("max_parallel_tweak_computations"@, decimal(MAX_PARALLEL_TWEAK_COMPUTATIONS as nat))
        + setting("max_parallel_requests"@, decimal(MAX_PARALLEL_REQUESTS as nat));
    let tail = "tweaks_only"@ + " = "@ + seq![if tweaks_only { '1' } else { '0' }] + "\n"@
        + "tweaks_full_basic"@ + " = "@ + seq![
        if storage == Storage::FullBasic {
            '1'
        } else {
            '0'
        },
    ] + "\n"@ + "tweaks_full_with_dust_filter"@ + " = "@ + seq![
        if storage == Storage::DustFilter {
            '1'
        } else {
            '0'
        },
    ] + "\n"@ + "tweaks_cut_through_with_dust_filter"@ + " = "@ + seq![
        if storage == Storage::DustFilterCutThrough {
            '1'
        } else {
            '0'
        },
    ] + "\n"@;
    assert(text =~= head + tail);
    assert(text.subrange(text.len() - tail.len(), text.len() as int) =~= tail);
}

/// The listen address is written on the first line only: two renderings that differ
/// in the oracle's ip and port agree after their `host` lines, so in particular the
/// bitcoind RPC endpoint does not depend on where the oracle listens.
pub proof fn lemma_listen_address_only_in_host_line(
    ip_a: Seq<char>,
    port_a: u16,
    ip_b: Seq<char>,
    port_b: u16,
    rpc_ip: [u8; 4],
    rpc_port: u16,
    cookie_path: Seq<char>,
    tweaks_only: bool,
    storage: Storage,
)
    ensures
        ({
            let ta = config_text(ip_a, port_a, rpc_ip, rpc_port, cookie_path, tweaks_only, storage);
            let tb = config_text(ip_b, port_b, rpc_ip, rpc_port, cookie_path, tweaks_only, storage);
            let ha = "host"@ + " = "@ + "\""@ + ip_a + ":"@ + decimal(port_a as nat) + "\""@ + "\n"@;
            let hb = "host"@ + " = "@ + "\""@ + ip_b + ":"@ + decimal(port_b as nat) + "\""@ + "\n"@;
            &&& ta.len() >= ha.len()
            &&& tb.len() >= hb.len()
            &&& ta.subrange(0, ha.len() as int) == ha
            &&& tb.subrange(0, hb.len() as int) == hb
            &&& ta.subrange(ha.len() as int, ta.len() as int) == tb.subrange(
                hb.len() as int,
                tb.len() as int,
            )
        }),
{
    lemma_config_splits_after_host(ip_a, port_a, rpc_ip, rpc_port, cookie_path, tweaks_only, storage);
    lemma_config_splits_after_host(ip_b, port_b, rpc_ip, rpc_port, cookie_path, tweaks_only, storage);
}

/// The configuration text as its host line followed by the rest, which does not
/// involve the listen address.
proof fn lemma_config_splits_after_host(
    ip: Seq<char>,
    port: u16,
    rpc_ip: [u8; 4],
    rpc_port: u16,
    cookie_path: Seq<char>,
    tweaks_only: bool,
    storage: Storage,
)
    ensures
        ({
            let text = config_text(ip, port, rpc_ip, rpc_port, cookie_path, tweaks_only, storage);
            let h = "host"@ + " = "@ + "\""@ + ip + ":"@ + decimal(port as nat) + "\""@ + "\n"@;
            &&& text.len() >= h.len()
            &&& text.subrange(0, h.len() as int) == h
            &&& text.subrange(h.len() as int, text.len() as int) == config_rest(
                rpc_ip,
                rpc_port,
                cookie_path,
                tweaks_only,
                storage,
            )
        }),
{
    let text = config_text(ip, port, rpc_ip, rpc_port, cookie_path, tweaks_only, storage);
    let h = "host"@ + " = "@ + "\""@ + ip + ":"@ + decimal(port as nat) + "\""@ + "\n"@;
    let hs = setting("host"@, quoted(socket_text(ip, port)));
    assert(hs =~= h);
    let flags = flags_of(storage);
    let s1 = setting("chain"@, quoted(CHAIN@));
    let s2 = setting("rpc_endpoint"@, quoted("http://"@ + socket_text(dotted_quad(rpc_ip), rpc_port)));
    let s3 = setting("cookie_path"@, quoted(cookie_path));
    let s4 = setting("sync_start_height"@, decimal(SYNC_START_HEIGHT as nat));
    let s5 = setting("max_parallel_tweak_computations"@, decimal(MAX_PARALLEL_TWEAK_COMPUTATIONS as nat));
    let s6 = setting("max_parallel_requests"@, decimal(MAX_PARALLEL_REQUESTS as nat));
    let s7 = setting("tweaks_only"@, decimal(bool_flag(tweaks_only)));
    let s8 = setting("tweaks_full_basic"@, decimal(flags.0 as nat));
    let s9 = setting("tweaks_full_with_dust_filter"@, decimal(flags.1 as nat));
    let s10 = setting("tweaks_cut_through_with_dust_filter"@, decimal(flags.2 as nat));
    lemma_concat_associative(hs, s1, s2);
    lemma_concat_associative(hs, s1 + s2, s3);
    lemma_concat_associative(hs, s1 + s2 + s3, s4);
    lemma_concat_associative(hs, s1 + s2 + s3 + s4, s5);
    lemma_concat_associative(hs, s1 + s2 + s3 + s4 + s5, s6);
    lemma_concat_associative(hs, s1 + s2 + s3 + s4 + s5 + s6, s7);
    lemma_concat_associative(hs, s1 + s2 + s3 + s4 + s5 + s6 + s7, s8);
    lemma_concat_associative(hs, s1 + s2 + s3 + s4 + s5 + s6 + s7 + s8, s9);
    lemma_concat_associative(hs, s1 + s2 + s3 + s4 + s5 + s6 + s7 + s8 + s9, s10);
    let rest = s1 + s2 + s3 + s4 + s5 + s6 + s7 + s8 + s9 + s10;
    assert(text == hs + rest);
    assert(rest == config_rest(rpc_ip, rpc_port, cookie_path, tweaks_only, storage));
    assert((h + rest).subrange(0, h.len() as int) =~= h);
    assert((h + rest).subrange(h.len() as int, (h + rest).len() as int) =~= rest);
}

/// The second and third lines name the regtest chain and bitcoind's RPC endpoint:
/// `http://` followed by the RPC target's dotted-quad address, a colon and its port.
pub proof fn lemma_config_names_rpc_endpoint(
    ip: Seq<char>,
    port: u16,
    rpc_ip: [u8; 4],
    rpc_port: u16,
    cookie_path: Seq<char>,
    tweaks_only: bool,
    storage: Storage,
)
    ensures
        ({
            let text = config_text(ip, port, rpc_ip, rpc_port, cookie_path, tweaks_only, storage);
            let host = "host"@ + " = "@ + "\""@ + ip + ":"@ + decimal(port as nat) + "\""@ + "\n"@;
            let chain = "chain"@ + " = "@ + "\""@ + CHAIN@ + "\""@ + "\n"@;
            let endpoint = "rpc_endpoint"@ + " = "@ + "\""@ + "http://"@ + decimal(rpc_ip@[0] as nat)
                + "."@ + decimal(rpc_ip@[1] as nat) + "."@ + decimal(rpc_ip@[2] as nat) + "."@
                + decimal(rpc_ip@[3] as nat) + ":"@ + decimal(rpc_port as nat) + "\""@ + "\n"@;
            let lead = host + chain + endpoint;
            &&& text.len() >= lead.len()
            &&& text.subrange(0, lead.len() as int) == lead
        }),
{
    let text = config_text(ip, port, rpc_ip, rpc_port, cookie_path, tweaks_only, storage);
    let host = "host"@ + " = "@ + "\""@ + ip + ":"@ + decimal(port as nat) + "\""@ + "\n"@;
    let chain = "chain"@ + " = "@ + "\""@ + CHAIN@ + "\""@ + "\n"@;
    let endpoint = "rpc_endpoint"@ + " = "@ + "\""@ + "http://"@ + decimal(rpc_ip@[0] as nat) + "."@
        + decimal(rpc_ip@[1] as nat) + "."@ + decimal(rpc_ip@[2] as nat) + "."@ + decimal(
        rpc_ip@[3] as nat,
    ) + ":"@ + decimal(rpc_port as nat) + "\""@ + "\n"@;
    lemma_config_splits_after_host(ip, port, rpc_ip, rpc_port, cookie_path, tweaks_only, storage);
    lemma_rest_starts_with_chain_and_endpoint(rpc_ip, rpc_port, cookie_path, tweaks_only, storage);
    let rest = config_rest(rpc_ip, rpc_port, cookie_path, tweaks_only, storage);
    lemma_glue_prefixes(text, host, rest, chain + endpoint);
    lemma_concat_associative(host, chain, endpoint);
}

proof fn lemma_glue_prefixes(text: Seq<char>, first: Seq<char>, rest: Seq<char>, next: Seq<char>)
    requires
        text.len() >= first.len(),
        text.subrange(0, first.len() as int) == first,
        text.subrange(first.len() as int, text.len() as int) == rest,
        rest.len() >= next.len(),
        rest.subrange(0, next.len() as int) == next,
    ensures
        text.len() >= first.len() + next.len(),
        text.subrange(0, (first.len() + next.len()) as int) == first + next,
{
    let k = first.len() as int;
    assert forall|i: int| 0 <= i < first.len() + next.len() implies text.subrange(0, (first.len() + next.len()) as int)[i] == (first + next)[i] by {
        if i < k {
            assert(text.subrange(0, k)[i] == text[i]);
        } else {
            assert(text.subrange(k, text.len() as int)[i - k] == text[i]);
            assert(rest.subrange(0, next.len() as int)[i - k] == rest[i - k]);
        }
    }
    assert(text.subrange(0, (first.len() + next.len()) as int) =~= first + next);
}

/// The part after the `host` line begins with the chain and RPC endpoint lines.
proof fn lemma_rest_starts_with_chain_and_endpoint(
    rpc_ip: [u8; 4],
    rpc_port: u16,
    cookie_path: Seq<char>,
    tweaks_only: bool,
    storage: Storage,
)
    ensures
        ({
            let rest = config_rest(rpc_ip, rpc_port, cookie_path, tweaks_only, storage);
            let chain = "chain"@ + " = "@ + "\""@ + CHAIN@ + "\""@ + "\n"@;
            let endpoint = "rpc_endpoint"@ + " = "@ + "\""@ + "http://"@ + decimal(rpc_ip@[0] as nat)
                + "."@ + decimal(rpc_ip@[1] as nat) + "."@ + decimal(rpc_ip@[2] as nat) + "."@
                + decimal(rpc_ip@[3] as nat) + ":"@ + decimal(rpc_port as nat) + "\""@ + "\n"@;
            let two = chain + endpoint;
            &&& rest.len() >= two.len()
            &&& rest.subrange(0, two.len() as int) == two
        }),
{
    let rest = config_rest(rpc_ip, rpc_port, cookie_path, tweaks_only, storage);
    let chain = "chain"@ + " = "@ + "\""@ + CHAIN@ + "\""@ + "\n"@;
    let endpoint = "rpc_endpoint"@ + " = "@ + "\""@ + "http://"@ + decimal(rpc_ip@[0] as nat) + "."@
        + decimal(rpc_ip@[1] as nat) + "."@ + decimal(rpc_ip@[2] as nat) + "."@ + decimal(
        rpc_ip@[3] as nat,
    ) + ":"@ + decimal(rpc_port as nat) + "\""@ + "\n"@;
    let flags = flags_of(storage);
    let s1 = setting("chain"@, quoted(CHAIN@));
    let s2 = setting("rpc_endpoint"@, quoted("http://"@ + socket_text(dotted_quad(rpc_ip), rpc_port)));
    assert(s1 =~= chain);
    assert(s2 =~= endpoint);
    let s3 = setting("cookie_path"@, quoted(cookie_path));
    let s4 = setting("sync_start_height"@, decimal(SYNC_START_HEIGHT as nat));
    let s5 = setting("max_parallel_tweak_computations"@, decimal(MAX_PARALLEL_TWEAK_COMPUTATIONS as nat));
    let s6 = setting("max_parallel_requests"@, decimal(MAX_PARALLEL_REQUESTS as nat));
    let s7 = setting("tweaks_only"@, decimal(bool_flag(tweaks_only)));
    let s8 = setting("tweaks_full_basic"@, decimal(flags.0 as nat));
    let s9 = setting("tweaks_full_with_dust_filter"@, decimal(flags.1 as nat));
    let s10 = setting("tweaks_cut_through_with_dust_filter"@, decimal(flags.2 as nat));
    let two = s1 + s2;
    let after = s3 + s4 + s5 + s6 + s7 + s8 + s9 + s10;
    assert(rest.len() == two.len() + after.len());
    assert forall|i: int| 0 <= i < two.len() implies rest[i] == two[i] by {
        assert(rest == two + s3 + s4 + s5 + s6 + s7 + s8 + s9 + s10);
    }
    assert(rest.subrange(0, two.len() as int) =~= two);
}

} // verus!
