//! Backend-facing data: the connection state the rest of the firmware
//! observes, and the color parsing used on tray colors the backend
//! reports.  The HTTP polling itself is transport glue and lives outside
//! this crate; what can be judged from plain bytes lives here.

use vstd::prelude::*;
use crate::ota::{
    copy_range, extract_json_number, find_pattern, lemma_digits_value_grows, spec_digits_value,
    spec_extract_number, spec_find_from, spec_is_digit,
};

verus! {

/// Connection state towards the backend server.
#[derive(Debug, Clone, PartialEq)]
pub enum BackendState {
    /// No server known.
    Disconnected,
    /// Looking for a server.
    Discovering,
    /// Talking to the server at the given address.
    Connected {
        /// Server IPv4 address.
        ip: [u8; 4],
        /// Server TCP port.
        port: u16,
    },
    /// The last exchange failed.
    Error(String),
}

/// An ASCII hex digit's value, or 16 for a byte that is none.
pub open spec fn spec_hex_digit(b: u8) -> int {
    if 48 <= b <= 57 {
        b - 48
    } else if 65 <= b <= 70 {
        b - 55
    } else if 97 <= b <= 102 {
        b - 87
    } else {
        16
    }
}

/// The value of a run of hex digits.
pub open spec fn spec_hex_value(s: Seq<u8>) -> int
    decreases s.len(),
{
    if s.len() == 0 {
        0
    } else {
        spec_hex_value(s.drop_last()) * 16 + spec_hex_digit(s.last())
    }
}

/// Whether every byte of `s` is an ASCII hex digit and there is at least
/// one.
pub open spec fn spec_all_hex(s: Seq<u8>) -> bool {
    s.len() > 0 && forall|i: int| 0 <= i < s.len() ==> spec_hex_digit(#[trigger] s[i]) != 16
}

/// The packed color value that `parse_rgba_color` reads: the hex value of
/// the text when it is a pure hex-digit run that fits 32 bits, and zero —
/// the "no color" fallback — for anything else.
pub open spec fn spec_parse_rgba(s: Seq<u8>) -> u32 {
    if spec_all_hex(s) && spec_hex_value(s) <= u32::MAX {
        spec_hex_value(s) as u32
    } else {
        0u32
    }
}

/// Parse an RGBA hex color string, for example `FF0000FF`, into its packed
/// 32-bit value.  Anything that is not a pure run of hex digits fitting 32
/// bits — empty, signed, prefixed, or overlong — yields zero, the "no
/// color" fallback.
pub fn parse_rgba_color(color: &Vec<u8>) -> (c: u32)
    ensures
        c == spec_parse_rgba(color@),
{
    if color.len() == 0 {
        return 0;
    }
    let mut acc: u64 = 0;
    let mut i: usize = 0;
    while i < color.len()
        invariant
            i <= color@.len(),
            color@.len() > 0,
            acc == spec_hex_value(color@.take(i as int)),
            acc <= u32::MAX,
            forall|t: int| 0 <= t < i ==> spec_hex_digit(#[trigger] color@[t]) != 16,
        decreases color.len() - i,
    {
        proof {
            assert(color@.take(i + 1).drop_last() =~= color@.take(i as int));
            assert(color@.take(i + 1).last() == color@[i as int]);
        }
        let b = color[i];
        let d: u64 = if 48 <= b && b <= 57 {
            (b - 48) as u64
        } else if 65 <= b && b <= 70 {
            (b - 55) as u64
        } else if 97 <= b && b <= 102 {
            (b - 87) as u64
        } else {
            return 0;
        };
        let next: u64 = acc * 16 + d;
        if next > 0xFFFF_FFFF {
            proof {
                if spec_all_hex(color@) {
                    lemma_hex_value_grows(color@, i + 1);
                }
            }
            return 0;
        }
        acc = next;
        i = i + 1;
    }
    proof {
        assert(color@.take(color@.len() as int) =~= color@);
    }
    acc as u32
}

/// Hex values never shrink when more digits are appended.
proof fn lemma_hex_value_grows(s: Seq<u8>, i: int)
    requires
        0 <= i <= s.len(),
        forall|t: int| 0 <= t < s.len() ==> spec_hex_digit(#[trigger] s[t]) != 16,
    ensures
        spec_hex_value(s) >= spec_hex_value(s.take(i)),
        spec_hex_value(s) >= 0,
    decreases s.len(),
{
    if s.len() == 0 {
        assert(s.take(i) =~= s);
    } else {
        assert forall|t: int| 0 <= t < s.len() - 1 implies spec_hex_digit(
            #[trigger] s.drop_last()[t],
        ) != 16 by {
            assert(s.drop_last()[t] == s[t]);
        }
        if i == s.len() {
            assert(s.take(i) =~= s);
            lemma_hex_value_grows(s.drop_last(), s.len() - 1);
        } else {
            lemma_hex_value_grows(s.drop_last(), i);
            assert(s.take(i) =~= s.drop_last().take(i));
            assert(spec_hex_digit(s.last()) >= 0);
            assert(spec_hex_value(s.drop_last()) * 16 >= spec_hex_value(s.drop_last()))
                by (nonlinear_arith)
                requires
                    spec_hex_value(s.drop_last()) >= 0,
            ;
        }
    }
}

/// The color `lighten_color` produces: each 8-bit channel saturates at
/// 255 after the amount is added; the top byte is cleared.
pub open spec fn spec_lighten_channel(ch: u32, amount: u8) -> u32 {
    if ch + amount > 255 {
        255u32
    } else {
        (ch + amount) as u32
    }
}

/// Lighten a packed `0xRRGGBB` color by adding `amount` to each channel,
/// saturating at full brightness.
pub fn lighten_color(color: u32, amount: u8) -> (c: u32)
    ensures
        c == (spec_lighten_channel((color >> 16) & 0xFF, amount) << 16) | (spec_lighten_channel(
            (color >> 8) & 0xFF,
            amount,
        ) << 8) | spec_lighten_channel(color & 0xFF, amount),
{
    let r: u32 = (color >> 16) & 0xFF;
    let g: u32 = (color >> 8) & 0xFF;
    let b: u32 = color & 0xFF;
    proof {
        assert(r <= 0xFF) by (bit_vector)
            requires
                r == (color >> 16) & 0xFF,
        ;
        assert(g <= 0xFF) by (bit_vector)
            requires
                g == (color >> 8) & 0xFF,
        ;
        assert(b <= 0xFF) by (bit_vector)
            requires
                b == color & 0xFF,
        ;
    }
    let r2: u32 = if r + (amount as u32) > 255 {
        255
    } else {
        r + (amount as u32)
    };
    let g2: u32 = if g + (amount as u32) > 255 {
        255
    } else {
        g + (amount as u32)
    };
    let b2: u32 = if b + (amount as u32) > 255 {
        255
    } else {
        b + (amount as u32)
    };
    (r2 << 16) | (g2 << 8) | b2
}

/// What a heartbeat response tells the appliance to do.
#[derive(Debug, Clone, Copy, PartialEq, Eq, Structural)]
pub enum HeartbeatCommand {
    /// Start a firmware update.
    Update,
    /// Restart the appliance.
    Reboot,
    /// Nothing asked.
    NoCommand,
}

/// The bytes of `"command":"update"`.
pub open spec fn spec_cmd_update_pattern() -> Seq<u8> {
    seq![34u8, 99u8, 111u8, 109u8, 109u8, 97u8, 110u8, 100u8, 34u8, 58u8, 34u8, 117u8, 112u8, 100u8, 97u8, 116u8, 101u8, 34u8]
}

/// The bytes of `"command": "update"`.
pub open spec fn spec_cmd_update_pattern_spaced() -> Seq<u8> {
    seq![34u8, 99u8, 111u8, 109u8, 109u8, 97u8, 110u8, 100u8, 34u8, 58u8, 32u8, 34u8, 117u8, 112u8, 100u8, 97u8, 116u8, 101u8, 34u8]
}

/// The bytes of `"command":"reboot"`.
pub open spec fn spec_cmd_reboot_pattern() -> Seq<u8> {
    seq![34u8, 99u8, 111u8, 109u8, 109u8, 97u8, 110u8, 100u8, 34u8, 58u8, 34u8, 114u8, 101u8, 98u8, 111u8, 111u8, 116u8, 34u8]
}

/// The bytes of `"command": "reboot"`.
pub open spec fn spec_cmd_reboot_pattern_spaced() -> Seq<u8> {
    seq![34u8, 99u8, 111u8, 109u8, 109u8, 97u8, 110u8, 100u8, 34u8, 58u8, 32u8, 34u8, 114u8, 101u8, 98u8, 111u8, 111u8, 116u8, 34u8]
}

/// The command a heartbeat body carries: an update request wins over a
/// reboot request, and anything else asks for nothing.
pub open spec fn spec_heartbeat_command(body: Seq<u8>) -> HeartbeatCommand {
    if spec_find_from(body, spec_cmd_update_pattern(), 0) is Some || spec_find_from(
        body,
        spec_cmd_update_pattern_spaced(),
        0,
    ) is Some {
        HeartbeatCommand::Update
    } else if spec_find_from(body, spec_cmd_reboot_pattern(), 0) is Some || spec_find_from(
        body,
        spec_cmd_reboot_pattern_spaced(),
        0,
    ) is Some {
        HeartbeatCommand::Reboot
    } else {
        HeartbeatCommand::NoCommand
    }
}

/// Build one of the four heartbeat command patterns.
fn heartbeat_pattern(update: bool, spaced: bool) -> (v: Vec<u8>)
    ensures
        update && !spaced ==> v@ == spec_cmd_update_pattern(),
        update && spaced ==> v@ == spec_cmd_update_pattern_spaced(),
        !update && !spaced ==> v@ == spec_cmd_reboot_pattern(),
        !update && spaced ==> v@ == spec_cmd_reboot_pattern_spaced(),
{
    let mut v: Vec<u8> = Vec::new();
    v.push(34);  // `"`
    v.push(99);  // `c`
    v.push(111);  // `o`
    v.push(109);  // `m`
    v.push(109);  // `m`
    v.push(97);  // `a`
    v.push(110);  // `n`
    v.push(100);  // `d`
    v.push(34);  // `"`
    v.push(58);  // `:`
    if spaced {
        v.push(32);  // ` `
    }
    if update {
        v.push(34);  // `"`
        v.push(117);  // `u`
        v.push(112);  // `p`
        v.push(100);  // `d`
        v.push(97);  // `a`
        v.push(116);  // `t`
        v.push(101);  // `e`
        v.push(34);  // `"`
    } else {
        v.push(34);  // `"`
        v.push(114);  // `r`
        v.push(101);  // `e`
        v.push(98);  // `b`
        v.push(111);  // `o`
        v.push(111);  // `o`
        v.push(116);  // `t`
        v.push(34);  // `"`
    }
    proof {
        if update && !spaced {
            assert(v@ =~= spec_cmd_update_pattern());
        }
        if update && spaced {
            assert(v@ =~= spec_cmd_update_pattern_spaced());
        }
        if !update && !spaced {
            assert(v@ =~= spec_cmd_reboot_pattern());
        }
        if !update && spaced {
            assert(v@ =~= spec_cmd_reboot_pattern_spaced());
        }
    }
    v
}

/// Decide what a heartbeat response asks the appliance to do.  The caller
/// performs the exchange and the action; this is the whole decision.
pub fn heartbeat_command(body: &Vec<u8>) -> (c: HeartbeatCommand)
    ensures
        c == spec_heartbeat_command(body@),
{
    let up = heartbeat_pattern(true, false);
    let up_sp = heartbeat_pattern(true, true);
    let rb = heartbeat_pattern(false, false);
    let rb_sp = heartbeat_pattern(false, true);
    if find_pattern(body, &up, 0).is_some() || find_pattern(body, &up_sp, 0).is_some() {
        HeartbeatCommand::Update
    } else if find_pattern(body, &rb, 0).is_some() || find_pattern(body, &rb_sp, 0).is_some() {
        HeartbeatCommand::Reboot
    } else {
        HeartbeatCommand::NoCommand
    }
}

/// The time a backend time response carries: the `hour` and `minute`
/// fields, when both are present and fit one byte.
pub open spec fn spec_backend_time(body: Seq<u8>) -> Option<(u8, u8)> {
    match spec_extract_number(body, seq![104u8, 111u8, 117u8, 114u8]) {
        None => None,
        Some(h) => match spec_extract_number(body, seq![109u8, 105u8, 110u8, 117u8, 116u8, 101u8]) {
            None => None,
            Some(m) => if h <= 255 && m <= 255 {
                Some((h as u8, m as u8))
            } else {
                None
            },
        },
    }
}

/// Read the hour and minute out of a backend time response.  The HTTP
/// exchange happens at the platform edge; this is the whole decoding.
pub fn parse_backend_time(body: &Vec<u8>) -> (t: Option<(u8, u8)>)
    ensures
        t == spec_backend_time(body@),
{
    let mut key_hour: Vec<u8> = Vec::new();
    key_hour.push(104);  // `h`
    key_hour.push(111);  // `o`
    key_hour.push(117);  // `u`
    key_hour.push(114);  // `r`
    let mut key_minute: Vec<u8> = Vec::new();
    key_minute.push(109);  // `m`
    key_minute.push(105);  // `i`
    key_minute.push(110);  // `n`
    key_minute.push(117);  // `u`
    key_minute.push(116);  // `t`
    key_minute.push(101);  // `e`
    proof {
        assert(key_hour@ =~= seq![104u8, 111u8, 117u8, 114u8]);
        assert(key_minute@ =~= seq![109u8, 105u8, 110u8, 117u8, 116u8, 101u8]);
    }
    let h = match extract_json_number(body, &key_hour) {
        None => {
            return None;
        },
        Some(h) => h,
    };
    let m = match extract_json_number(body, &key_minute) {
        None => {
            return None;
        },
        Some(m) => m,
    };
    if h <= 255 && m <= 255 {
        Some((h as u8, m as u8))
    } else {
        None
    }
}

/// A backend server address: four IPv4 octets and a TCP port.
#[derive(Debug, Clone, Copy, PartialEq, Eq, Structural)]
pub struct ServerAddr {
    /// First octet.
    pub ip0: u8,
    /// Second octet.
    pub ip1: u8,
    /// Third octet.
    pub ip2: u8,
    /// Fourth octet.
    pub ip3: u8,
    /// TCP port; 3000 when the URL names none.
    pub port: u16,
}

/// An IPv4 octet's value: one to three digits, no leading zero, at most
/// 255.
pub open spec fn spec_parse_octet(s: Seq<u8>) -> Option<u8> {
    if 1 <= s.len() <= 3 && (forall|i: int| 0 <= i < s.len() ==> spec_is_digit(#[trigger] s[i]))
        && !(s.len() > 1 && s[0] == 48) {
        if spec_digits_value(s) <= 255 {
            Some(spec_digits_value(s) as u8)
        } else {
            None
        }
    } else {
        None
    }
}

/// A port's value: a non-empty run of digits whose value fits 16 bits.
pub open spec fn spec_parse_port(s: Seq<u8>) -> Option<u16> {
    if s.len() >= 1 && (forall|i: int| 0 <= i < s.len() ==> spec_is_digit(#[trigger] s[i])) {
        if spec_digits_value(s) <= u16::MAX {
            Some(spec_digits_value(s) as u16)
        } else {
            None
        }
    } else {
        None
    }
}

/// Four dot-separated octets, nothing more.
pub open spec fn spec_parse_ipv4(s: Seq<u8>) -> Option<(u8, u8, u8, u8)> {
    match spec_find_from(s, seq![46u8], 0) {
        None => None,
        Some(d1) => match spec_find_from(s, seq![46u8], d1 + 1) {
            None => None,
            Some(d2) => match spec_find_from(s, seq![46u8], d2 + 1) {
                None => None,
                Some(d3) => if spec_find_from(s, seq![46u8], d3 + 1) is Some {
                    None
                } else {
                    match (
                        spec_parse_octet(s.subrange(0, d1)),
                        spec_parse_octet(s.subrange(d1 + 1, d2)),
                        spec_parse_octet(s.subrange(d2 + 1, d3)),
                        spec_parse_octet(s.subrange(d3 + 1, s.len() as int)),
                    ) {
                        (Some(a), Some(b), Some(c), Some(d)) => Some((a, b, c, d)),
                        _ => None,
                    }
                },
            },
        },
    }
}

/// The server address a URL of the form `http://ip[:port][/...]` names:
/// the host up to the first slash, the IPv4 octets before the first colon,
/// and the digits between the first and second colon as the port, with
/// 3000 standing in when no usable port is given.  Anything else — another
/// scheme, a host name, a malformed address — is `None`.
pub open spec fn spec_parse_server_url(url: Seq<u8>) -> Option<ServerAddr> {
    if url.len() < 7 || url.subrange(0, 7) != seq![104u8, 116u8, 116u8, 112u8, 58u8, 47u8, 47u8] {
        None
    } else {
        let rest = url.subrange(7, url.len() as int);
        let host_end = match spec_find_from(rest, seq![47u8], 0) {
            Some(i) => i,
            None => rest.len() as int,
        };
        let ip_port = rest.subrange(0, host_end);
        let colon = spec_find_from(ip_port, seq![58u8], 0);
        let ip_only = match colon {
            Some(c) => ip_port.subrange(0, c),
            None => ip_port,
        };
        match spec_parse_ipv4(ip_only) {
            None => None,
            Some((a, b, c, d)) => {
                let port = match colon {
                    None => 3000u16,
                    Some(cp) => {
                        let port_end = match spec_find_from(ip_port, seq![58u8], cp + 1) {
                            Some(j) => j,
                            None => ip_port.len() as int,
                        };
                        match spec_parse_port(ip_port.subrange(cp + 1, port_end)) {
                            Some(p) => p,
                            None => 3000u16,
                        }
                    },
                };
                Some(ServerAddr { ip0: a, ip1: b, ip2: c, ip3: d, port })
            },
        }
    }
}

/// Parse a digit run whose value must fit 16 bits.
fn parse_port_digits(s: &Vec<u8>) -> (r: Option<u16>)
    ensures
        r == spec_parse_port(s@),
{
    if s.len() == 0 {
        return None;
    }
    let mut acc: u32 = 0;
    let mut i: usize = 0;
    while i < s.len()
        invariant
            i <= s@.len(),
            s@.len() >= 1,
            acc == spec_digits_value(s@.take(i as int)),
            acc <= u16::MAX,
            forall|t: int| 0 <= t < i ==> spec_is_digit(#[trigger] s@[t]),
        decreases s.len() - i,
    {
        proof {
            assert(s@.take(i + 1).drop_last() =~= s@.take(i as int));
            assert(s@.take(i + 1).last() == s@[i as int]);
        }
        let b = s[i];
        if !(48 <= b && b <= 57) {
            return None;
        }
        let next: u32 = acc * 10 + ((b - 48) as u32);
        if next > 65535 {
            proof {
                if forall|t: int| 0 <= t < s@.len() ==> spec_is_digit(#[trigger] s@[t]) {
                    lemma_digits_value_grows(s@, i + 1);
                }
            }
            return None;
        }
        acc = next;
        i = i + 1;
    }
    proof {
        assert(s@.take(s@.len() as int) =~= s@);
    }
    Some(acc as u16)
}

/// Parse an IPv4 octet: one to three digits, no leading zero.
fn parse_octet_digits(s: &Vec<u8>) -> (r: Option<u8>)
    ensures
        r == spec_parse_octet(s@),
{
    if s.len() < 1 || s.len() > 3 {
        return None;
    }
    if s.len() > 1 && s[0] == 48 {
        return None;
    }
    let mut acc: u32 = 0;
    let mut i: usize = 0;
    while i < s.len()
        invariant
            i <= s@.len(),
            1 <= s@.len() <= 3,
            acc == spec_digits_value(s@.take(i as int)),
            i == 0 ==> acc == 0,
            i == 1 ==> acc <= 9,
            i == 2 ==> acc <= 99,
            i == 3 ==> acc <= 999,
            forall|t: int| 0 <= t < i ==> spec_is_digit(#[trigger] s@[t]),
        decreases s.len() - i,
    {
        proof {
            assert(s@.take(i + 1).drop_last() =~= s@.take(i as int));
            assert(s@.take(i + 1).last() == s@[i as int]);
        }
        let b = s[i];
        if !(48 <= b && b <= 57) {
            return None;
        }
        acc = acc * 10 + ((b - 48) as u32);
        i = i + 1;
    }
    proof {
        assert(s@.take(s@.len() as int) =~= s@);
    }
    if acc <= 255 {
        Some(acc as u8)
    } else {
        None
    }
}

/// Parse dotted-quad IPv4 text.
fn parse_ipv4(s: &Vec<u8>) -> (r: Option<(u8, u8, u8, u8)>)
    ensures
        r == spec_parse_ipv4(s@),
{
    let s_len: usize = s.len();
    let mut dot: Vec<u8> = Vec::new();
    dot.push(46);
    proof {
        assert(dot@ =~= seq![46u8]);
        assert(s@.len() == s_len);
    }
    let d1 = match find_pattern(s, &dot, 0) {
        None => {
            return None;
        },
        Some(i) => i,
    };
    proof {
        lemma_find_some_single(s@, 46u8, 0, d1 as int);
    }
    let d2 = match find_pattern(s, &dot, d1 + 1) {
        None => {
            return None;
        },
        Some(i) => i,
    };
    proof {
        lemma_find_some_single(s@, 46u8, d1 + 1, d2 as int);
    }
    let d3 = match find_pattern(s, &dot, d2 + 1) {
        None => {
            return None;
        },
        Some(i) => i,
    };
    proof {
        lemma_find_some_single(s@, 46u8, d2 + 1, d3 as int);
    }
    if find_pattern(s, &dot, d3 + 1).is_some() {
        return None;
    }
    let o1 = parse_octet_digits(&copy_range(s, 0, d1));
    let o2 = parse_octet_digits(&copy_range(s, d1 + 1, d2));
    let o3 = parse_octet_digits(&copy_range(s, d2 + 1, d3));
    let o4 = parse_octet_digits(&copy_range(s, d3 + 1, s.len()));
    match (o1, o2, o3, o4) {
        (Some(a), Some(b), Some(c), Some(d)) => Some((a, b, c, d)),
        _ => None,
    }
}

/// Read the server address out of a `http://ip[:port][/...]` URL, the
/// form the appliance is pointed at.  `None` is the "stay disconnected"
/// answer for anything else.
pub fn parse_server_url(url: &Vec<u8>) -> (r: Option<ServerAddr>)
    ensures
        r == spec_parse_server_url(url@),
{
    if url.len() < 7 {
        return None;
    }
    if !(url[0] == 104 && url[1] == 116 && url[2] == 116 && url[3] == 112 && url[4] == 58
        && url[5] == 47 && url[6] == 47) {
        proof {
            assert(url@.subrange(0, 7) != seq![
                104u8,
                116u8,
                116u8,
                112u8,
                58u8,
                47u8,
                47u8,
            ]) by {
                let p = seq![104u8, 116u8, 116u8, 112u8, 58u8, 47u8, 47u8];
                if url@.subrange(0, 7) == p {
                    assert(url@.subrange(0, 7)[0] == url@[0]);
                    assert(url@.subrange(0, 7)[1] == url@[1]);
                    assert(url@.subrange(0, 7)[2] == url@[2]);
                    assert(url@.subrange(0, 7)[3] == url@[3]);
                    assert(url@.subrange(0, 7)[4] == url@[4]);
                    assert(url@.subrange(0, 7)[5] == url@[5]);
                    assert(url@.subrange(0, 7)[6] == url@[6]);
                }
            }
        }
        return None;
    }
    proof {
        assert(url@.subrange(0, 7) =~= seq![104u8, 116u8, 116u8, 112u8, 58u8, 47u8, 47u8]);
    }
    let rest = copy_range(url, 7, url.len());
    let mut slash: Vec<u8> = Vec::new();
    slash.push(47);
    let mut colon_b: Vec<u8> = Vec::new();
    colon_b.push(58);
    proof {
        assert(slash@ =~= seq![47u8]);
        assert(colon_b@ =~= seq![58u8]);
    }
    let host_end: usize = match find_pattern(&rest, &slash, 0) {
        Some(i) => {
            proof {
                lemma_find_some_single(rest@, 47u8, 0, i as int);
            }
            i
        },
        None => rest.len(),
    };
    let ip_port = copy_range(&rest, 0, host_end);
    let colon = find_pattern(&ip_port, &colon_b, 0);
    let ip_only = match colon {
        Some(c) => {
            proof {
                lemma_find_some_single(ip_port@, 58u8, 0, c as int);
            }
            copy_range(&ip_port, 0, c)
        },
        None => copy_range(&ip_port, 0, ip_port.len()),
    };
    proof {
        if colon is None {
            assert(ip_only@ =~= ip_port@);
        }
    }
    let quad = match parse_ipv4(&ip_only) {
        None => {
            return None;
        },
        Some(q) => q,
    };
    let port: u16 = match colon {
        None => 3000,
        Some(cp) => {
            let port_end: usize = match find_pattern(&ip_port, &colon_b, cp + 1) {
                Some(j) => {
                    proof {
                        lemma_find_some_single(ip_port@, 58u8, cp + 1, j as int);
                    }
                    j
                },
                None => ip_port.len(),
            };
            match parse_port_digits(&copy_range(&ip_port, cp + 1, port_end)) {
                Some(p) => p,
                None => 3000,
            }
        },
    };
    let (a, b, c, d) = quad;
    Some(ServerAddr { ip0: a, ip1: b, ip2: c, ip3: d, port })
}

/// A found single-byte position lies within the text.
proof fn lemma_find_some_single(s: Seq<u8>, b: u8, i0: int, i: int)
    requires
        spec_find_from(s, seq![b], i0) == Some(i),
    ensures
        i0 <= i,
        0 <= i < s.len(),
    decreases s.len() - i0 + 1,
{
    if !(i0 < 0 || i0 + 1 > s.len()) && s.subrange(i0, i0 + 1) != seq![b] {
        lemma_find_some_single(s, b, i0 + 1, i);
    }
}

/// The 16-bit RGB565 encoding of a packed `0xRRGGBB` color: five bits of
/// red, six of green, five of blue.
pub open spec fn spec_rgb565(hex: u32) -> u16 {
    let r5 = (((hex >> 16) & 0xFF) >> 3) as u16;
    let g6 = (((hex >> 8) & 0xFF) >> 2) as u16;
    let b5 = ((hex & 0xFF) >> 3) as u16;
    (r5 << 11) | (g6 << 5) | b5
}

/// Pack a `0xRRGGBB` color into the display's native RGB565 form.
pub fn rgb565_of(hex: u32) -> (c: u16)
    ensures
        c == spec_rgb565(hex),
{
    let r: u32 = (hex >> 16) & 0xFF;
    let g: u32 = (hex >> 8) & 0xFF;
    let b: u32 = hex & 0xFF;
    let r5: u16 = (r >> 3) as u16;
    let g6: u16 = (g >> 2) as u16;
    let b5: u16 = (b >> 3) as u16;
    proof {
        assert(r5 < 32 && g6 < 64 && b5 < 32) by (bit_vector)
            requires
                r5 == (((hex >> 16) & 0xFF) >> 3) as u16,
                g6 == (((hex >> 8) & 0xFF) >> 2) as u16,
                b5 == ((hex & 0xFF) >> 3) as u16,
        ;
    }
    (r5 << 11) | (g6 << 5) | b5
}

} // verus!