//! SSRF protection for client-supplied origin URLs.
//!
//! URL splitting is delegated to the url crate; every address check is
//! verified arithmetic over the host value it returns.

use vstd::prelude::*;
use crate::errors::RitcherError;
use crate::text::str_eq;
use vstd::arithmetic::div_mod::lemma_fundamental_div_mod_converse;

verus! {

/// The host part of a parsed URL, as plain values.
pub enum HostRepr {
    /// An IPv4 literal, as a big-endian 32-bit value.
    V4(u32),
    /// An IPv6 literal, as a big-endian 128-bit value.
    V6(u128),
    /// A registered name, accepted without resolution.
    Domain(String),
    /// The URL has no host.
    NoHost,
}

/// Mathematical view of a `HostRepr`.
pub ghost enum HostReprV {
    V4(u32),
    V6(u128),
    Domain(Seq<char>),
    NoHost,
}

impl View for HostRepr {
    type V = HostReprV;

    open spec fn view(&self) -> HostReprV {
        match self {
            HostRepr::V4(ip) => HostReprV::V4(*ip),
            HostRepr::V6(ip) => HostReprV::V6(*ip),
            HostRepr::Domain(d) => HostReprV::Domain(d@),
            HostRepr::NoHost => HostReprV::NoHost,
        }
    }
}

/// Scheme and host of a parsed URL.
pub struct UrlParts {
    pub scheme: String,
    pub host: HostRepr,
}

/// Mathematical view of `UrlParts`.
pub ghost struct UrlPartsV {
    pub scheme: Seq<char>,
    pub host: HostReprV,
}

impl View for UrlParts {
    type V = UrlPartsV;

    open spec fn view(&self) -> UrlPartsV {
        UrlPartsV { scheme: self.scheme@, host: self.host@ }
    }
}

/// What the url crate's parser extracts from a URL string: the scheme
/// and host when it parses, `None` when it does not.
pub uninterp spec fn url_parts_of(s: Seq<char>) -> Option<UrlPartsV>;

/// Relies on `url::Url::parse`, `Url::scheme` and `Url::host`: the
/// outcome depends on the URL string alone.  IP hosts are converted to
/// their big-endian integer values.
#[verifier::external_body]
fn parse_url_parts(url: &str) -> (r: Option<UrlParts>)
    ensures
        match r {
            Some(p) => url_parts_of(url@) == Some(p@),
            None => url_parts_of(url@) is None,
        },
{
    match url::Url::parse(url) {
        Ok(u) => {
            let scheme = u.scheme().to_string();
            let host = match u.host() {
                None => HostRepr::NoHost,
                Some(url::Host::Domain(d)) => HostRepr::Domain(d.to_string()),
                Some(url::Host::Ipv4(ip)) => HostRepr::V4(u32::from_be_bytes(ip.octets())),
                Some(url::Host::Ipv6(ip)) => HostRepr::V6(u128::from_be_bytes(ip.octets())),
            };
            Some(UrlParts { scheme, host })
        },
        Err(_) => None,
    }
}

/// First (most significant) octet of an IPv4 value.
pub open spec fn oct_a(ip: u32) -> u32 {
    ip / 0x1000000
}

/// Second octet.
pub open spec fn oct_b(ip: u32) -> u32 {
    (ip / 0x10000) % 0x100
}

/// Third octet.
pub open spec fn oct_c(ip: u32) -> u32 {
    (ip / 0x100) % 0x100
}

/// IPv4 addresses in private or reserved ranges: this network,
/// RFC 1918, CGNAT, loopback, link-local, IETF assignments, the three
/// TEST-NETs, benchmarking, and class E with broadcast.
pub open spec fn blocked_v4(ip: u32) -> bool {
    let a = oct_a(ip);
    let b = oct_b(ip);
    let c = oct_c(ip);
    ||| a == 0
    ||| a == 10
    ||| (a == 100 && 64 <= b <= 127)
    ||| a == 127
    ||| (a == 169 && b == 254)
    ||| (a == 172 && 16 <= b <= 31)
    ||| (a == 192 && b == 0 && c == 0)
    ||| (a == 192 && b == 0 && c == 2)
    ||| (a == 192 && b == 168)
    ||| (a == 198 && (b == 18 || b == 19))
    ||| (a == 198 && b == 51 && c == 100)
    ||| (a == 203 && b == 0 && c == 113)
    ||| a >= 240
}

/// First 16-bit segment of an IPv6 value.
pub open spec fn seg0(ip: u128) -> u128 {
    ip / 0x10000000000000000000000000000
}

/// Second 16-bit segment.
pub open spec fn seg1(ip: u128) -> u128 {
    (ip / 0x1000000000000000000000000) % 0x10000
}

/// Native IPv6 addresses in private or reserved ranges: unspecified,
/// loopback, link-local, unique-local, and documentation.
pub open spec fn blocked_v6(ip: u128) -> bool {
    ||| ip == 0
    ||| ip == 1
    ||| (0xfe80 <= seg0(ip) < 0xfec0)
    ||| (0xfc00 <= seg0(ip) < 0xfe00)
    ||| (seg0(ip) == 0x2001 && seg1(ip) == 0x0db8)
}

/// The IPv4 address embedded in an IPv6 transitional form, if any:
/// IPv4-mapped (`::ffff:V4`), IPv4-compatible (`::V4`, excluding `::`
/// and `::1`), and the NAT64 prefixes (`64:ff9b::/32` with any interior
/// bits).
pub open spec fn embedded_v4(ip: u128) -> Option<u32> {
    if ip / 0x100000000 == 0xffff {
        Some((ip % 0x100000000) as u32)
    } else if ip < 0x100000000 && ip > 1 {
        Some(ip as u32)
    } else if seg0(ip) == 0x0064 && seg1(ip) == 0xff9b {
        Some((ip % 0x100000000) as u32)
    } else {
        None
    }
}

/// Whether a parsed host may be fetched from.
pub open spec fn host_allowed(h: HostReprV) -> bool {
    match h {
        HostReprV::NoHost => false,
        HostReprV::Domain(_) => true,
        HostReprV::V4(ip) => !blocked_v4(ip),
        HostReprV::V6(ip) => !blocked_v6(ip) && match embedded_v4(ip) {
            Some(v4) => !blocked_v4(v4),
            None => true,
        },
    }
}

/// The scheme is plain or secure HTTP.
pub open spec fn scheme_ok(s: Seq<char>) -> bool {
    s == "http"@ || s == "https"@
}

/// Whether an IPv4 value lies in a blocked range.
pub fn is_blocked_ipv4(ip: u32) -> (r: bool)
    ensures
        r == blocked_v4(ip),
{
    let a = ip / 0x1000000;
    let b = (ip / 0x10000) % 0x100;
    let c = (ip / 0x100) % 0x100;
    a == 0 || a == 10 || (a == 100 && 64 <= b && b <= 127) || a == 127 || (a == 169 && b == 254)
        || (a == 172 && 16 <= b && b <= 31) || (a == 192 && b == 0 && c == 0) || (a == 192 && b == 0
        && c == 2) || (a == 192 && b == 168) || (a == 198 && (b == 18 || b == 19)) || (a == 198 && b
        == 51 && c == 100) || (a == 203 && b == 0 && c == 113) || a >= 240
}

/// Whether an IPv6 value lies in a blocked native range.
pub fn is_blocked_ipv6(ip: u128) -> (r: bool)
    ensures
        r == blocked_v6(ip),
{
    let s0 = ip / 0x10000000000000000000000000000;
    let s1 = (ip / 0x1000000000000000000000000) % 0x10000;
    ip == 0 || ip == 1 || (0xfe80 <= s0 && s0 < 0xfec0) || (0xfc00 <= s0 && s0 < 0xfe00) || (s0
        == 0x2001 && s1 == 0x0db8)
}

/// Extract the IPv4 address embedded in an IPv6 transitional form.
pub fn extract_embedded_ipv4(ip: u128) -> (r: Option<u32>)
    ensures
        r == embedded_v4(ip),
{
    if ip / 0x100000000 == 0xffff {
        Some((ip % 0x100000000) as u32)
    } else if ip < 0x100000000 && ip > 1 {
        Some(ip as u32)
    } else {
        let s0 = ip / 0x10000000000000000000000000000;
        let s1 = (ip / 0x1000000000000000000000000) % 0x10000;
        if s0 == 0x0064 && s1 == 0xff9b {
            Some((ip % 0x100000000) as u32)
        } else {
            None
        }
    }
}

/// Validate that an origin URL is safe to fetch (SSRF protection).
///
/// Accepts exactly the URLs the url crate parses with an `http` or
/// `https` scheme and an allowed host: any registered name (no DNS is
/// done), or an IP literal outside the blocked ranges, including the
/// IPv4 addresses embedded in IPv6 transitional forms.  Rejections of a
/// blocked address carry a generic message that does not echo the
/// address.
pub fn validate_origin_url(url: &str) -> (r: Result<(), RitcherError>)
    ensures
        match r {
            Ok(_) => match url_parts_of(url@) {
                Some(p) => scheme_ok(p.scheme) && host_allowed(p.host),
                None => false,
            },
            Err(e) => {
                &&& e is InvalidOrigin
                &&& match url_parts_of(url@) {
                    Some(p) => !scheme_ok(p.scheme) || !host_allowed(p.host),
                    None => true,
                }
                &&& match url_parts_of(url@) {
                    Some(p) => (scheme_ok(p.scheme) && !(p.host is NoHost) && !host_allowed(
                        p.host,
                    )) ==> e.detail_view() == "Origin address is not allowed"@,
                    None => true,
                }
            },
        },
{
    let parts = match parse_url_parts(url) {
        Some(p) => p,
        None => {
            let mut msg = "Invalid URL: ".to_owned();
            msg.append(url);
            return Err(RitcherError::InvalidOrigin(msg));
        },
    };
    if !(str_eq(parts.scheme.as_str(), "http") || str_eq(parts.scheme.as_str(), "https")) {
        let mut msg = "Scheme '".to_owned();
        msg.append(parts.scheme.as_str());
        msg.append("' not allowed - only http/https permitted");
        return Err(RitcherError::InvalidOrigin(msg));
    }
    match parts.host {
        HostRepr::NoHost => {
            let mut msg = "No host in URL: ".to_owned();
            msg.append(url);
            Err(RitcherError::InvalidOrigin(msg))
        },
        HostRepr::Domain(_) => Ok(()),
        HostRepr::V4(ip) => {
            if is_blocked_ipv4(ip) {
                Err(RitcherError::InvalidOrigin("Origin address is not allowed".to_owned()))
            } else {
                Ok(())
            }
        },
        HostRepr::V6(ip) => {
            if is_blocked_ipv6(ip) {
                return Err(RitcherError::InvalidOrigin("Origin address is not allowed".to_owned()));
            }
            match extract_embedded_ipv4(ip) {
                Some(v4) => {
                    if is_blocked_ipv4(v4) {
                        return Err(
                            RitcherError::InvalidOrigin("Origin address is not allowed".to_owned()),
                        );
                    }
                },
                None => {},
            }
            Ok(())
        },
    }
}

/// The listed IPv4 block ranges, by octets.
pub open spec fn in_blocked_v4_ranges(a: u32, b: u32, c: u32, d: u32) -> bool {
    ||| a == 0
    ||| a == 10
    ||| (a == 100 && 64 <= b <= 127)
    ||| a == 127
    ||| (a == 169 && b == 254)
    ||| (a == 172 && 16 <= b <= 31)
    ||| (a == 192 && b == 0 && c == 0)
    ||| (a == 192 && b == 0 && c == 2)
    ||| (a == 192 && b == 168)
    ||| (a == 198 && (b == 18 || b == 19))
    ||| (a == 198 && b == 51 && c == 100)
    ||| (a == 203 && b == 0 && c == 113)
    ||| a >= 240
}

/// The IPv4-mapped IPv6 form of an IPv4 value.
pub open spec fn mapped_v6(ip: u32) -> u128 {
    (0xffff00000000u128 + ip) as u128
}

/// The NAT64 well-known-prefix form of an IPv4 value.
pub open spec fn nat64_v6(ip: u32) -> u128 {
    (0x0064ff9b * 0x1000000000000000000000000u128 + ip) as u128
}

/// The SSRF refusal law over the IPv4 block list: every address in the
/// listed ranges is blocked, directly and in its IPv4-mapped, deep
/// IPv4-compatible, and NAT64 IPv6 forms.
pub proof fn lemma_ssrf_blocklist(a: u32, b: u32, c: u32, d: u32)
    requires
        a < 256,
        b < 256,
        c < 256,
        d < 256,
        in_blocked_v4_ranges(a, b, c, d),
    ensures
        !host_allowed(HostReprV::V4(ip4_of(a, b, c, d))),
        !host_allowed(HostReprV::V6(mapped_v6(ip4_of(a, b, c, d)))),
        !host_allowed(HostReprV::V6(nat64_v6(ip4_of(a, b, c, d)))),
        ip4_of(a, b, c, d) > 1 ==> !host_allowed(HostReprV::V6(ip4_of(a, b, c, d) as u128)),
{
    let ip = ip4_of(a, b, c, d);
    assert(ip == a * 0x1000000 + b * 0x10000 + c * 0x100 + d);
    assert(oct_a(ip) == a && oct_b(ip) == b && oct_c(ip) == c) by (nonlinear_arith)
        requires
            a < 256,
            b < 256,
            c < 256,
            d < 256,
            ip == a * 0x1000000 + b * 0x10000 + c * 0x100 + d,
    ;
    assert(blocked_v4(ip));
    let mapped: u128 = mapped_v6(ip);
    assert(mapped == 0xffff00000000u128 + ip);
    assert(mapped / 0x100000000 == 0xffff);
    assert(mapped % 0x100000000 == ip);
    assert(embedded_v4(mapped) == Some(ip));
    let nat64: u128 = nat64_v6(ip);
    assert(nat64 == 0x64ff9b000000000000000000000000u128 + ip);
    assert(seg0(nat64) == 0x0064) by {
        lemma_fundamental_div_mod_converse(
            nat64 as int,
            0x10000000000000000000000000000,
            0x64,
            0xff9b000000000000000000000000 + ip as int,
        );
    };
    assert(seg1(nat64) == 0xff9b) by {
        lemma_fundamental_div_mod_converse(
            nat64 as int,
            0x1000000000000000000000000,
            0x64ff9b,
            ip as int,
        );
    };
    assert(nat64 / 0x100000000 == 0x64ff9b0000000000000000) by {
        lemma_fundamental_div_mod_converse(
            nat64 as int,
            0x100000000,
            0x64ff9b0000000000000000,
            ip as int,
        );
    };
    assert(!(nat64 < 0x100000000));
    assert(nat64 % 0x100000000 == ip) by {
        lemma_fundamental_div_mod_converse(
            nat64 as int,
            0x100000000,
            0x64ff9b0000000000000000,
            ip as int,
        );
    };
    assert(embedded_v4(nat64) == Some(ip));
    if ip > 1 {
        assert(embedded_v4(ip as u128) == Some(ip));
    }
}

/// The IPv4 value with the given octets.
pub open spec fn ip4_of(a: u32, b: u32, c: u32, d: u32) -> u32
    recommends
        a < 256 && b < 256 && c < 256 && d < 256,
{
    (a * 0x1000000 + b * 0x10000 + c * 0x100 + d) as u32
}

/// The blocked native IPv6 forms of the block list are refused.
pub proof fn lemma_ssrf_blocklist_v6(ip: u128)
    requires
        blocked_v6(ip),
    ensures
        !host_allowed(HostReprV::V6(ip)),
{
}

} // verus!
