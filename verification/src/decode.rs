//! Decoding of the wire encoding back into schema records.
//!
//! The spec parsers accept what a field-named encoding allows: insignificant
//! whitespace, any field order, and unknown fields (which are skipped), while
//! rejecting missing required fields, duplicate fields, and values of the
//! wrong type. Executable parsers are proved to return exactly what the spec
//! parsers say.

use vstd::prelude::*;
use vstd::string::StringExecFns;

use crate::schema::{
    DirResultItem, DomainResultItem, PortResultItem, ScanResult, SpecDirItem, SpecDomainItem,
    SpecPortItem, SpecScanResult, SpecVulnItem, VulnResultItem, opt_view,
};
use crate::text::{
    is_digit, p_skip_value, p_string, p_u16, skip_ws, sp_skip_value, sp_string, sp_u16, sp_ws,
};

verus! {

/// The four characters of `null` stand at `i`.
pub open spec fn sp_null(s: Seq<char>, i: int) -> bool {
    &&& 0 <= i
    &&& i + 4 <= s.len()
    &&& s[i] == 'n'
    &&& s[i + 1] == 'u'
    &&& s[i + 2] == 'l'
    &&& s[i + 3] == 'l'
}

/// An optional string value: `null`, or a string literal.
pub open spec fn sp_opt_string(s: Seq<char>, i: int) -> Option<(Option<Seq<char>>, int)> {
    if sp_null(s, i) {
        Some((None, i + 4))
    } else {
        match sp_string(s, i) {
            None => None,
            Some((v, j)) => Some((Some(v), j)),
        }
    }
}

/// An optional number value: `null`, or an unsigned 16-bit decimal.
pub open spec fn sp_opt_u16(s: Seq<char>, i: int) -> Option<(Option<u16>, int)> {
    if sp_null(s, i) {
        Some((None, i + 4))
    } else {
        match sp_u16(s, i) {
            None => None,
            Some((v, j)) => Some((Some(v), j)),
        }
    }
}

/// Collapse a "seen" optional field: unseen and seen-as-null both mean
/// absent.
pub open spec fn opt_flat(o: Option<Option<Seq<char>>>) -> Option<Seq<char>> {
    match o {
        None => None,
        Some(v) => v,
    }
}

pub open spec fn u16_flat(o: Option<Option<u16>>) -> Option<u16> {
    match o {
        None => None,
        Some(v) => v,
    }
}

// ---------------------------------------------------------------------------
// Port items
// ---------------------------------------------------------------------------

/// Fields of a port record seen so far while walking an object.
#[verifier::ext_equal]
pub ghost struct PortAcc {
    pub ip: Option<Seq<char>>,
    pub port: Option<u16>,
    pub protocol: Option<Seq<char>>,
    pub banner: Option<Option<Seq<char>>>,
    pub extra: Option<Option<Seq<char>>>,
}

pub open spec fn port_acc0() -> PortAcc {
    PortAcc { ip: None, port: None, protocol: None, banner: None, extra: None }
}

/// Dispatch one field of a port record by its key: known keys must not
/// repeat and take a value of their type; unknown keys are skipped.
pub open spec fn sp_port_value(s: Seq<char>, i: int, acc: PortAcc, key: Seq<char>) -> Option<
    (PortAcc, int),
> {
    if key == "ip"@ {
        if acc.ip is Some {
            None
        } else {
            match sp_string(s, i) {
                None => None,
                Some((v, j)) => Some((PortAcc { ip: Some(v), ..acc }, j)),
            }
        }
    } else if key == "port"@ {
        if acc.port is Some {
            None
        } else {
            match sp_u16(s, i) {
                None => None,
                Some((v, j)) => Some((PortAcc { port: Some(v), ..acc }, j)),
            }
        }
    } else if key == "protocol"@ {
        if acc.protocol is Some {
            None
        } else {
            match sp_string(s, i) {
                None => None,
                Some((v, j)) => Some((PortAcc { protocol: Some(v), ..acc }, j)),
            }
        }
    } else if key == "banner"@ {
        if acc.banner is Some {
            None
        } else {
            match sp_opt_string(s, i) {
                None => None,
                Some((v, j)) => Some((PortAcc { banner: Some(v), ..acc }, j)),
            }
        }
    } else if key == "extra"@ {
        if acc.extra is Some {
            None
        } else {
            match sp_opt_string(s, i) {
                None => None,
                Some((v, j)) => Some((PortAcc { extra: Some(v), ..acc }, j)),
            }
        }
    } else {
        match sp_skip_value(s, i) {
            None => None,
            Some(j) => Some((acc, j)),
        }
    }
}

/// Walk `key : value` pairs from the first key of an object to its closing
/// brace.
pub open spec fn sp_port_fields(s: Seq<char>, i: int, acc: PortAcc) -> Option<(PortAcc, int)>
    decreases s.len() - i,
{
    match sp_string(s, i) {
        None => None,
        Some((key, j1)) => {
            let j2 = sp_ws(s, j1);
            if !(j2 < s.len() && s[j2] == ':') {
                None
            } else {
                let j3 = sp_ws(s, j2 + 1);
                match sp_port_value(s, j3, acc, key) {
                    None => None,
                    Some((acc2, j4)) => {
                        let j5 = sp_ws(s, j4);
                        if j5 < s.len() && s[j5] == ',' {
                            let j6 = sp_ws(s, j5 + 1);
                            if i < j6 && j6 <= s.len() {
                                sp_port_fields(s, j6, acc2)
                            } else {
                                None
                            }
                        } else if j5 < s.len() && s[j5] == '}' {
                            Some((acc2, j5 + 1))
                        } else {
                            None
                        }
                    },
                }
            }
        },
    }
}

/// The required fields must all have been seen; optional fields default to
/// absent.
pub open spec fn port_finish(acc: PortAcc) -> Option<SpecPortItem> {
    match (acc.ip, acc.port, acc.protocol) {
        (Some(ip), Some(port), Some(protocol)) => Some(
            SpecPortItem {
                ip,
                port,
                protocol,
                banner: opt_flat(acc.banner),
                extra: opt_flat(acc.extra),
            },
        ),
        _ => None,
    }
}

/// A complete port record object.
pub open spec fn sp_port_item(s: Seq<char>, i: int) -> Option<(SpecPortItem, int)> {
    if !(0 <= i < s.len() && s[i] == '{') {
        None
    } else {
        let j = sp_ws(s, i + 1);
        if j < s.len() && s[j] == '}' {
            None
        } else {
            match sp_port_fields(s, j, port_acc0()) {
                None => None,
                Some((acc, j2)) => match port_finish(acc) {
                    None => None,
                    Some(v) => Some((v, j2)),
                },
            }
        }
    }
}

/// Further elements of an array after the first: `, item` repeated until the
/// closing bracket.
pub open spec fn sp_port_more(s: Seq<char>, i: int, acc: Seq<SpecPortItem>) -> Option<
    (Seq<SpecPortItem>, int),
>
    decreases s.len() - i,
{
    let j = sp_ws(s, i);
    if j < s.len() && s[j] == ',' {
        let j2 = sp_ws(s, j + 1);
        match sp_port_item(s, j2) {
            None => None,
            Some((v, j3)) => {
                if i < j3 && j3 <= s.len() {
                    sp_port_more(s, j3, acc.push(v))
                } else {
                    None
                }
            },
        }
    } else if j < s.len() && s[j] == ']' {
        Some((acc, j + 1))
    } else {
        None
    }
}

/// An array of port records.
pub open spec fn sp_port_list(s: Seq<char>, i: int) -> Option<(Seq<SpecPortItem>, int)> {
    if !(0 <= i < s.len() && s[i] == '[') {
        None
    } else {
        let j = sp_ws(s, i + 1);
        if j < s.len() && s[j] == ']' {
            Some((Seq::empty(), j + 1))
        } else {
            match sp_port_item(s, j) {
                None => None,
                Some((v, j2)) => sp_port_more(s, j2, seq![v]),
            }
        }
    }
}

// ---------------------------------------------------------------------------
// Executable field-value parsers
// ---------------------------------------------------------------------------

/// Model of a "seen" optional string field of an object walk.
pub open spec fn oo_view(o: Option<Option<String>>) -> Option<Option<Seq<char>>> {
    match o {
        None => None,
        Some(x) => Some(opt_view(x)),
    }
}

pub(crate) fn p_opt_string(s: &Vec<char>, i: usize) -> (r: Option<(Option<String>, usize)>)
    requires
        i <= s@.len(),
    ensures
        match r {
            Some(p) => sp_opt_string(s@, i as int) == Some((opt_view(p.0), p.1 as int)) && i < p.1
                <= s@.len(),
            None => sp_opt_string(s@, i as int) is None,
        },
{
    if s.len() - i >= 4 {
        if s[i] == 'n' && s[i + 1] == 'u' && s[i + 2] == 'l' && s[i + 3] == 'l' {
            return Some((None, i + 4));
        }
    }
    proof {
        assert(!sp_null(s@, i as int));
    }
    match p_string(s, i) {
        Some((v, j)) => Some((Some(v), j)),
        None => None,
    }
}

pub(crate) fn p_opt_u16(s: &Vec<char>, i: usize) -> (r: Option<(Option<u16>, usize)>)
    requires
        i <= s@.len(),
    ensures
        match r {
            Some(p) => sp_opt_u16(s@, i as int) == Some((p.0, p.1 as int)) && i < p.1 <= s@.len(),
            None => sp_opt_u16(s@, i as int) is None,
        },
{
    if s.len() - i >= 4 {
        if s[i] == 'n' && s[i + 1] == 'u' && s[i + 2] == 'l' && s[i + 3] == 'l' {
            return Some((None, i + 4));
        }
    }
    proof {
        assert(!sp_null(s@, i as int));
    }
    match p_u16(s, i) {
        Some((v, j)) => Some((Some(v), j)),
        None => None,
    }
}

// ---------------------------------------------------------------------------
// Executable port record parser
// ---------------------------------------------------------------------------

#[verifier::rlimit(80)]
pub(crate) fn p_port_item(s: &Vec<char>, i: usize) -> (r: Option<(PortResultItem, usize)>)
    requires
        i <= s@.len(),
    ensures
        match r {
            Some(p) => sp_port_item(s@, i as int) == Some((p.0@, p.1 as int)) && i < p.1
                <= s@.len(),
            None => sp_port_item(s@, i as int) is None,
        },
{
    if i >= s.len() || s[i] != '{' {
        return None;
    }
    let j0 = skip_ws(s, i + 1);
    if j0 < s.len() && s[j0] == '}' {
        return None;
    }
    let mut ip: Option<String> = None;
    let mut port: Option<u16> = None;
    let mut protocol: Option<String> = None;
    let mut banner: Option<Option<String>> = None;
    let mut extra: Option<Option<String>> = None;
    let mut j = j0;
    loop
        invariant
            i < s@.len(),
            s@[i as int] == '{',
            j0 as int == sp_ws(s@, i + 1 as int),
            !(j0 < s@.len() && s@[j0 as int] == '}'),
            i < j0 <= j <= s@.len(),
            sp_port_fields(s@, j0 as int, port_acc0()) == sp_port_fields(
                s@,
                j as int,
                PortAcc {
                    ip: opt_view(ip),
                    port: port,
                    protocol: opt_view(protocol),
                    banner: oo_view(banner),
                    extra: oo_view(extra),
                },
            ),
        decreases s@.len() - j,
    {
        let ghost acc = PortAcc {
            ip: opt_view(ip),
            port: port,
            protocol: opt_view(protocol),
            banner: oo_view(banner),
            extra: oo_view(extra),
        };
        let (key, j1) = match p_string(s, j) {
            None => {
                return None;
            },
            Some(p) => p,
        };
        let j2 = skip_ws(s, j1);
        if !(j2 < s.len()) {
            return None;
        }
        if s[j2] != ':' {
            return None;
        }
        let j3 = skip_ws(s, j2 + 1);
        let j4: usize;
        if key == String::from_str("ip") {
            if ip.is_some() {
                return None;
            }
            match p_string(s, j3) {
                None => {
                    return None;
                },
                Some((v, jj)) => {
                    ip = Some(v);
                    j4 = jj;
                },
            }
        } else if key == String::from_str("port") {
            if port.is_some() {
                return None;
            }
            match p_u16(s, j3) {
                None => {
                    return None;
                },
                Some((v, jj)) => {
                    port = Some(v);
                    j4 = jj;
                },
            }
        } else if key == String::from_str("protocol") {
            if protocol.is_some() {
                return None;
            }
            match p_string(s, j3) {
                None => {
                    return None;
                },
                Some((v, jj)) => {
                    protocol = Some(v);
                    j4 = jj;
                },
            }
        } else if key == String::from_str("banner") {
            if banner.is_some() {
                return None;
            }
            match p_opt_string(s, j3) {
                None => {
                    return None;
                },
                Some((v, jj)) => {
                    banner = Some(v);
                    j4 = jj;
                },
            }
        } else if key == String::from_str("extra") {
            if extra.is_some() {
                return None;
            }
            match p_opt_string(s, j3) {
                None => {
                    return None;
                },
                Some((v, jj)) => {
                    extra = Some(v);
                    j4 = jj;
                },
            }
        } else {
            match p_skip_value(s, j3) {
                None => {
                    return None;
                },
                Some(jj) => {
                    j4 = jj;
                },
            }
        }
        let ghost acc2 = PortAcc {
            ip: opt_view(ip),
            port: port,
            protocol: opt_view(protocol),
            banner: oo_view(banner),
            extra: oo_view(extra),
        };
        proof {
            assert(sp_port_value(s@, j3 as int, acc, key@) == Some((acc2, j4 as int)));
        }
        let j5 = skip_ws(s, j4);
        if j5 < s.len() && s[j5] == ',' {
            let j6 = skip_ws(s, j5 + 1);
            proof {
                assert(sp_port_fields(s@, j as int, acc) == sp_port_fields(s@, j6 as int, acc2));
            }
            j = j6;
        } else if j5 < s.len() && s[j5] == '}' {
            proof {
                assert(sp_port_fields(s@, j as int, acc) == Some((acc2, j5 + 1 as int)));
            }
            let out_ip = match ip {
                Some(v) => v,
                None => {
                    return None;
                },
            };
            let out_port = match port {
                Some(v) => v,
                None => {
                    return None;
                },
            };
            let out_protocol = match protocol {
                Some(v) => v,
                None => {
                    return None;
                },
            };
            let out_banner = match banner {
                Some(v) => v,
                None => None,
            };
            let out_extra = match extra {
                Some(v) => v,
                None => None,
            };
            return Some(
                (
                    PortResultItem {
                        ip: out_ip,
                        port: out_port,
                        protocol: out_protocol,
                        banner: out_banner,
                        extra: out_extra,
                    },
                    j5 + 1,
                ),
            );
        } else {
            return None;
        }
    }
}

// ---------------------------------------------------------------------------
// Vuln items
// ---------------------------------------------------------------------------

/// Fields of a vuln record seen so far while walking an object.
#[verifier::ext_equal]
pub ghost struct VulnAcc {
    pub title: Option<Seq<char>>,
    pub url: Option<Seq<char>>,
    pub description: Option<Seq<char>>,
}

pub open spec fn vuln_acc0() -> VulnAcc {
    VulnAcc { title: None, url: None, description: None }
}

/// Dispatch one field of a vuln record by its key.
pub open spec fn sp_vuln_value(s: Seq<char>, i: int, acc: VulnAcc, key: Seq<char>) -> Option<
    (VulnAcc, int),
> {
    if key == "title"@ {
        if acc.title is Some {
            None
        } else {
            match sp_string(s, i) {
                None => None,
                Some((v, j)) => Some((VulnAcc { title: Some(v), ..acc }, j)),
            }
        }
    } else if key == "url"@ {
        if acc.url is Some {
            None
        } else {
            match sp_string(s, i) {
                None => None,
                Some((v, j)) => Some((VulnAcc { url: Some(v), ..acc }, j)),
            }
        }
    } else if key == "description"@ {
        if acc.description is Some {
            None
        } else {
            match sp_string(s, i) {
                None => None,
                Some((v, j)) => Some((VulnAcc { description: Some(v), ..acc }, j)),
            }
        }
    } else {
        match sp_skip_value(s, i) {
            None => None,
            Some(j) => Some((acc, j)),
        }
    }
}

pub open spec fn sp_vuln_fields(s: Seq<char>, i: int, acc: VulnAcc) -> Option<(VulnAcc, int)>
    decreases s.len() - i,
{
    match sp_string(s, i) {
        None => None,
        Some((key, j1)) => {
            let j2 = sp_ws(s, j1);
            if !(j2 < s.len() && s[j2] == ':') {
                None
            } else {
                let j3 = sp_ws(s, j2 + 1);
                match sp_vuln_value(s, j3, acc, key) {
                    None => None,
                    Some((acc2, j4)) => {
                        let j5 = sp_ws(s, j4);
                        if j5 < s.len() && s[j5] == ',' {
                            let j6 = sp_ws(s, j5 + 1);
                            if i < j6 && j6 <= s.len() {
                                sp_vuln_fields(s, j6, acc2)
                            } else {
                                None
                            }
                        } else if j5 < s.len() && s[j5] == '}' {
                            Some((acc2, j5 + 1))
                        } else {
                            None
                        }
                    },
                }
            }
        },
    }
}

pub open spec fn vuln_finish(acc: VulnAcc) -> Option<SpecVulnItem> {
    match (acc.title, acc.url, acc.description) {
        (Some(title), Some(url), Some(description)) => Some(
            SpecVulnItem {
                title,
                url,
                description,
            },
        ),
        _ => None,
    }
}

/// A complete vuln record object.
pub open spec fn sp_vuln_item(s: Seq<char>, i: int) -> Option<(SpecVulnItem, int)> {
    if !(0 <= i < s.len() && s[i] == '{') {
        None
    } else {
        let j = sp_ws(s, i + 1);
        if j < s.len() && s[j] == '}' {
            None
        } else {
            match sp_vuln_fields(s, j, vuln_acc0()) {
                None => None,
                Some((acc, j2)) => match vuln_finish(acc) {
                    None => None,
                    Some(v) => Some((v, j2)),
                },
            }
        }
    }
}

pub open spec fn sp_vuln_more(s: Seq<char>, i: int, acc: Seq<SpecVulnItem>) -> Option<
    (Seq<SpecVulnItem>, int),
>
    decreases s.len() - i,
{
    let j = sp_ws(s, i);
    if j < s.len() && s[j] == ',' {
        let j2 = sp_ws(s, j + 1);
        match sp_vuln_item(s, j2) {
            None => None,
            Some((v, j3)) => {
                if i < j3 && j3 <= s.len() {
                    sp_vuln_more(s, j3, acc.push(v))
                } else {
                    None
                }
            },
        }
    } else if j < s.len() && s[j] == ']' {
        Some((acc, j + 1))
    } else {
        None
    }
}

pub open spec fn sp_vuln_list(s: Seq<char>, i: int) -> Option<(Seq<SpecVulnItem>, int)> {
    if !(0 <= i < s.len() && s[i] == '[') {
        None
    } else {
        let j = sp_ws(s, i + 1);
        if j < s.len() && s[j] == ']' {
            Some((Seq::empty(), j + 1))
        } else {
            match sp_vuln_item(s, j) {
                None => None,
                Some((v, j2)) => sp_vuln_more(s, j2, seq![v]),
            }
        }
    }
}

// ---------------------------------------------------------------------------
// Domain items
// ---------------------------------------------------------------------------

/// Fields of a domain record seen so far while walking an object.
#[verifier::ext_equal]
pub ghost struct DomainAcc {
    pub domain: Option<Seq<char>>,
    pub record_type: Option<Seq<char>>,
    pub record: Option<Seq<char>>,
    pub status_code: Option<Option<u16>>,
    pub title: Option<Option<Seq<char>>>,
    pub content: Option<Option<Seq<char>>>,
    pub screenshot: Option<Option<Seq<char>>>,
    pub extra: Option<Option<Seq<char>>>,
}

pub open spec fn domain_acc0() -> DomainAcc {
    DomainAcc { domain: None, record_type: None, record: None, status_code: None, title: None, content: None, screenshot: None, extra: None }
}

/// Dispatch one field of a domain record by its key.
pub open spec fn sp_domain_value(s: Seq<char>, i: int, acc: DomainAcc, key: Seq<char>) -> Option<
    (DomainAcc, int),
> {
    if key == "domain"@ {
        if acc.domain is Some {
            None
        } else {
            match sp_string(s, i) {
                None => None,
                Some((v, j)) => Some((DomainAcc { domain: Some(v), ..acc }, j)),
            }
        }
    } else if key == "record_type"@ {
        if acc.record_type is Some {
            None
        } else {
            match sp_string(s, i) {
                None => None,
                Some((v, j)) => Some((DomainAcc { record_type: Some(v), ..acc }, j)),
            }
        }
    } else if key == "record"@ {
        if acc.record is Some {
            None
        } else {
            match sp_string(s, i) {
                None => None,
                Some((v, j)) => Some((DomainAcc { record: Some(v), ..acc }, j)),
            }
        }
    } else if key == "status_code"@ {
        if acc.status_code is Some {
            None
        } else {
            match sp_opt_u16(s, i) {
                None => None,
                Some((v, j)) => Some((DomainAcc { status_code: Some(v), ..acc }, j)),
            }
        }
    } else if key == "title"@ {
        if acc.title is Some {
            None
        } else {
            match sp_opt_string(s, i) {
                None => None,
                Some((v, j)) => Some((DomainAcc { title: Some(v), ..acc }, j)),
            }
        }
    } else if key == "content"@ {
        if acc.content is Some {
            None
        } else {
            match sp_opt_string(s, i) {
                None => None,
                Some((v, j)) => Some((DomainAcc { content: Some(v), ..acc }, j)),
            }
        }
    } else if key == "screenshot"@ {
        if acc.screenshot is Some {
            None
        } else {
            match sp_opt_string(s, i) {
                None => None,
                Some((v, j)) => Some((DomainAcc { screenshot: Some(v), ..acc }, j)),
            }
        }
    } else if key == "extra"@ {
        if acc.extra is Some {
            None
        } else {
            match sp_opt_string(s, i) {
                None => None,
                Some((v, j)) => Some((DomainAcc { extra: Some(v), ..acc }, j)),
            }
        }
    } else {
        match sp_skip_value(s, i) {
            None => None,
            Some(j) => Some((acc, j)),
        }
    }
}

pub open spec fn sp_domain_fields(s: Seq<char>, i: int, acc: DomainAcc) -> Option<(DomainAcc, int)>
    decreases s.len() - i,
{
    match sp_string(s, i) {
        None => None,
        Some((key, j1)) => {
            let j2 = sp_ws(s, j1);
            if !(j2 < s.len() && s[j2] == ':') {
                None
            } else {
                let j3 = sp_ws(s, j2 + 1);
                match sp_domain_value(s, j3, acc, key) {
                    None => None,
                    Some((acc2, j4)) => {
                        let j5 = sp_ws(s, j4);
                        if j5 < s.len() && s[j5] == ',' {
                            let j6 = sp_ws(s, j5 + 1);
                            if i < j6 && j6 <= s.len() {
                                sp_domain_fields(s, j6, acc2)
                            } else {
                                None
                            }
                        } else if j5 < s.len() && s[j5] == '}' {
                            Some((acc2, j5 + 1))
                        } else {
                            None
                        }
                    },
                }
            }
        },
    }
}

pub open spec fn domain_finish(acc: DomainAcc) -> Option<SpecDomainItem> {
    match (acc.domain, acc.record_type, acc.record) {
        (Some(domain), Some(record_type), Some(record)) => Some(
            SpecDomainItem {
                domain,
                record_type,
                record,
                status_code: u16_flat(acc.status_code),
                title: opt_flat(acc.title),
                content: opt_flat(acc.content),
                screenshot: opt_flat(acc.screenshot),
                extra: opt_flat(acc.extra),
            },
        ),
        _ => None,
    }
}

/// A complete domain record object.
pub open spec fn sp_domain_item(s: Seq<char>, i: int) -> Option<(SpecDomainItem, int)> {
    if !(0 <= i < s.len() && s[i] == '{') {
        None
    } else {
        let j = sp_ws(s, i + 1);
        if j < s.len() && s[j] == '}' {
            None
        } else {
            match sp_domain_fields(s, j, domain_acc0()) {
                None => None,
                Some((acc, j2)) => match domain_finish(acc) {
                    None => None,
                    Some(v) => Some((v, j2)),
                },
            }
        }
    }
}

pub open spec fn sp_domain_more(s: Seq<char>, i: int, acc: Seq<SpecDomainItem>) -> Option<
    (Seq<SpecDomainItem>, int),
>
    decreases s.len() - i,
{
    let j = sp_ws(s, i);
    if j < s.len() && s[j] == ',' {
        let j2 = sp_ws(s, j + 1);
        match sp_domain_item(s, j2) {
            None => None,
            Some((v, j3)) => {
                if i < j3 && j3 <= s.len() {
                    sp_domain_more(s, j3, acc.push(v))
                } else {
                    None
                }
            },
        }
    } else if j < s.len() && s[j] == ']' {
        Some((acc, j + 1))
    } else {
        None
    }
}

pub open spec fn sp_domain_list(s: Seq<char>, i: int) -> Option<(Seq<SpecDomainItem>, int)> {
    if !(0 <= i < s.len() && s[i] == '[') {
        None
    } else {
        let j = sp_ws(s, i + 1);
        if j < s.len() && s[j] == ']' {
            Some((Seq::empty(), j + 1))
        } else {
            match sp_domain_item(s, j) {
                None => None,
                Some((v, j2)) => sp_domain_more(s, j2, seq![v]),
            }
        }
    }
}

// ---------------------------------------------------------------------------
// Dir items
// ---------------------------------------------------------------------------

/// Fields of a dir record seen so far while walking an object.
#[verifier::ext_equal]
pub ghost struct DirAcc {
    pub path: Option<Seq<char>>,
    pub status_code: Option<u16>,
    pub method: Option<Seq<char>>,
    pub title: Option<Option<Seq<char>>>,
    pub content: Option<Option<Seq<char>>>,
    pub screenshot: Option<Option<Seq<char>>>,
    pub extra: Option<Option<Seq<char>>>,
}

pub open spec fn dir_acc0() -> DirAcc {
    DirAcc { path: None, status_code: None, method: None, title: None, content: None, screenshot: None, extra: None }
}

/// Dispatch one field of a dir record by its key.
pub open spec fn sp_dir_value(s: Seq<char>, i: int, acc: DirAcc, key: Seq<char>) -> Option<
    (DirAcc, int),
> {
    if key == "path"@ {
        if acc.path is Some {
            None
        } else {
            match sp_string(s, i) {
                None => None,
                Some((v, j)) => Some((DirAcc { path: Some(v), ..acc }, j)),
            }
        }
    } else if key == "status_code"@ {
        if acc.status_code is Some {
            None
        } else {
            match sp_u16(s, i) {
                None => None,
                Some((v, j)) => Some((DirAcc { status_code: Some(v), ..acc }, j)),
            }
        }
    } else if key == "method"@ {
        if acc.method is Some {
            None
        } else {
            match sp_string(s, i) {
                None => None,
                Some((v, j)) => Some((DirAcc { method: Some(v), ..acc }, j)),
            }
        }
    } else if key == "title"@ {
        if acc.title is Some {
            None
        } else {
            match sp_opt_string(s, i) {
                None => None,
                Some((v, j)) => Some((DirAcc { title: Some(v), ..acc }, j)),
            }
        }
    } else if key == "content"@ {
        if acc.content is Some {
            None
        } else {
            match sp_opt_string(s, i) {
                None => None,
                Some((v, j)) => Some((DirAcc { content: Some(v), ..acc }, j)),
            }
        }
    } else if key == "screenshot"@ {
        if acc.screenshot is Some {
            None
        } else {
            match sp_opt_string(s, i) {
                None => None,
                Some((v, j)) => Some((DirAcc { screenshot: Some(v), ..acc }, j)),
            }
        }
    } else if key == "extra"@ {
        if acc.extra is Some {
            None
        } else {
            match sp_opt_string(s, i) {
                None => None,
                Some((v, j)) => Some((DirAcc { extra: Some(v), ..acc }, j)),
            }
        }
    } else {
        match sp_skip_value(s, i) {
            None => None,
            Some(j) => Some((acc, j)),
        }
    }
}

pub open spec fn sp_dir_fields(s: Seq<char>, i: int, acc: DirAcc) -> Option<(DirAcc, int)>
    decreases s.len() - i,
{
    match sp_string(s, i) {
        None => None,
        Some((key, j1)) => {
            let j2 = sp_ws(s, j1);
            if !(j2 < s.len() && s[j2] == ':') {
                None
            } else {
                let j3 = sp_ws(s, j2 + 1);
                match sp_dir_value(s, j3, acc, key) {
                    None => None,
                    Some((acc2, j4)) => {
                        let j5 = sp_ws(s, j4);
                        if j5 < s.len() && s[j5] == ',' {
                            let j6 = sp_ws(s, j5 + 1);
                            if i < j6 && j6 <= s.len() {
                                sp_dir_fields(s, j6, acc2)
                            } else {
                                None
                            }
                        } else if j5 < s.len() && s[j5] == '}' {
                            Some((acc2, j5 + 1))
                        } else {
                            None
                        }
                    },
                }
            }
        },
    }
}

pub open spec fn dir_finish(acc: DirAcc) -> Option<SpecDirItem> {
    match (acc.path, acc.status_code, acc.method) {
        (Some(path), Some(status_code), Some(method)) => Some(
            SpecDirItem {
                path,
                status_code,
                method,
                title: opt_flat(acc.title),
                content: opt_flat(acc.content),
                screenshot: opt_flat(acc.screenshot),
                extra: opt_flat(acc.extra),
            },
        ),
        _ => None,
    }
}

/// A complete dir record object.
pub open spec fn sp_dir_item(s: Seq<char>, i: int) -> Option<(SpecDirItem, int)> {
    if !(0 <= i < s.len() && s[i] == '{') {
        None
    } else {
        let j = sp_ws(s, i + 1);
        if j < s.len() && s[j] == '}' {
            None
        } else {
            match sp_dir_fields(s, j, dir_acc0()) {
                None => None,
                Some((acc, j2)) => match dir_finish(acc) {
                    None => None,
                    Some(v) => Some((v, j2)),
                },
            }
        }
    }
}

pub open spec fn sp_dir_more(s: Seq<char>, i: int, acc: Seq<SpecDirItem>) -> Option<
    (Seq<SpecDirItem>, int),
>
    decreases s.len() - i,
{
    let j = sp_ws(s, i);
    if j < s.len() && s[j] == ',' {
        let j2 = sp_ws(s, j + 1);
        match sp_dir_item(s, j2) {
            None => None,
            Some((v, j3)) => {
                if i < j3 && j3 <= s.len() {
                    sp_dir_more(s, j3, acc.push(v))
                } else {
                    None
                }
            },
        }
    } else if j < s.len() && s[j] == ']' {
        Some((acc, j + 1))
    } else {
        None
    }
}

pub open spec fn sp_dir_list(s: Seq<char>, i: int) -> Option<(Seq<SpecDirItem>, int)> {
    if !(0 <= i < s.len() && s[i] == '[') {
        None
    } else {
        let j = sp_ws(s, i + 1);
        if j < s.len() && s[j] == ']' {
            Some((Seq::empty(), j + 1))
        } else {
            match sp_dir_item(s, j) {
                None => None,
                Some((v, j2)) => sp_dir_more(s, j2, seq![v]),
            }
        }
    }
}

#[verifier::rlimit(100)]
pub(crate) fn p_vuln_item(s: &Vec<char>, i: usize) -> (r: Option<(VulnResultItem, usize)>)
    requires
        i <= s@.len(),
    ensures
        match r {
            Some(p) => sp_vuln_item(s@, i as int) == Some((p.0@, p.1 as int)) && i < p.1
                <= s@.len(),
            None => sp_vuln_item(s@, i as int) is None,
        },
{
    if i >= s.len() || s[i] != '{' {
        return None;
    }
    let j0 = skip_ws(s, i + 1);
    if j0 < s.len() && s[j0] == '}' {
        return None;
    }
    let mut title: Option<String> = None;
    let mut url: Option<String> = None;
    let mut description: Option<String> = None;
    let mut j = j0;
    loop
        invariant
            i < s@.len(),
            s@[i as int] == '{',
            j0 as int == sp_ws(s@, i + 1 as int),
            !(j0 < s@.len() && s@[j0 as int] == '}'),
            i < j0 <= j <= s@.len(),
            sp_vuln_fields(s@, j0 as int, vuln_acc0()) == sp_vuln_fields(
                s@,
                j as int,
                VulnAcc {
                    title: opt_view(title),
                    url: opt_view(url),
                    description: opt_view(description),
                },
            ),
        decreases s@.len() - j,
    {
        let ghost acc = VulnAcc {
            title: opt_view(title),
            url: opt_view(url),
            description: opt_view(description),
        };
        let (key, j1) = match p_string(s, j) {
            None => {
                return None;
            },
            Some(p) => p,
        };
        let j2 = skip_ws(s, j1);
        if !(j2 < s.len()) {
            return None;
        }
        if s[j2] != ':' {
            return None;
        }
        let j3 = skip_ws(s, j2 + 1);
        let j4: usize;
        if key == String::from_str("title") {
            if title.is_some() {
                return None;
            }
            match p_string(s, j3) {
                None => {
                    return None;
                },
                Some((v, jj)) => {
                    title = Some(v);
                    j4 = jj;
                },
            }
        } else if key == String::from_str("url") {
            if url.is_some() {
                return None;
            }
            match p_string(s, j3) {
                None => {
                    return None;
                },
                Some((v, jj)) => {
                    url = Some(v);
                    j4 = jj;
                },
            }
        } else if key == String::from_str("description") {
            if description.is_some() {
                return None;
            }
            match p_string(s, j3) {
                None => {
                    return None;
                },
                Some((v, jj)) => {
                    description = Some(v);
                    j4 = jj;
                },
            }
        } else {
            match p_skip_value(s, j3) {
                None => {
                    return None;
                },
                Some(jj) => {
                    j4 = jj;
                },
            }
        }
        let ghost acc2 = VulnAcc {
            title: opt_view(title),
            url: opt_view(url),
            description: opt_view(description),
        };
        proof {
            assert(sp_vuln_value(s@, j3 as int, acc, key@) == Some((acc2, j4 as int)));
        }
        let j5 = skip_ws(s, j4);
        if j5 < s.len() && s[j5] == ',' {
            let j6 = skip_ws(s, j5 + 1);
            proof {
                assert(sp_vuln_fields(s@, j as int, acc) == sp_vuln_fields(s@, j6 as int, acc2));
            }
            j = j6;
        } else if j5 < s.len() && s[j5] == '}' {
            proof {
                assert(sp_vuln_fields(s@, j as int, acc) == Some((acc2, j5 + 1 as int)));
            }
            let out_title = match title {
                Some(v) => v,
                None => {
                    return None;
                },
            };
            let out_url = match url {
                Some(v) => v,
                None => {
                    return None;
                },
            };
            let out_description = match description {
                Some(v) => v,
                None => {
                    return None;
                },
            };
            return Some(
                (
                    VulnResultItem { title: out_title, url: out_url, description: out_description },
                    j5 + 1,
                ),
            );
        } else {
            return None;
        }
    }
}

#[verifier::rlimit(100)]
pub(crate) fn p_domain_item(s: &Vec<char>, i: usize) -> (r: Option<(DomainResultItem, usize)>)
    requires
        i <= s@.len(),
    ensures
        match r {
            Some(p) => sp_domain_item(s@, i as int) == Some((p.0@, p.1 as int)) && i < p.1
                <= s@.len(),
            None => sp_domain_item(s@, i as int) is None,
        },
{
    if i >= s.len() || s[i] != '{' {
        return None;
    }
    let j0 = skip_ws(s, i + 1);
    if j0 < s.len() && s[j0] == '}' {
        return None;
    }
    let mut domain: Option<String> = None;
    let mut record_type: Option<String> = None;
    let mut record: Option<String> = None;
    let mut status_code: Option<Option<u16>> = None;
    let mut title: Option<Option<String>> = None;
    let mut content: Option<Option<String>> = None;
    let mut screenshot: Option<Option<String>> = None;
    let mut extra: Option<Option<String>> = None;
    let mut j = j0;
    loop
        invariant
            i < s@.len(),
            s@[i as int] == '{',
            j0 as int == sp_ws(s@, i + 1 as int),
            !(j0 < s@.len() && s@[j0 as int] == '}'),
            i < j0 <= j <= s@.len(),
            sp_domain_fields(s@, j0 as int, domain_acc0()) == sp_domain_fields(
                s@,
                j as int,
                DomainAcc {
                    domain: opt_view(domain),
                    record_type: opt_view(record_type),
                    record: opt_view(record),
                    status_code: status_code,
                    title: oo_view(title),
                    content: oo_view(content),
                    screenshot: oo_view(screenshot),
                    extra: oo_view(extra),
                },
            ),
        decreases s@.len() - j,
    {
        let ghost acc = DomainAcc {
            domain: opt_view(domain),
            record_type: opt_view(record_type),
            record: opt_view(record),
            status_code: status_code,
            title: oo_view(title),
            content: oo_view(content),
            screenshot: oo_view(screenshot),
            extra: oo_view(extra),
        };
        let (key, j1) = match p_string(s, j) {
            None => {
                return None;
            },
            Some(p) => p,
        };
        let j2 = skip_ws(s, j1);
        if !(j2 < s.len()) {
            return None;
        }
        if s[j2] != ':' {
            return None;
        }
        let j3 = skip_ws(s, j2 + 1);
        let j4: usize;
        if key == String::from_str("domain") {
            if domain.is_some() {
                return None;
            }
            match p_string(s, j3) {
                None => {
                    return None;
                },
                Some((v, jj)) => {
                    domain = Some(v);
                    j4 = jj;
                },
            }
        } else if key == String::from_str("record_type") {
            if record_type.is_some() {
                return None;
            }
            match p_string(s, j3) {
                None => {
                    return None;
                },
                Some((v, jj)) => {
                    record_type = Some(v);
                    j4 = jj;
                },
            }
        } else if key == String::from_str("record") {
            if record.is_some() {
                return None;
            }
            match p_string(s, j3) {
                None => {
                    return None;
                },
                Some((v, jj)) => {
                    record = Some(v);
                    j4 = jj;
                },
            }
        } else if key == String::from_str("status_code") {
            if status_code.is_some() {
                return None;
            }
            match p_opt_u16(s, j3) {
                None => {
                    return None;
                },
                Some((v, jj)) => {
                    status_code = Some(v);
                    j4 = jj;
                },
            }
        } else if key == String::from_str("title") {
            if title.is_some() {
                return None;
            }
            match p_opt_string(s, j3) {
                None => {
                    return None;
                },
                Some((v, jj)) => {
                    title = Some(v);
                    j4 = jj;
                },
            }
        } else if key == String::from_str("content") {
            if content.is_some() {
                return None;
            }
            match p_opt_string(s, j3) {
                None => {
                    return None;
                },
                Some((v, jj)) => {
                    content = Some(v);
                    j4 = jj;
                },
            }
        } else if key == String::from_str("screenshot") {
            if screenshot.is_some() {
                return None;
            }
            match p_opt_string(s, j3) {
                None => {
                    return None;
                },
                Some((v, jj)) => {
                    screenshot = Some(v);
                    j4 = jj;
                },
            }
        } else if key == String::from_str("extra") {
            if extra.is_some() {
                return None;
            }
            match p_opt_string(s, j3) {
                None => {
                    return None;
                },
                Some((v, jj)) => {
                    extra = Some(v);
                    j4 = jj;
                },
            }
        } else {
            match p_skip_value(s, j3) {
                None => {
                    return None;
                },
                Some(jj) => {
                    j4 = jj;
                },
            }
        }
        let ghost acc2 = DomainAcc {
            domain: opt_view(domain),
            record_type: opt_view(record_type),
            record: opt_view(record),
            status_code: status_code,
            title: oo_view(title),
            content: oo_view(content),
            screenshot: oo_view(screenshot),
            extra: oo_view(extra),
        };
        proof {
            assert(sp_domain_value(s@, j3 as int, acc, key@) == Some((acc2, j4 as int)));
        }
        let j5 = skip_ws(s, j4);
        if j5 < s.len() && s[j5] == ',' {
            let j6 = skip_ws(s, j5 + 1);
            proof {
                assert(sp_domain_fields(s@, j as int, acc) == sp_domain_fields(s@, j6 as int, acc2));
            }
            j = j6;
        } else if j5 < s.len() && s[j5] == '}' {
            proof {
                assert(sp_domain_fields(s@, j as int, acc) == Some((acc2, j5 + 1 as int)));
            }
            let out_domain = match domain {
                Some(v) => v,
                None => {
                    return None;
                },
            };
            let out_record_type = match record_type {
                Some(v) => v,
                None => {
                    return None;
                },
            };
            let out_record = match record {
                Some(v) => v,
                None => {
                    return None;
                },
            };
            let out_status_code = match status_code {
                Some(v) => v,
                None => None,
            };
            let out_title = match title {
                Some(v) => v,
                None => None,
            };
            let out_content = match content {
                Some(v) => v,
                None => None,
            };
            let out_screenshot = match screenshot {
                Some(v) => v,
                None => None,
            };
            let out_extra = match extra {
                Some(v) => v,
                None => None,
            };
            return Some(
                (
                    DomainResultItem { domain: out_domain, record_type: out_record_type, record: out_record, status_code: out_status_code, title: out_title, content: out_content, screenshot: out_screenshot, extra: out_extra },
                    j5 + 1,
                ),
            );
        } else {
            return None;
        }
    }
}

#[verifier::rlimit(100)]
pub(crate) fn p_dir_item(s: &Vec<char>, i: usize) -> (r: Option<(DirResultItem, usize)>)
    requires
        i <= s@.len(),
    ensures
        match r {
            Some(p) => sp_dir_item(s@, i as int) == Some((p.0@, p.1 as int)) && i < p.1
                <= s@.len(),
            None => sp_dir_item(s@, i as int) is None,
        },
{
    if i >= s.len() || s[i] != '{' {
        return None;
    }
    let j0 = skip_ws(s, i + 1);
    if j0 < s.len() && s[j0] == '}' {
        return None;
    }
    let mut path: Option<String> = None;
    let mut status_code: Option<u16> = None;
    let mut method: Option<String> = None;
    let mut title: Option<Option<String>> = None;
    let mut content: Option<Option<String>> = None;
    let mut screenshot: Option<Option<String>> = None;
    let mut extra: Option<Option<String>> = None;
    let mut j = j0;
    loop
        invariant
            i < s@.len(),
            s@[i as int] == '{',
            j0 as int == sp_ws(s@, i + 1 as int),
            !(j0 < s@.len() && s@[j0 as int] == '}'),
            i < j0 <= j <= s@.len(),
            sp_dir_fields(s@, j0 as int, dir_acc0()) == sp_dir_fields(
                s@,
                j as int,
                DirAcc {
                    path: opt_view(path),
                    status_code: status_code,
                    method: opt_view(method),
                    title: oo_view(title),
                    content: oo_view(content),
                    screenshot: oo_view(screenshot),
                    extra: oo_view(extra),
                },
            ),
        decreases s@.len() - j,
    {
        let ghost acc = DirAcc {
            path: opt_view(path),
            status_code: status_code,
            method: opt_view(method),
            title: oo_view(title),
            content: oo_view(content),
            screenshot: oo_view(screenshot),
            extra: oo_view(extra),
        };
        let (key, j1) = match p_string(s, j) {
            None => {
                return None;
            },
            Some(p) => p,
        };
        let j2 = skip_ws(s, j1);
        if !(j2 < s.len()) {
            return None;
        }
        if s[j2] != ':' {
            return None;
        }
        let j3 = skip_ws(s, j2 + 1);
        let j4: usize;
        if key == String::from_str("path") {
            if path.is_some() {
                return None;
            }
            match p_string(s, j3) {
                None => {
                    return None;
                },
                Some((v, jj)) => {
                    path = Some(v);
                    j4 = jj;
                },
            }
        } else if key == String::from_str("status_code") {
            if status_code.is_some() {
                return None;
            }
            match p_u16(s, j3) {
                None => {
                    return None;
                },
                Some((v, jj)) => {
                    status_code = Some(v);
                    j4 = jj;
                },
            }
        } else if key == String::from_str("method") {
            if method.is_some() {
                return None;
            }
            match p_string(s, j3) {
                None => {
                    return None;
                },
                Some((v, jj)) => {
                    method = Some(v);
                    j4 = jj;
                },
            }
        } else if key == String::from_str("title") {
            if title.is_some() {
                return None;
            }
            match p_opt_string(s, j3) {
                None => {
                    return None;
                },
                Some((v, jj)) => {
                    title = Some(v);
                    j4 = jj;
                },
            }
        } else if key == String::from_str("content") {
            if content.is_some() {
                return None;
            }
            match p_opt_string(s, j3) {
                None => {
                    return None;
                },
                Some((v, jj)) => {
                    content = Some(v);
                    j4 = jj;
                },
            }
        } else if key == String::from_str("screenshot") {
            if screenshot.is_some() {
                return None;
            }
            match p_opt_string(s, j3) {
                None => {
                    return None;
                },
                Some((v, jj)) => {
                    screenshot = Some(v);
                    j4 = jj;
                },
            }
        } else if key == String::from_str("extra") {
            if extra.is_some() {
                return None;
            }
            match p_opt_string(s, j3) {
                None => {
                    return None;
                },
                Some((v, jj)) => {
                    extra = Some(v);
                    j4 = jj;
                },
            }
        } else {
            match p_skip_value(s, j3) {
                None => {
                    return None;
                },
                Some(jj) => {
                    j4 = jj;
                },
            }
        }
        let ghost acc2 = DirAcc {
            path: opt_view(path),
            status_code: status_code,
            method: opt_view(method),
            title: oo_view(title),
            content: oo_view(content),
            screenshot: oo_view(screenshot),
            extra: oo_view(extra),
        };
        proof {
            assert(sp_dir_value(s@, j3 as int, acc, key@) == Some((acc2, j4 as int)));
        }
        let j5 = skip_ws(s, j4);
        if j5 < s.len() && s[j5] == ',' {
            let j6 = skip_ws(s, j5 + 1);
            proof {
                assert(sp_dir_fields(s@, j as int, acc) == sp_dir_fields(s@, j6 as int, acc2));
            }
            j = j6;
        } else if j5 < s.len() && s[j5] == '}' {
            proof {
                assert(sp_dir_fields(s@, j as int, acc) == Some((acc2, j5 + 1 as int)));
            }
            let out_path = match path {
                Some(v) => v,
                None => {
                    return None;
                },
            };
            let out_status_code = match status_code {
                Some(v) => v,
                None => {
                    return None;
                },
            };
            let out_method = match method {
                Some(v) => v,
                None => {
                    return None;
                },
            };
            let out_title = match title {
                Some(v) => v,
                None => None,
            };
            let out_content = match content {
                Some(v) => v,
                None => None,
            };
            let out_screenshot = match screenshot {
                Some(v) => v,
                None => None,
            };
            let out_extra = match extra {
                Some(v) => v,
                None => None,
            };
            return Some(
                (
                    DirResultItem { path: out_path, status_code: out_status_code, method: out_method, title: out_title, content: out_content, screenshot: out_screenshot, extra: out_extra },
                    j5 + 1,
                ),
            );
        } else {
            return None;
        }
    }
}

/// Model of a category not yet seen, or seen with its parsed items.
pub open spec fn list_view(o: Option<Vec<PortResultItem>>) -> Option<Seq<SpecPortItem>> {
    match o {
        None => None,
        Some(v) => Some(v.deep_view()),
    }
}

pub open spec fn vuln_list_view(o: Option<Vec<VulnResultItem>>) -> Option<Seq<SpecVulnItem>> {
    match o {
        None => None,
        Some(v) => Some(v.deep_view()),
    }
}

pub open spec fn domain_list_view(o: Option<Vec<DomainResultItem>>) -> Option<Seq<SpecDomainItem>> {
    match o {
        None => None,
        Some(v) => Some(v.deep_view()),
    }
}

pub open spec fn dir_list_view(o: Option<Vec<DirResultItem>>) -> Option<Seq<SpecDirItem>> {
    match o {
        None => None,
        Some(v) => Some(v.deep_view()),
    }
}

pub(crate) fn p_port_list(s: &Vec<char>, i: usize) -> (r: Option<(Vec<PortResultItem>, usize)>)
    requires
        i <= s@.len(),
    ensures
        match r {
            Some(p) => sp_port_list(s@, i as int) == Some((p.0.deep_view(), p.1 as int)) && i < p.1
                <= s@.len(),
            None => sp_port_list(s@, i as int) is None,
        },
{
    if i >= s.len() || s[i] != '[' {
        return None;
    }
    let j0 = skip_ws(s, i + 1);
    if j0 < s.len() && s[j0] == ']' {
        let out: Vec<PortResultItem> = Vec::new();
        proof {
            assert(out.deep_view() =~= Seq::<SpecPortItem>::empty());
        }
        return Some((out, j0 + 1));
    }
    let (first, j1) = match p_port_item(s, j0) {
        None => {
            return None;
        },
        Some(p) => p,
    };
    let ghost fv = first@;
    let mut out: Vec<PortResultItem> = Vec::new();
    out.push(first);
    proof {
        assert(out.deep_view() =~= seq![fv]);
    }
    let mut j = j1;
    loop
        invariant
            i < j <= s@.len(),
            sp_port_list(s@, i as int) == sp_port_more(s@, j1 as int, seq![fv]),
            sp_port_more(s@, j1 as int, seq![fv]) == sp_port_more(s@, j as int, out.deep_view()),
        decreases s@.len() - j,
    {
        let j5 = skip_ws(s, j);
        if j5 < s.len() && s[j5] == ',' {
            let j6 = skip_ws(s, j5 + 1);
            let (v, j7) = match p_port_item(s, j6) {
                None => {
                    return None;
                },
                Some(p) => p,
            };
            let ghost dv_old = out.deep_view();
            let ghost vv = v@;
            out.push(v);
            proof {
                assert(out.deep_view() =~= dv_old.push(vv));
                assert(sp_port_more(s@, j as int, dv_old) == sp_port_more(
                    s@,
                    j7 as int,
                    dv_old.push(vv),
                ));
            }
            j = j7;
        } else if j5 < s.len() && s[j5] == ']' {
            proof {
                assert(sp_port_more(s@, j as int, out.deep_view()) == Some(
                    (out.deep_view(), j5 + 1 as int),
                ));
            }
            return Some((out, j5 + 1));
        } else {
            return None;
        }
    }
}

pub(crate) fn p_vuln_list(s: &Vec<char>, i: usize) -> (r: Option<(Vec<VulnResultItem>, usize)>)
    requires
        i <= s@.len(),
    ensures
        match r {
            Some(p) => sp_vuln_list(s@, i as int) == Some((p.0.deep_view(), p.1 as int)) && i < p.1
                <= s@.len(),
            None => sp_vuln_list(s@, i as int) is None,
        },
{
    if i >= s.len() || s[i] != '[' {
        return None;
    }
    let j0 = skip_ws(s, i + 1);
    if j0 < s.len() && s[j0] == ']' {
        let out: Vec<VulnResultItem> = Vec::new();
        proof {
            assert(out.deep_view() =~= Seq::<SpecVulnItem>::empty());
        }
        return Some((out, j0 + 1));
    }
    let (first, j1) = match p_vuln_item(s, j0) {
        None => {
            return None;
        },
        Some(p) => p,
    };
    let ghost fv = first@;
    let mut out: Vec<VulnResultItem> = Vec::new();
    out.push(first);
    proof {
        assert(out.deep_view() =~= seq![fv]);
    }
    let mut j = j1;
    loop
        invariant
            i < j <= s@.len(),
            sp_vuln_list(s@, i as int) == sp_vuln_more(s@, j1 as int, seq![fv]),
            sp_vuln_more(s@, j1 as int, seq![fv]) == sp_vuln_more(s@, j as int, out.deep_view()),
        decreases s@.len() - j,
    {
        let j5 = skip_ws(s, j);
        if j5 < s.len() && s[j5] == ',' {
            let j6 = skip_ws(s, j5 + 1);
            let (v, j7) = match p_vuln_item(s, j6) {
                None => {
                    return None;
                },
                Some(p) => p,
            };
            let ghost dv_old = out.deep_view();
            let ghost vv = v@;
            out.push(v);
            proof {
                assert(out.deep_view() =~= dv_old.push(vv));
                assert(sp_vuln_more(s@, j as int, dv_old) == sp_vuln_more(
                    s@,
                    j7 as int,
                    dv_old.push(vv),
                ));
            }
            j = j7;
        } else if j5 < s.len() && s[j5] == ']' {
            proof {
                assert(sp_vuln_more(s@, j as int, out.deep_view()) == Some(
                    (out.deep_view(), j5 + 1 as int),
                ));
            }
            return Some((out, j5 + 1));
        } else {
            return None;
        }
    }
}

pub(crate) fn p_domain_list(s: &Vec<char>, i: usize) -> (r: Option<(Vec<DomainResultItem>, usize)>)
    requires
        i <= s@.len(),
    ensures
        match r {
            Some(p) => sp_domain_list(s@, i as int) == Some((p.0.deep_view(), p.1 as int)) && i < p.1
                <= s@.len(),
            None => sp_domain_list(s@, i as int) is None,
        },
{
    if i >= s.len() || s[i] != '[' {
        return None;
    }
    let j0 = skip_ws(s, i + 1);
    if j0 < s.len() && s[j0] == ']' {
        let out: Vec<DomainResultItem> = Vec::new();
        proof {
            assert(out.deep_view() =~= Seq::<SpecDomainItem>::empty());
        }
        return Some((out, j0 + 1));
    }
    let (first, j1) = match p_domain_item(s, j0) {
        None => {
            return None;
        },
        Some(p) => p,
    };
    let ghost fv = first@;
    let mut out: Vec<DomainResultItem> = Vec::new();
    out.push(first);
    proof {
        assert(out.deep_view() =~= seq![fv]);
    }
    let mut j = j1;
    loop
        invariant
            i < j <= s@.len(),
            sp_domain_list(s@, i as int) == sp_domain_more(s@, j1 as int, seq![fv]),
            sp_domain_more(s@, j1 as int, seq![fv]) == sp_domain_more(s@, j as int, out.deep_view()),
        decreases s@.len() - j,
    {
        let j5 = skip_ws(s, j);
        if j5 < s.len() && s[j5] == ',' {
            let j6 = skip_ws(s, j5 + 1);
            let (v, j7) = match p_domain_item(s, j6) {
                None => {
                    return None;
                },
                Some(p) => p,
            };
            let ghost dv_old = out.deep_view();
            let ghost vv = v@;
            out.push(v);
            proof {
                assert(out.deep_view() =~= dv_old.push(vv));
                assert(sp_domain_more(s@, j as int, dv_old) == sp_domain_more(
                    s@,
                    j7 as int,
                    dv_old.push(vv),
                ));
            }
            j = j7;
        } else if j5 < s.len() && s[j5] == ']' {
            proof {
                assert(sp_domain_more(s@, j as int, out.deep_view()) == Some(
                    (out.deep_view(), j5 + 1 as int),
                ));
            }
            return Some((out, j5 + 1));
        } else {
            return None;
        }
    }
}

pub(crate) fn p_dir_list(s: &Vec<char>, i: usize) -> (r: Option<(Vec<DirResultItem>, usize)>)
    requires
        i <= s@.len(),
    ensures
        match r {
            Some(p) => sp_dir_list(s@, i as int) == Some((p.0.deep_view(), p.1 as int)) && i < p.1
                <= s@.len(),
            None => sp_dir_list(s@, i as int) is None,
        },
{
    if i >= s.len() || s[i] != '[' {
        return None;
    }
    let j0 = skip_ws(s, i + 1);
    if j0 < s.len() && s[j0] == ']' {
        let out: Vec<DirResultItem> = Vec::new();
        proof {
            assert(out.deep_view() =~= Seq::<SpecDirItem>::empty());
        }
        return Some((out, j0 + 1));
    }
    let (first, j1) = match p_dir_item(s, j0) {
        None => {
            return None;
        },
        Some(p) => p,
    };
    let ghost fv = first@;
    let mut out: Vec<DirResultItem> = Vec::new();
    out.push(first);
    proof {
        assert(out.deep_view() =~= seq![fv]);
    }
    let mut j = j1;
    loop
        invariant
            i < j <= s@.len(),
            sp_dir_list(s@, i as int) == sp_dir_more(s@, j1 as int, seq![fv]),
            sp_dir_more(s@, j1 as int, seq![fv]) == sp_dir_more(s@, j as int, out.deep_view()),
        decreases s@.len() - j,
    {
        let j5 = skip_ws(s, j);
        if j5 < s.len() && s[j5] == ',' {
            let j6 = skip_ws(s, j5 + 1);
            let (v, j7) = match p_dir_item(s, j6) {
                None => {
                    return None;
                },
                Some(p) => p,
            };
            let ghost dv_old = out.deep_view();
            let ghost vv = v@;
            out.push(v);
            proof {
                assert(out.deep_view() =~= dv_old.push(vv));
                assert(sp_dir_more(s@, j as int, dv_old) == sp_dir_more(
                    s@,
                    j7 as int,
                    dv_old.push(vv),
                ));
            }
            j = j7;
        } else if j5 < s.len() && s[j5] == ']' {
            proof {
                assert(sp_dir_more(s@, j as int, out.deep_view()) == Some(
                    (out.deep_view(), j5 + 1 as int),
                ));
            }
            return Some((out, j5 + 1));
        } else {
            return None;
        }
    }
}

// ---------------------------------------------------------------------------
// The aggregate object
// ---------------------------------------------------------------------------

/// Categories of the aggregate seen so far while walking its object.
#[verifier::ext_equal]
pub ghost struct ScanAcc {
    pub port: Option<Seq<SpecPortItem>>,
    pub vulns: Option<Seq<SpecVulnItem>>,
    pub domain: Option<Seq<SpecDomainItem>>,
    pub dir: Option<Seq<SpecDirItem>>,
}

pub open spec fn scan_acc0() -> ScanAcc {
    ScanAcc { port: None, vulns: None, domain: None, dir: None }
}

/// Dispatch one category of the aggregate by its key.
pub open spec fn sp_scan_value(s: Seq<char>, i: int, acc: ScanAcc, key: Seq<char>) -> Option<
    (ScanAcc, int),
> {
    if key == "port"@ {
        if acc.port is Some {
            None
        } else {
            match sp_port_list(s, i) {
                None => None,
                Some((v, j)) => Some((ScanAcc { port: Some(v), ..acc }, j)),
            }
        }
    } else if key == "vulns"@ {
        if acc.vulns is Some {
            None
        } else {
            match sp_vuln_list(s, i) {
                None => None,
                Some((v, j)) => Some((ScanAcc { vulns: Some(v), ..acc }, j)),
            }
        }
    } else if key == "domain"@ {
        if acc.domain is Some {
            None
        } else {
            match sp_domain_list(s, i) {
                None => None,
                Some((v, j)) => Some((ScanAcc { domain: Some(v), ..acc }, j)),
            }
        }
    } else if key == "dir"@ {
        if acc.dir is Some {
            None
        } else {
            match sp_dir_list(s, i) {
                None => None,
                Some((v, j)) => Some((ScanAcc { dir: Some(v), ..acc }, j)),
            }
        }
    } else {
        match sp_skip_value(s, i) {
            None => None,
            Some(j) => Some((acc, j)),
        }
    }
}

pub open spec fn sp_scan_fields(s: Seq<char>, i: int, acc: ScanAcc) -> Option<(ScanAcc, int)>
    decreases s.len() - i,
{
    match sp_string(s, i) {
        None => None,
        Some((key, j1)) => {
            let j2 = sp_ws(s, j1);
            if !(j2 < s.len() && s[j2] == ':') {
                None
            } else {
                let j3 = sp_ws(s, j2 + 1);
                match sp_scan_value(s, j3, acc, key) {
                    None => None,
                    Some((acc2, j4)) => {
                        let j5 = sp_ws(s, j4);
                        if j5 < s.len() && s[j5] == ',' {
                            let j6 = sp_ws(s, j5 + 1);
                            if i < j6 && j6 <= s.len() {
                                sp_scan_fields(s, j6, acc2)
                            } else {
                                None
                            }
                        } else if j5 < s.len() && s[j5] == '}' {
                            Some((acc2, j5 + 1))
                        } else {
                            None
                        }
                    },
                }
            }
        },
    }
}

/// All four categories are required keys of the aggregate.
pub open spec fn scan_finish(acc: ScanAcc) -> Option<SpecScanResult> {
    match (acc.port, acc.vulns, acc.domain, acc.dir) {
        (Some(port), Some(vulns), Some(domain), Some(dir)) => Some(
            SpecScanResult { port, vulns, domain, dir },
        ),
        _ => None,
    }
}

/// A complete aggregate object.
pub open spec fn sp_scan_obj(s: Seq<char>, i: int) -> Option<(SpecScanResult, int)> {
    if !(0 <= i < s.len() && s[i] == '{') {
        None
    } else {
        let j = sp_ws(s, i + 1);
        if j < s.len() && s[j] == '}' {
            None
        } else {
            match sp_scan_fields(s, j, scan_acc0()) {
                None => None,
                Some((acc, j2)) => match scan_finish(acc) {
                    None => None,
                    Some(v) => Some((v, j2)),
                },
            }
        }
    }
}

/// A whole document: one aggregate object, possibly surrounded by
/// whitespace, and nothing after it.
pub open spec fn sp_scan_doc(s: Seq<char>) -> Option<SpecScanResult> {
    let i = sp_ws(s, 0);
    match sp_scan_obj(s, i) {
        None => None,
        Some((v, j)) => {
            let j2 = sp_ws(s, j);
            if j2 == s.len() {
                Some(v)
            } else {
                None
            }
        },
    }
}

#[verifier::rlimit(100)]
pub(crate) fn p_scan_obj(s: &Vec<char>, i: usize) -> (r: Option<(ScanResult, usize)>)
    requires
        i <= s@.len(),
    ensures
        match r {
            Some(p) => sp_scan_obj(s@, i as int) == Some((p.0@, p.1 as int)) && i < p.1
                <= s@.len(),
            None => sp_scan_obj(s@, i as int) is None,
        },
{
    if i >= s.len() || s[i] != '{' {
        return None;
    }
    let j0 = skip_ws(s, i + 1);
    if j0 < s.len() && s[j0] == '}' {
        return None;
    }
    let mut port: Option<Vec<PortResultItem>> = None;
    let mut vulns: Option<Vec<VulnResultItem>> = None;
    let mut domain: Option<Vec<DomainResultItem>> = None;
    let mut dir: Option<Vec<DirResultItem>> = None;
    let mut j = j0;
    loop
        invariant
            i < s@.len(),
            s@[i as int] == '{',
            j0 as int == sp_ws(s@, i + 1 as int),
            !(j0 < s@.len() && s@[j0 as int] == '}'),
            i < j0 <= j <= s@.len(),
            sp_scan_fields(s@, j0 as int, scan_acc0()) == sp_scan_fields(
                s@,
                j as int,
                ScanAcc {
                    port: list_view(port),
                    vulns: vuln_list_view(vulns),
                    domain: domain_list_view(domain),
                    dir: dir_list_view(dir),
                },
            ),
        decreases s@.len() - j,
    {
        let ghost acc = ScanAcc {
            port: list_view(port),
            vulns: vuln_list_view(vulns),
            domain: domain_list_view(domain),
            dir: dir_list_view(dir),
        };
        let (key, j1) = match p_string(s, j) {
            None => {
                return None;
            },
            Some(p) => p,
        };
        let j2 = skip_ws(s, j1);
        if !(j2 < s.len()) {
            return None;
        }
        if s[j2] != ':' {
            return None;
        }
        let j3 = skip_ws(s, j2 + 1);
        let j4: usize;
        if key == String::from_str("port") {
            if port.is_some() {
                return None;
            }
            match p_port_list(s, j3) {
                None => {
                    return None;
                },
                Some((v, jj)) => {
                    port = Some(v);
                    j4 = jj;
                },
            }
        } else if key == String::from_str("vulns") {
            if vulns.is_some() {
                return None;
            }
            match p_vuln_list(s, j3) {
                None => {
                    return None;
                },
                Some((v, jj)) => {
                    vulns = Some(v);
                    j4 = jj;
                },
            }
        } else if key == String::from_str("domain") {
            if domain.is_some() {
                return None;
            }
            match p_domain_list(s, j3) {
                None => {
                    return None;
                },
                Some((v, jj)) => {
                    domain = Some(v);
                    j4 = jj;
                },
            }
        } else if key == String::from_str("dir") {
            if dir.is_some() {
                return None;
            }
            match p_dir_list(s, j3) {
                None => {
                    return None;
                },
                Some((v, jj)) => {
                    dir = Some(v);
                    j4 = jj;
                },
            }
        } else {
            match p_skip_value(s, j3) {
                None => {
                    return None;
                },
                Some(jj) => {
                    j4 = jj;
                },
            }
        }
        let ghost acc2 = ScanAcc {
            port: list_view(port),
            vulns: vuln_list_view(vulns),
            domain: domain_list_view(domain),
            dir: dir_list_view(dir),
        };
        proof {
            assert(sp_scan_value(s@, j3 as int, acc, key@) == Some((acc2, j4 as int)));
        }
        let j5 = skip_ws(s, j4);
        if j5 < s.len() && s[j5] == ',' {
            let j6 = skip_ws(s, j5 + 1);
            proof {
                assert(sp_scan_fields(s@, j as int, acc) == sp_scan_fields(s@, j6 as int, acc2));
            }
            j = j6;
        } else if j5 < s.len() && s[j5] == '}' {
            proof {
                assert(sp_scan_fields(s@, j as int, acc) == Some((acc2, j5 + 1 as int)));
            }
            let out_port = match port {
                Some(v) => v,
                None => {
                    return None;
                },
            };
            let out_vulns = match vulns {
                Some(v) => v,
                None => {
                    return None;
                },
            };
            let out_domain = match domain {
                Some(v) => v,
                None => {
                    return None;
                },
            };
            let out_dir = match dir {
                Some(v) => v,
                None => {
                    return None;
                },
            };
            return Some(
                (
                    ScanResult { port: out_port, vulns: out_vulns, domain: out_domain, dir: out_dir },
                    j5 + 1,
                ),
            );
        } else {
            return None;
        }
    }
}

impl ScanResult {
    /// Decode the canonical JSON text of an aggregate. Fails with a
    /// descriptive error when the text is not well-formed for this schema,
    /// when a required field is missing, or when a field has a value of the
    /// wrong type.
    pub fn from_json(text: &str) -> (r: Result<ScanResult, String>)
        ensures
            r matches Ok(v) ==> sp_scan_doc(text@) == Some(v@),
            r is Err ==> sp_scan_doc(text@) is None,
    {
        let chars = crate::text::str_to_chars(text);
        let i = skip_ws(&chars, 0);
        match p_scan_obj(&chars, i) {
            None => Err(String::from_str(
                "scan result decode error: malformed JSON, a missing required field, or a value of the wrong type",
            )),
            Some((v, j)) => {
                let j2 = skip_ws(&chars, j);
                if j2 != chars.len() {
                    Err(String::from_str(
                        "scan result decode error: text after the end of the object",
                    ))
                } else {
                    Ok(v)
                }
            },
        }
    }
}

} // verus!
