//! Canonical JSON encoding of the schema records: spec functions that give
//! the exact character sequence of every value, and executable encoders
//! proved to produce it. Field names are part of the wire contract; absent
//! optional fields are written as an explicit `null`.

use vstd::prelude::*;

use crate::schema::{
    DirResultItem, DomainResultItem, PortResultItem, ScanResult, SpecDirItem, SpecDomainItem,
    SpecPortItem, SpecScanResult, SpecVulnItem, VulnResultItem, opt_view,
};
use crate::text::{
    enc_str, enc_string, enc_u16, push_lit, push_string, push_u16,
};

verus! {

/// An optional string: `null` when absent, a string literal when present.
pub open spec fn enc_opt_string(o: Option<Seq<char>>) -> Seq<char> {
    match o {
        None => "null"@,
        Some(s) => enc_string(s),
    }
}

/// An optional number: `null` when absent, decimal digits when present.
pub open spec fn enc_opt_u16(o: Option<u16>) -> Seq<char> {
    match o {
        None => "null"@,
        Some(n) => enc_u16(n as int),
    }
}

pub open spec fn enc_port_item(p: SpecPortItem) -> Seq<char> {
    "{\"ip\":"@ + enc_string(p.ip) + ",\"port\":"@ + enc_u16(p.port as int) + ",\"protocol\":"@
        + enc_string(p.protocol) + ",\"banner\":"@ + enc_opt_string(p.banner) + ",\"extra\":"@
        + enc_opt_string(p.extra) + "}"@
}

pub open spec fn enc_vuln_item(p: SpecVulnItem) -> Seq<char> {
    "{\"title\":"@ + enc_string(p.title) + ",\"url\":"@ + enc_string(p.url) + ",\"description\":"@
        + enc_string(p.description) + "}"@
}

pub open spec fn enc_domain_item(p: SpecDomainItem) -> Seq<char> {
    "{\"domain\":"@ + enc_string(p.domain) + ",\"record_type\":"@ + enc_string(p.record_type)
        + ",\"record\":"@ + enc_string(p.record) + ",\"status_code\":"@ + enc_opt_u16(
        p.status_code,
    ) + ",\"title\":"@ + enc_opt_string(p.title) + ",\"content\":"@ + enc_opt_string(p.content)
        + ",\"screenshot\":"@ + enc_opt_string(p.screenshot) + ",\"extra\":"@ + enc_opt_string(
        p.extra,
    ) + "}"@
}

pub open spec fn enc_dir_item(p: SpecDirItem) -> Seq<char> {
    "{\"path\":"@ + enc_string(p.path) + ",\"status_code\":"@ + enc_u16(p.status_code as int)
        + ",\"method\":"@ + enc_string(p.method) + ",\"title\":"@ + enc_opt_string(p.title)
        + ",\"content\":"@ + enc_opt_string(p.content) + ",\"screenshot\":"@ + enc_opt_string(
        p.screenshot,
    ) + ",\"extra\":"@ + enc_opt_string(p.extra) + "}"@
}

// ---------------------------------------------------------------------------
// Lists
// ---------------------------------------------------------------------------

pub open spec fn enc_port_rest(items: Seq<SpecPortItem>) -> Seq<char>
    decreases items.len(),
{
    if items.len() == 0 {
        Seq::empty()
    } else {
        seq![','] + enc_port_item(items[0]) + enc_port_rest(items.drop_first())
    }
}

pub open spec fn enc_port_list(items: Seq<SpecPortItem>) -> Seq<char> {
    if items.len() == 0 {
        "[]"@
    } else {
        seq!['['] + enc_port_item(items[0]) + enc_port_rest(items.drop_first()) + seq![']']
    }
}

pub open spec fn enc_vuln_rest(items: Seq<SpecVulnItem>) -> Seq<char>
    decreases items.len(),
{
    if items.len() == 0 {
        Seq::empty()
    } else {
        seq![','] + enc_vuln_item(items[0]) + enc_vuln_rest(items.drop_first())
    }
}

pub open spec fn enc_vuln_list(items: Seq<SpecVulnItem>) -> Seq<char> {
    if items.len() == 0 {
        "[]"@
    } else {
        seq!['['] + enc_vuln_item(items[0]) + enc_vuln_rest(items.drop_first()) + seq![']']
    }
}

pub open spec fn enc_domain_rest(items: Seq<SpecDomainItem>) -> Seq<char>
    decreases items.len(),
{
    if items.len() == 0 {
        Seq::empty()
    } else {
        seq![','] + enc_domain_item(items[0]) + enc_domain_rest(items.drop_first())
    }
}

pub open spec fn enc_domain_list(items: Seq<SpecDomainItem>) -> Seq<char> {
    if items.len() == 0 {
        "[]"@
    } else {
        seq!['['] + enc_domain_item(items[0]) + enc_domain_rest(items.drop_first()) + seq![']']
    }
}

pub open spec fn enc_dir_rest(items: Seq<SpecDirItem>) -> Seq<char>
    decreases items.len(),
{
    if items.len() == 0 {
        Seq::empty()
    } else {
        seq![','] + enc_dir_item(items[0]) + enc_dir_rest(items.drop_first())
    }
}

pub open spec fn enc_dir_list(items: Seq<SpecDirItem>) -> Seq<char> {
    if items.len() == 0 {
        "[]"@
    } else {
        seq!['['] + enc_dir_item(items[0]) + enc_dir_rest(items.drop_first()) + seq![']']
    }
}

/// The whole aggregate, with its four category keys in canonical order.
pub open spec fn enc_scan_result(m: SpecScanResult) -> Seq<char> {
    "{\"port\":"@ + enc_port_list(m.port) + ",\"vulns\":"@ + enc_vuln_list(m.vulns)
        + ",\"domain\":"@ + enc_domain_list(m.domain) + ",\"dir\":"@ + enc_dir_list(m.dir) + "}"@
}

#[verifier::rlimit(50)]
pub proof fn lemma_enc_port_rest_snoc(t: Seq<SpecPortItem>, x: SpecPortItem)
    ensures
        enc_port_rest(t.push(x)) == enc_port_rest(t) + seq![','] + enc_port_item(x),
    decreases t.len(),
{
    if t.len() == 0 {
        assert(t =~= Seq::<SpecPortItem>::empty());
        assert(t.push(x).drop_first() =~= t);
        assert(t.push(x)[0] == x);
        assert(enc_port_rest(t.push(x)) =~= enc_port_rest(t) + seq![','] + enc_port_item(x));
    } else {
        assert(t.push(x)[0] == t[0]);
        assert(t.push(x).drop_first() =~= t.drop_first().push(x));
        lemma_enc_port_rest_snoc(t.drop_first(), x);
        assert(enc_port_rest(t.push(x)) == seq![','] + enc_port_item(t[0]) + enc_port_rest(
            t.drop_first().push(x),
        ));
        assert(seq![','] + enc_port_item(t[0]) + (enc_port_rest(t.drop_first()) + seq![',']
            + enc_port_item(x)) =~= (seq![','] + enc_port_item(t[0]) + enc_port_rest(
            t.drop_first(),
        )) + seq![','] + enc_port_item(x));
    }
}

#[verifier::rlimit(50)]
pub proof fn lemma_enc_vuln_rest_snoc(t: Seq<SpecVulnItem>, x: SpecVulnItem)
    ensures
        enc_vuln_rest(t.push(x)) == enc_vuln_rest(t) + seq![','] + enc_vuln_item(x),
    decreases t.len(),
{
    if t.len() == 0 {
        assert(t =~= Seq::<SpecVulnItem>::empty());
        assert(t.push(x).drop_first() =~= t);
        assert(t.push(x)[0] == x);
        assert(enc_vuln_rest(t.push(x)) =~= enc_vuln_rest(t) + seq![','] + enc_vuln_item(x));
    } else {
        assert(t.push(x)[0] == t[0]);
        assert(t.push(x).drop_first() =~= t.drop_first().push(x));
        lemma_enc_vuln_rest_snoc(t.drop_first(), x);
        assert(enc_vuln_rest(t.push(x)) == seq![','] + enc_vuln_item(t[0]) + enc_vuln_rest(
            t.drop_first().push(x),
        ));
        assert(seq![','] + enc_vuln_item(t[0]) + (enc_vuln_rest(t.drop_first()) + seq![',']
            + enc_vuln_item(x)) =~= (seq![','] + enc_vuln_item(t[0]) + enc_vuln_rest(
            t.drop_first(),
        )) + seq![','] + enc_vuln_item(x));
    }
}

#[verifier::rlimit(50)]
pub proof fn lemma_enc_domain_rest_snoc(t: Seq<SpecDomainItem>, x: SpecDomainItem)
    ensures
        enc_domain_rest(t.push(x)) == enc_domain_rest(t) + seq![','] + enc_domain_item(x),
    decreases t.len(),
{
    if t.len() == 0 {
        assert(t =~= Seq::<SpecDomainItem>::empty());
        assert(t.push(x).drop_first() =~= t);
        assert(t.push(x)[0] == x);
        assert(enc_domain_rest(t.push(x)) =~= enc_domain_rest(t) + seq![','] + enc_domain_item(x));
    } else {
        assert(t.push(x)[0] == t[0]);
        assert(t.push(x).drop_first() =~= t.drop_first().push(x));
        lemma_enc_domain_rest_snoc(t.drop_first(), x);
        assert(enc_domain_rest(t.push(x)) == seq![','] + enc_domain_item(t[0]) + enc_domain_rest(
            t.drop_first().push(x),
        ));
        assert(seq![','] + enc_domain_item(t[0]) + (enc_domain_rest(t.drop_first()) + seq![',']
            + enc_domain_item(x)) =~= (seq![','] + enc_domain_item(t[0]) + enc_domain_rest(
            t.drop_first(),
        )) + seq![','] + enc_domain_item(x));
    }
}

#[verifier::rlimit(50)]
pub proof fn lemma_enc_dir_rest_snoc(t: Seq<SpecDirItem>, x: SpecDirItem)
    ensures
        enc_dir_rest(t.push(x)) == enc_dir_rest(t) + seq![','] + enc_dir_item(x),
    decreases t.len(),
{
    if t.len() == 0 {
        assert(t =~= Seq::<SpecDirItem>::empty());
        assert(t.push(x).drop_first() =~= t);
        assert(t.push(x)[0] == x);
        assert(enc_dir_rest(t.push(x)) =~= enc_dir_rest(t) + seq![','] + enc_dir_item(x));
    } else {
        assert(t.push(x)[0] == t[0]);
        assert(t.push(x).drop_first() =~= t.drop_first().push(x));
        lemma_enc_dir_rest_snoc(t.drop_first(), x);
        assert(enc_dir_rest(t.push(x)) == seq![','] + enc_dir_item(t[0]) + enc_dir_rest(
            t.drop_first().push(x),
        ));
        assert(seq![','] + enc_dir_item(t[0]) + (enc_dir_rest(t.drop_first()) + seq![',']
            + enc_dir_item(x)) =~= (seq![','] + enc_dir_item(t[0]) + enc_dir_rest(
            t.drop_first(),
        )) + seq![','] + enc_dir_item(x));
    }
}

// ---------------------------------------------------------------------------
// Executable encoders
// ---------------------------------------------------------------------------

pub(crate) fn push_opt_string(out: &mut Vec<char>, o: &Option<String>)
    ensures
        final(out)@ == old(out)@ + enc_opt_string(opt_view(*o)),
{
    match o {
        None => {
            push_lit(out, "null");
        },
        Some(s) => {
            push_string(out, s.as_str());
        },
    }
}

pub(crate) fn push_opt_u16(out: &mut Vec<char>, o: &Option<u16>)
    ensures
        final(out)@ == old(out)@ + enc_opt_u16(*o),
{
    match o {
        None => {
            push_lit(out, "null");
        },
        Some(n) => {
            push_u16(out, *n);
        },
    }
}

pub(crate) fn push_port_item(out: &mut Vec<char>, p: &PortResultItem)
    ensures
        final(out)@ == old(out)@ + enc_port_item(p@),
{
    push_lit(out, "{\"ip\":");
    push_string(out, p.ip.as_str());
    push_lit(out, ",\"port\":");
    push_u16(out, p.port);
    push_lit(out, ",\"protocol\":");
    push_string(out, p.protocol.as_str());
    push_lit(out, ",\"banner\":");
    push_opt_string(out, &p.banner);
    push_lit(out, ",\"extra\":");
    push_opt_string(out, &p.extra);
    push_lit(out, "}");
    proof {
        assert(out@ =~= old(out)@ + enc_port_item(p@));
    }
}

pub(crate) fn push_vuln_item(out: &mut Vec<char>, p: &VulnResultItem)
    ensures
        final(out)@ == old(out)@ + enc_vuln_item(p@),
{
    push_lit(out, "{\"title\":");
    push_string(out, p.title.as_str());
    push_lit(out, ",\"url\":");
    push_string(out, p.url.as_str());
    push_lit(out, ",\"description\":");
    push_string(out, p.description.as_str());
    push_lit(out, "}");
    proof {
        assert(out@ =~= old(out)@ + enc_vuln_item(p@));
    }
}

pub(crate) fn push_domain_item(out: &mut Vec<char>, p: &DomainResultItem)
    ensures
        final(out)@ == old(out)@ + enc_domain_item(p@),
{
    push_lit(out, "{\"domain\":");
    push_string(out, p.domain.as_str());
    push_lit(out, ",\"record_type\":");
    push_string(out, p.record_type.as_str());
    push_lit(out, ",\"record\":");
    push_string(out, p.record.as_str());
    push_lit(out, ",\"status_code\":");
    push_opt_u16(out, &p.status_code);
    push_lit(out, ",\"title\":");
    push_opt_string(out, &p.title);
    push_lit(out, ",\"content\":");
    push_opt_string(out, &p.content);
    push_lit(out, ",\"screenshot\":");
    push_opt_string(out, &p.screenshot);
    push_lit(out, ",\"extra\":");
    push_opt_string(out, &p.extra);
    push_lit(out, "}");
    proof {
        assert(out@ =~= old(out)@ + enc_domain_item(p@));
    }
}

pub(crate) fn push_dir_item(out: &mut Vec<char>, p: &DirResultItem)
    ensures
        final(out)@ == old(out)@ + enc_dir_item(p@),
{
    push_lit(out, "{\"path\":");
    push_string(out, p.path.as_str());
    push_lit(out, ",\"status_code\":");
    push_u16(out, p.status_code);
    push_lit(out, ",\"method\":");
    push_string(out, p.method.as_str());
    push_lit(out, ",\"title\":");
    push_opt_string(out, &p.title);
    push_lit(out, ",\"content\":");
    push_opt_string(out, &p.content);
    push_lit(out, ",\"screenshot\":");
    push_opt_string(out, &p.screenshot);
    push_lit(out, ",\"extra\":");
    push_opt_string(out, &p.extra);
    push_lit(out, "}");
    proof {
        assert(out@ =~= old(out)@ + enc_dir_item(p@));
    }
}

pub(crate) fn push_port_list(out: &mut Vec<char>, items: &Vec<PortResultItem>)
    ensures
        final(out)@ == old(out)@ + enc_port_list(items.deep_view()),
{
    let ghost dv = items.deep_view();
    if items.len() == 0 {
        push_lit(out, "[]");
        return ;
    }
    out.push('[');
    push_port_item(out, &items[0]);
    proof {
        assert(dv.take(1).drop_first() =~= Seq::<SpecPortItem>::empty());
        assert(out@ =~= old(out)@ + seq!['['] + enc_port_item(dv[0]) + enc_port_rest(
            dv.take(1).drop_first(),
        ));
    }
    let mut k: usize = 1;
    while k < items.len()
        invariant
            1 <= k <= dv.len(),
            dv == items.deep_view(),
            dv.len() == items@.len(),
            out@ == old(out)@ + seq!['['] + enc_port_item(dv[0]) + enc_port_rest(
                dv.take(k as int).drop_first(),
            ),
        decreases dv.len() - k,
    {
        out.push(',');
        push_port_item(out, &items[k]);
        proof {
            lemma_enc_port_rest_snoc(dv.take(k as int).drop_first(), dv[k as int]);
            assert(dv.take(k + 1 as int).drop_first() =~= dv.take(k as int).drop_first().push(
                dv[k as int],
            ));
            assert(out@ =~= old(out)@ + seq!['['] + enc_port_item(dv[0]) + enc_port_rest(
                dv.take(k + 1 as int).drop_first(),
            ));
        }
        k = k + 1;
    }
    out.push(']');
    proof {
        assert(dv.take(dv.len() as int) =~= dv);
        assert(out@ =~= old(out)@ + enc_port_list(dv));
    }
}

pub(crate) fn push_vuln_list(out: &mut Vec<char>, items: &Vec<VulnResultItem>)
    ensures
        final(out)@ == old(out)@ + enc_vuln_list(items.deep_view()),
{
    let ghost dv = items.deep_view();
    if items.len() == 0 {
        push_lit(out, "[]");
        return ;
    }
    out.push('[');
    push_vuln_item(out, &items[0]);
    proof {
        assert(dv.take(1).drop_first() =~= Seq::<SpecVulnItem>::empty());
        assert(out@ =~= old(out)@ + seq!['['] + enc_vuln_item(dv[0]) + enc_vuln_rest(
            dv.take(1).drop_first(),
        ));
    }
    let mut k: usize = 1;
    while k < items.len()
        invariant
            1 <= k <= dv.len(),
            dv == items.deep_view(),
            dv.len() == items@.len(),
            out@ == old(out)@ + seq!['['] + enc_vuln_item(dv[0]) + enc_vuln_rest(
                dv.take(k as int).drop_first(),
            ),
        decreases dv.len() - k,
    {
        out.push(',');
        push_vuln_item(out, &items[k]);
        proof {
            lemma_enc_vuln_rest_snoc(dv.take(k as int).drop_first(), dv[k as int]);
            assert(dv.take(k + 1 as int).drop_first() =~= dv.take(k as int).drop_first().push(
                dv[k as int],
            ));
            assert(out@ =~= old(out)@ + seq!['['] + enc_vuln_item(dv[0]) + enc_vuln_rest(
                dv.take(k + 1 as int).drop_first(),
            ));
        }
        k = k + 1;
    }
    out.push(']');
    proof {
        assert(dv.take(dv.len() as int) =~= dv);
        assert(out@ =~= old(out)@ + enc_vuln_list(dv));
    }
}

pub(crate) fn push_domain_list(out: &mut Vec<char>, items: &Vec<DomainResultItem>)
    ensures
        final(out)@ == old(out)@ + enc_domain_list(items.deep_view()),
{
    let ghost dv = items.deep_view();
    if items.len() == 0 {
        push_lit(out, "[]");
        return ;
    }
    out.push('[');
    push_domain_item(out, &items[0]);
    proof {
        assert(dv.take(1).drop_first() =~= Seq::<SpecDomainItem>::empty());
        assert(out@ =~= old(out)@ + seq!['['] + enc_domain_item(dv[0]) + enc_domain_rest(
            dv.take(1).drop_first(),
        ));
    }
    let mut k: usize = 1;
    while k < items.len()
        invariant
            1 <= k <= dv.len(),
            dv == items.deep_view(),
            dv.len() == items@.len(),
            out@ == old(out)@ + seq!['['] + enc_domain_item(dv[0]) + enc_domain_rest(
                dv.take(k as int).drop_first(),
            ),
        decreases dv.len() - k,
    {
        out.push(',');
        push_domain_item(out, &items[k]);
        proof {
            lemma_enc_domain_rest_snoc(dv.take(k as int).drop_first(), dv[k as int]);
            assert(dv.take(k + 1 as int).drop_first() =~= dv.take(k as int).drop_first().push(
                dv[k as int],
            ));
            assert(out@ =~= old(out)@ + seq!['['] + enc_domain_item(dv[0]) + enc_domain_rest(
                dv.take(k + 1 as int).drop_first(),
            ));
        }
        k = k + 1;
    }
    out.push(']');
    proof {
        assert(dv.take(dv.len() as int) =~= dv);
        assert(out@ =~= old(out)@ + enc_domain_list(dv));
    }
}

pub(crate) fn push_dir_list(out: &mut Vec<char>, items: &Vec<DirResultItem>)
    ensures
        final(out)@ == old(out)@ + enc_dir_list(items.deep_view()),
{
    let ghost dv = items.deep_view();
    if items.len() == 0 {
        push_lit(out, "[]");
        return ;
    }
    out.push('[');
    push_dir_item(out, &items[0]);
    proof {
        assert(dv.take(1).drop_first() =~= Seq::<SpecDirItem>::empty());
        assert(out@ =~= old(out)@ + seq!['['] + enc_dir_item(dv[0]) + enc_dir_rest(
            dv.take(1).drop_first(),
        ));
    }
    let mut k: usize = 1;
    while k < items.len()
        invariant
            1 <= k <= dv.len(),
            dv == items.deep_view(),
            dv.len() == items@.len(),
            out@ == old(out)@ + seq!['['] + enc_dir_item(dv[0]) + enc_dir_rest(
                dv.take(k as int).drop_first(),
            ),
        decreases dv.len() - k,
    {
        out.push(',');
        push_dir_item(out, &items[k]);
        proof {
            lemma_enc_dir_rest_snoc(dv.take(k as int).drop_first(), dv[k as int]);
            assert(dv.take(k + 1 as int).drop_first() =~= dv.take(k as int).drop_first().push(
                dv[k as int],
            ));
            assert(out@ =~= old(out)@ + seq!['['] + enc_dir_item(dv[0]) + enc_dir_rest(
                dv.take(k + 1 as int).drop_first(),
            ));
        }
        k = k + 1;
    }
    out.push(']');
    proof {
        assert(dv.take(dv.len() as int) =~= dv);
        assert(out@ =~= old(out)@ + enc_dir_list(dv));
    }
}

impl ScanResult {
    /// The canonical JSON text of this aggregate.
    pub fn to_json(&self) -> (r: String)
        ensures
            r@ == enc_scan_result(self@),
    {
        let mut out: Vec<char> = Vec::new();
        push_lit(&mut out, "{\"port\":");
        push_port_list(&mut out, &self.port);
        push_lit(&mut out, ",\"vulns\":");
        push_vuln_list(&mut out, &self.vulns);
        push_lit(&mut out, ",\"domain\":");
        push_domain_list(&mut out, &self.domain);
        push_lit(&mut out, ",\"dir\":");
        push_dir_list(&mut out, &self.dir);
        push_lit(&mut out, "}");
        proof {
            assert(out@ =~= enc_scan_result(self@));
        }
        crate::text::chars_to_string(out)
    }
}

} // verus!
