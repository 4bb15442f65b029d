//! The round-trip law of the wire contract: decoding the canonical encoding
//! of any aggregate restores a value equal in all fields, order preserved,
//! absent optional fields kept distinct from present-but-empty ones.

use vstd::prelude::*;

use crate::decode::{
    DirAcc, DomainAcc, PortAcc, ScanAcc, VulnAcc, dir_acc0, dir_finish, domain_acc0,
    domain_finish, port_acc0, port_finish, scan_acc0, scan_finish, sp_dir_fields, sp_dir_item,
    sp_dir_list, sp_dir_more, sp_domain_fields, sp_domain_item, sp_domain_list, sp_domain_more,
    vuln_acc0, vuln_finish, sp_null, sp_opt_string, sp_opt_u16, sp_port_fields, sp_port_item, sp_port_list, sp_port_more,
    sp_scan_doc, sp_scan_fields, sp_scan_obj, sp_scan_value, sp_vuln_fields, sp_vuln_item, sp_vuln_list,
    sp_vuln_more,
};
use crate::encode::{
    enc_dir_item, enc_dir_list, enc_dir_rest, enc_domain_item, enc_domain_list, enc_domain_rest,
    enc_opt_string, enc_opt_u16, enc_port_item, enc_port_list, enc_port_rest, enc_scan_result,
    enc_vuln_item, enc_vuln_list, enc_vuln_rest,
};
use crate::schema::{SpecDirItem, SpecDomainItem, SpecPortItem, SpecScanResult, SpecVulnItem};
use crate::text::{
    enc_str, enc_string, enc_u16, is_digit, is_ws, lemma_enc_str_plain, lemma_enc_u16_props,
    lemma_sp_ws_stay, lemma_string_rt, lemma_text_at_concat, lemma_text_at_index, lemma_u16_rt,
    plain_char, sp_string, sp_u16, sp_ws, text_at,
};

verus! {

/// A complete string literal starts with a quote and is at least two
/// characters long.
pub proof fn lemma_enc_string_shape(c: Seq<char>)
    ensures
        enc_string(c).len() >= 2,
        enc_string(c)[0] == '"',
{
    assert(enc_string(c)[0] == (seq!['"'] + enc_str(c))[0]);
}

/// Round trip of an optional string value.
pub proof fn lemma_opt_string_rt(s: Seq<char>, i: int, o: Option<Seq<char>>)
    requires
        text_at(s, i, enc_opt_string(o)),
    ensures
        sp_opt_string(s, i) == Some((o, i + enc_opt_string(o).len())),
{
    match o {
        None => {
            reveal_strlit("null");
            lemma_text_at_index(s, i, "null"@, 0);
            lemma_text_at_index(s, i, "null"@, 1);
            lemma_text_at_index(s, i, "null"@, 2);
            lemma_text_at_index(s, i, "null"@, 3);
            assert(sp_null(s, i));
        },
        Some(c) => {
            lemma_enc_string_shape(c);
            lemma_text_at_index(s, i, enc_string(c), 0);
            assert(s[i] == '"');
            assert(!sp_null(s, i));
            lemma_string_rt(s, i, c);
        },
    }
}

/// Round trip of an optional number value, provided no digit follows it.
pub proof fn lemma_opt_u16_rt(s: Seq<char>, i: int, o: Option<u16>)
    requires
        text_at(s, i, enc_opt_u16(o)),
        i + enc_opt_u16(o).len() == s.len() || !is_digit(s[i + enc_opt_u16(o).len()]),
    ensures
        sp_opt_u16(s, i) == Some((o, i + enc_opt_u16(o).len())),
{
    match o {
        None => {
            reveal_strlit("null");
            lemma_text_at_index(s, i, "null"@, 0);
            lemma_text_at_index(s, i, "null"@, 1);
            lemma_text_at_index(s, i, "null"@, 2);
            lemma_text_at_index(s, i, "null"@, 3);
            assert(sp_null(s, i));
        },
        Some(n) => {
            lemma_enc_u16_props(n as int);
            lemma_text_at_index(s, i, enc_u16(n as int), 0);
            assert(is_digit(s[i]));
            assert(!sp_null(s, i));
            lemma_u16_rt(s, i, n);
        },
    }
}

/// Parsing a plain (escape-free) key literal.
pub proof fn lemma_key_rt(s: Seq<char>, i: int, k: Seq<char>)
    requires
        text_at(s, i, enc_string(k)),
        forall|x: int| 0 <= x < k.len() ==> plain_char(k[x]),
    ensures
        sp_string(s, i) == Some((k, i + k.len() + 2)),
{
    lemma_enc_str_plain(k);
    lemma_string_rt(s, i, k);
}

/// Round trip of one port record.
#[verifier::rlimit(100)]
pub proof fn lemma_port_item_rt(s: Seq<char>, i: int, v: SpecPortItem)
    requires
        text_at(s, i, enc_port_item(v)),
    ensures
        sp_port_item(s, i) == Some((v, i + enc_port_item(v).len())),
{
    reveal_strlit("{\"ip\":");
    reveal_strlit(",\"port\":");
    reveal_strlit(",\"protocol\":");
    reveal_strlit(",\"banner\":");
    reveal_strlit(",\"extra\":");
    reveal_strlit("}");
    reveal_strlit("ip");
    reveal_strlit("port");
    reveal_strlit("protocol");
    reveal_strlit("banner");
    reveal_strlit("extra");
    let e = enc_port_item(v);
    let c0 = "{\"ip\":"@;
    let c1 = enc_string(v.ip);
    let c2 = ",\"port\":"@;
    let c3 = enc_u16(v.port as int);
    let c4 = ",\"protocol\":"@;
    let c5 = enc_string(v.protocol);
    let c6 = ",\"banner\":"@;
    let c7 = enc_opt_string(v.banner);
    let c8 = ",\"extra\":"@;
    let c9 = enc_opt_string(v.extra);
    let c10 = "}"@;
    // peel the concatenation from the right
    let p9 = c0 + c1 + c2 + c3 + c4 + c5 + c6 + c7 + c8 + c9;
    let p8 = c0 + c1 + c2 + c3 + c4 + c5 + c6 + c7 + c8;
    let p7 = c0 + c1 + c2 + c3 + c4 + c5 + c6 + c7;
    let p6 = c0 + c1 + c2 + c3 + c4 + c5 + c6;
    let p5 = c0 + c1 + c2 + c3 + c4 + c5;
    let p4 = c0 + c1 + c2 + c3 + c4;
    let p3 = c0 + c1 + c2 + c3;
    let p2 = c0 + c1 + c2;
    let p1 = c0 + c1;
    lemma_text_at_concat(s, i, p9, c10);
    lemma_text_at_concat(s, i, p8, c9);
    lemma_text_at_concat(s, i, p7, c8);
    lemma_text_at_concat(s, i, p6, c7);
    lemma_text_at_concat(s, i, p5, c6);
    lemma_text_at_concat(s, i, p4, c5);
    lemma_text_at_concat(s, i, p3, c4);
    lemma_text_at_concat(s, i, p2, c3);
    lemma_text_at_concat(s, i, p1, c2);
    lemma_text_at_concat(s, i, c0, c1);
    // positions of the pieces
    let q1 = i + p1.len() - c1.len();
    let q3 = i + p3.len() - c3.len();
    let q5 = i + p5.len() - c5.len();
    let q7 = i + p7.len() - c7.len();
    let q9 = i + p9.len() - c9.len();
    // the object itself
    lemma_text_at_index(s, i, c0, 0);
    lemma_text_at_index(s, i, c0, 1);
    assert(s[i] == '{' && s[i + 1] == '"');
    lemma_sp_ws_stay(s, i + 1);
    // key "ip" sits inside the opening literal
    assert(text_at(s, i + 1, enc_string("ip"@))) by {
        lemma_enc_str_plain("ip"@);
        assert(enc_string("ip"@).len() == 4);
        assert forall|x: int| 0 <= x < 4 implies s[i + 1 + x] == enc_string("ip"@)[x] by {
            lemma_text_at_index(s, i, c0, 1 + x);
        }
    }
    lemma_key_rt(s, i + 1, "ip"@);
    lemma_text_at_index(s, i, c0, 5);
    assert(s[i + 5] == ':');
    lemma_sp_ws_stay(s, i + 5);
    lemma_enc_string_shape(v.ip);
    lemma_text_at_index(s, q1, c1, 0);
    assert(s[q1] == '"' && !is_ws('"'));
    lemma_sp_ws_stay(s, q1);
    lemma_string_rt(s, q1, v.ip);
    // separator and key "port"
    lemma_text_at_index(s, q1 + c1.len(), c2, 0);
    lemma_text_at_index(s, q1 + c1.len(), c2, 1);
    assert(s[q1 + c1.len()] == ',');
    lemma_sp_ws_stay(s, q1 + c1.len());
    lemma_sp_ws_stay(s, q1 + c1.len() + 1);
    assert(text_at(s, q1 + c1.len() + 1, enc_string("port"@))) by {
        lemma_enc_str_plain("port"@);
        assert(enc_string("port"@).len() == 6);
        assert forall|x: int| 0 <= x < 6 implies s[q1 + c1.len() + 1 + x] == enc_string(
            "port"@,
        )[x] by {
            lemma_text_at_index(s, q1 + c1.len(), c2, 1 + x);
        }
    }
    lemma_key_rt(s, q1 + c1.len() + 1, "port"@);
    lemma_text_at_index(s, q1 + c1.len(), c2, 7);
    assert(s[q1 + c1.len() + 7] == ':');
    lemma_sp_ws_stay(s, q1 + c1.len() + 7);
    lemma_enc_u16_props(v.port as int);
    lemma_text_at_index(s, q3, c3, 0);
    assert(is_digit(s[q3]) && !is_ws(s[q3]));
    lemma_sp_ws_stay(s, q3);
    lemma_text_at_index(s, q3 + c3.len(), c4, 0);
    assert(s[q3 + c3.len()] == ',' && !is_digit(','));
    lemma_u16_rt(s, q3, v.port);
    // separator and key "protocol"
    lemma_text_at_index(s, q3 + c3.len(), c4, 1);
    lemma_sp_ws_stay(s, q3 + c3.len());
    lemma_sp_ws_stay(s, q3 + c3.len() + 1);
    assert(text_at(s, q3 + c3.len() + 1, enc_string("protocol"@))) by {
        lemma_enc_str_plain("protocol"@);
        assert(enc_string("protocol"@).len() == 10);
        assert forall|x: int| 0 <= x < 10 implies s[q3 + c3.len() + 1 + x] == enc_string(
            "protocol"@,
        )[x] by {
            lemma_text_at_index(s, q3 + c3.len(), c4, 1 + x);
        }
    }
    lemma_key_rt(s, q3 + c3.len() + 1, "protocol"@);
    lemma_text_at_index(s, q3 + c3.len(), c4, 11);
    assert(s[q3 + c3.len() + 11] == ':');
    lemma_sp_ws_stay(s, q3 + c3.len() + 11);
    lemma_enc_string_shape(v.protocol);
    lemma_text_at_index(s, q5, c5, 0);
    lemma_sp_ws_stay(s, q5);
    lemma_string_rt(s, q5, v.protocol);
    // separator and key "banner"
    lemma_text_at_index(s, q5 + c5.len(), c6, 0);
    lemma_text_at_index(s, q5 + c5.len(), c6, 1);
    lemma_sp_ws_stay(s, q5 + c5.len());
    lemma_sp_ws_stay(s, q5 + c5.len() + 1);
    assert(text_at(s, q5 + c5.len() + 1, enc_string("banner"@))) by {
        lemma_enc_str_plain("banner"@);
        assert(enc_string("banner"@).len() == 8);
        assert forall|x: int| 0 <= x < 8 implies s[q5 + c5.len() + 1 + x] == enc_string(
            "banner"@,
        )[x] by {
            lemma_text_at_index(s, q5 + c5.len(), c6, 1 + x);
        }
    }
    lemma_key_rt(s, q5 + c5.len() + 1, "banner"@);
    lemma_text_at_index(s, q5 + c5.len(), c6, 9);
    assert(s[q5 + c5.len() + 9] == ':');
    lemma_sp_ws_stay(s, q5 + c5.len() + 9);
    assert(!is_ws(s[q7]) && s[q7] != '}') by {
        match v.banner {
            None => {
                reveal_strlit("null");
                lemma_text_at_index(s, q7, c7, 0);
            },
            Some(c) => {
                lemma_enc_string_shape(c);
                lemma_text_at_index(s, q7, c7, 0);
            },
        }
    }
    lemma_sp_ws_stay(s, q7);
    lemma_opt_string_rt(s, q7, v.banner);
    // separator and key "extra"
    lemma_text_at_index(s, q7 + c7.len(), c8, 0);
    lemma_text_at_index(s, q7 + c7.len(), c8, 1);
    lemma_sp_ws_stay(s, q7 + c7.len());
    lemma_sp_ws_stay(s, q7 + c7.len() + 1);
    assert(text_at(s, q7 + c7.len() + 1, enc_string("extra"@))) by {
        lemma_enc_str_plain("extra"@);
        assert(enc_string("extra"@).len() == 7);
        assert forall|x: int| 0 <= x < 7 implies s[q7 + c7.len() + 1 + x] == enc_string(
            "extra"@,
        )[x] by {
            lemma_text_at_index(s, q7 + c7.len(), c8, 1 + x);
        }
    }
    lemma_key_rt(s, q7 + c7.len() + 1, "extra"@);
    lemma_text_at_index(s, q7 + c7.len(), c8, 8);
    assert(s[q7 + c7.len() + 8] == ':');
    lemma_sp_ws_stay(s, q7 + c7.len() + 8);
    assert(!is_ws(s[q9]) && s[q9] != '}') by {
        match v.extra {
            None => {
                reveal_strlit("null");
                lemma_text_at_index(s, q9, c9, 0);
            },
            Some(c) => {
                lemma_enc_string_shape(c);
                lemma_text_at_index(s, q9, c9, 0);
            },
        }
    }
    lemma_sp_ws_stay(s, q9);
    lemma_opt_string_rt(s, q9, v.extra);
    // closing brace
    lemma_text_at_index(s, q9 + c9.len(), c10, 0);
    assert(s[q9 + c9.len()] == '}');
    lemma_sp_ws_stay(s, q9 + c9.len());
    // walk the field list
    let acc0 = port_acc0();
    let acc1 = PortAcc { ip: Some(v.ip), ..acc0 };
    let acc2 = PortAcc { port: Some(v.port), ..acc1 };
    let acc3 = PortAcc { protocol: Some(v.protocol), ..acc2 };
    let acc4 = PortAcc { banner: Some(v.banner), ..acc3 };
    let acc5 = PortAcc { extra: Some(v.extra), ..acc4 };
    assert(sp_port_fields(s, q7 + c7.len() + 1, acc4) == Some((acc5, q9 + c9.len() + 1)));
    assert(sp_port_fields(s, q5 + c5.len() + 1, acc3) == Some((acc5, q9 + c9.len() + 1)));
    assert(sp_port_fields(s, q3 + c3.len() + 1, acc2) == Some((acc5, q9 + c9.len() + 1)));
    assert(sp_port_fields(s, q1 + c1.len() + 1, acc1) == Some((acc5, q9 + c9.len() + 1)));
    assert(sp_port_fields(s, i + 1, acc0) == Some((acc5, q9 + c9.len() + 1)));
    assert(port_finish(acc5) == Some(v)) by {
        assert(port_finish(acc5)->0 =~= v);
    }
    assert(sp_port_item(s, i) == Some((v, i + e.len())));
}

pub proof fn lemma_enc_port_item_shape(v: SpecPortItem)
    ensures
        enc_port_item(v).len() >= 2,
        enc_port_item(v)[0] == '{',
{
    reveal_strlit("{\"ip\":");
    let c0 = "{\"ip\":"@;
    assert(enc_port_item(v)[0] == c0[0]);
}

pub proof fn lemma_enc_vuln_item_shape(v: SpecVulnItem)
    ensures
        enc_vuln_item(v).len() >= 2,
        enc_vuln_item(v)[0] == '{',
{
    reveal_strlit("{\"title\":");
    let c0 = "{\"title\":"@;
    assert(enc_vuln_item(v)[0] == c0[0]);
}

pub proof fn lemma_enc_domain_item_shape(v: SpecDomainItem)
    ensures
        enc_domain_item(v).len() >= 2,
        enc_domain_item(v)[0] == '{',
{
    reveal_strlit("{\"domain\":");
    let c0 = "{\"domain\":"@;
    assert(enc_domain_item(v)[0] == c0[0]);
}

pub proof fn lemma_enc_dir_item_shape(v: SpecDirItem)
    ensures
        enc_dir_item(v).len() >= 2,
        enc_dir_item(v)[0] == '{',
{
    reveal_strlit("{\"path\":");
    let c0 = "{\"path\":"@;
    assert(enc_dir_item(v)[0] == c0[0]);
}

/// Round trip of one vuln record.
#[verifier::rlimit(100)]
pub proof fn lemma_vuln_item_rt(s: Seq<char>, i: int, v: SpecVulnItem)
    requires
        text_at(s, i, enc_vuln_item(v)),
    ensures
        sp_vuln_item(s, i) == Some((v, i + enc_vuln_item(v).len())),
{
    reveal_strlit("{\"title\":");
    reveal_strlit(",\"url\":");
    reveal_strlit(",\"description\":");
    reveal_strlit("}");
    reveal_strlit("title");
    reveal_strlit("url");
    reveal_strlit("description");
    let e = enc_vuln_item(v);
    let c0 = "{\"title\":"@;
    let c1 = enc_string(v.title);
    let c2 = ",\"url\":"@;
    let c3 = enc_string(v.url);
    let c4 = ",\"description\":"@;
    let c5 = enc_string(v.description);
    let c6 = "}"@;
    let p5 = c0 + c1 + c2 + c3 + c4 + c5;
    let p4 = c0 + c1 + c2 + c3 + c4;
    let p3 = c0 + c1 + c2 + c3;
    let p2 = c0 + c1 + c2;
    let p1 = c0 + c1;
    lemma_text_at_concat(s, i, p5, c6);
    lemma_text_at_concat(s, i, p4, c5);
    lemma_text_at_concat(s, i, p3, c4);
    lemma_text_at_concat(s, i, p2, c3);
    lemma_text_at_concat(s, i, p1, c2);
    lemma_text_at_concat(s, i, c0, c1);
    let q1 = i + p1.len() - c1.len();
    let q3 = i + p3.len() - c3.len();
    let q5 = i + p5.len() - c5.len();
    lemma_text_at_index(s, i, c0, 0);
    lemma_text_at_index(s, i, c0, 1);
    assert(s[i] == '{' && s[i + 1] == '"');
    lemma_sp_ws_stay(s, i + 1);
    assert(text_at(s, i + 1, enc_string("title"@))) by {
        lemma_enc_str_plain("title"@);
        assert(enc_string("title"@).len() == 7);
        assert forall|x: int| 0 <= x < 7 implies s[i + 1 + x] == enc_string(
            "title"@,
        )[x] by {
            lemma_text_at_index(s, i, c0, 1 + x);
        }
    }
    lemma_key_rt(s, i + 1, "title"@);
    lemma_text_at_index(s, i, c0, 8);
    assert(s[i + 8] == ':');
    lemma_sp_ws_stay(s, i + 8);
    lemma_enc_string_shape(v.title);
    lemma_text_at_index(s, q1, c1, 0);
    lemma_sp_ws_stay(s, q1);
    lemma_string_rt(s, q1, v.title);
    lemma_text_at_index(s, q1 + c1.len(), c2, 0);
    lemma_text_at_index(s, q1 + c1.len(), c2, 1);
    lemma_sp_ws_stay(s, q1 + c1.len());
    lemma_sp_ws_stay(s, q1 + c1.len() + 1);
    assert(text_at(s, q1 + c1.len() + 1, enc_string("url"@))) by {
        lemma_enc_str_plain("url"@);
        assert(enc_string("url"@).len() == 5);
        assert forall|x: int| 0 <= x < 5 implies s[q1 + c1.len() + 1 + x] == enc_string(
            "url"@,
        )[x] by {
            lemma_text_at_index(s, q1 + c1.len(), c2, 1 + x);
        }
    }
    lemma_key_rt(s, q1 + c1.len() + 1, "url"@);
    lemma_text_at_index(s, q1 + c1.len(), c2, 6);
    assert(s[q1 + c1.len() + 6] == ':');
    lemma_sp_ws_stay(s, q1 + c1.len() + 6);
    lemma_enc_string_shape(v.url);
    lemma_text_at_index(s, q3, c3, 0);
    lemma_sp_ws_stay(s, q3);
    lemma_string_rt(s, q3, v.url);
    lemma_text_at_index(s, q3 + c3.len(), c4, 0);
    lemma_text_at_index(s, q3 + c3.len(), c4, 1);
    lemma_sp_ws_stay(s, q3 + c3.len());
    lemma_sp_ws_stay(s, q3 + c3.len() + 1);
    assert(text_at(s, q3 + c3.len() + 1, enc_string("description"@))) by {
        lemma_enc_str_plain("description"@);
        assert(enc_string("description"@).len() == 13);
        assert forall|x: int| 0 <= x < 13 implies s[q3 + c3.len() + 1 + x] == enc_string(
            "description"@,
        )[x] by {
            lemma_text_at_index(s, q3 + c3.len(), c4, 1 + x);
        }
    }
    lemma_key_rt(s, q3 + c3.len() + 1, "description"@);
    lemma_text_at_index(s, q3 + c3.len(), c4, 14);
    assert(s[q3 + c3.len() + 14] == ':');
    lemma_sp_ws_stay(s, q3 + c3.len() + 14);
    lemma_enc_string_shape(v.description);
    lemma_text_at_index(s, q5, c5, 0);
    lemma_sp_ws_stay(s, q5);
    lemma_string_rt(s, q5, v.description);
    lemma_text_at_index(s, q5 + c5.len(), c6, 0);
    assert(s[q5 + c5.len()] == '}');
    lemma_sp_ws_stay(s, q5 + c5.len());
    let acc0 = vuln_acc0();
    let acc1 = VulnAcc { title: Some(v.title), ..acc0 };
    let acc2 = VulnAcc { url: Some(v.url), ..acc1 };
    let acc3 = VulnAcc { description: Some(v.description), ..acc2 };
    assert(sp_vuln_fields(s, q3 + c3.len() + 1, acc2) == Some((acc3, q5 + c5.len() + 1)));
    assert(sp_vuln_fields(s, q1 + c1.len() + 1, acc1) == Some((acc3, q5 + c5.len() + 1)));
    assert(sp_vuln_fields(s, i + 1, acc0) == Some((acc3, q5 + c5.len() + 1)));
    assert(vuln_finish(acc3) == Some(v)) by {
        assert(vuln_finish(acc3)->0 =~= v);
    }
    assert(sp_vuln_item(s, i) == Some((v, i + e.len())));
}

/// Tail of the domain object walk: the remaining fields from the comma at `d`
/// through the closing brace.
#[verifier::rlimit(100)]
pub proof fn lemma_domain_tail_rt(s: Seq<char>, d: int, v: SpecDomainItem, acc: DomainAcc)
    requires
        text_at(s, d, ",\"title\":"@),
        text_at(s, d + 9, enc_opt_string(v.title)),
        text_at(s, d + 9 + enc_opt_string(v.title).len(), ",\"content\":"@),
        text_at(s, d + 9 + enc_opt_string(v.title).len() + 11, enc_opt_string(v.content)),
        text_at(s, d + 9 + enc_opt_string(v.title).len() + 11 + enc_opt_string(v.content).len(), ",\"screenshot\":"@),
        text_at(s, d + 9 + enc_opt_string(v.title).len() + 11 + enc_opt_string(v.content).len() + 14, enc_opt_string(v.screenshot)),
        text_at(s, d + 9 + enc_opt_string(v.title).len() + 11 + enc_opt_string(v.content).len() + 14 + enc_opt_string(v.screenshot).len(), ",\"extra\":"@),
        text_at(s, d + 9 + enc_opt_string(v.title).len() + 11 + enc_opt_string(v.content).len() + 14 + enc_opt_string(v.screenshot).len() + 9, enc_opt_string(v.extra)),
        text_at(s, d + 9 + enc_opt_string(v.title).len() + 11 + enc_opt_string(v.content).len() + 14 + enc_opt_string(v.screenshot).len() + 9 + enc_opt_string(v.extra).len(), "}"@),
        (acc.title is None),
        (acc.content is None),
        (acc.screenshot is None),
        (acc.extra is None),
    ensures
        sp_domain_fields(s, d + 1, acc) == Some(
            (DomainAcc { title: Some(v.title), content: Some(v.content), screenshot: Some(v.screenshot), extra: Some(v.extra), ..acc }, d + 9 + enc_opt_string(v.title).len() + 11 + enc_opt_string(v.content).len() + 14 + enc_opt_string(v.screenshot).len() + 9 + enc_opt_string(v.extra).len() + 1),
        ),
{
    reveal_strlit("domain");
    reveal_strlit("record_type");
    reveal_strlit("record");
    reveal_strlit("status_code");
    reveal_strlit("title");
    reveal_strlit("content");
    reveal_strlit("screenshot");
    reveal_strlit("extra");
    reveal_strlit(",\"title\":");
    reveal_strlit("title");
    reveal_strlit(",\"content\":");
    reveal_strlit("content");
    reveal_strlit(",\"screenshot\":");
    reveal_strlit("screenshot");
    reveal_strlit(",\"extra\":");
    reveal_strlit("extra");
    reveal_strlit("}");
    let b0 = ",\"title\":"@;
    let b1 = enc_opt_string(v.title);
    let b2 = ",\"content\":"@;
    let b3 = enc_opt_string(v.content);
    let b4 = ",\"screenshot\":"@;
    let b5 = enc_opt_string(v.screenshot);
    let b6 = ",\"extra\":"@;
    let b7 = enc_opt_string(v.extra);
    let b8 = "}"@;
    let r0 = d;
    let r1 = r0 + b0.len();
    let r2 = r1 + b1.len();
    let r3 = r2 + b2.len();
    let r4 = r3 + b3.len();
    let r5 = r4 + b4.len();
    let r6 = r5 + b5.len();
    let r7 = r6 + b6.len();
    let r8 = r7 + b7.len();
    lemma_text_at_index(s, r0, b0, 0);
    lemma_text_at_index(s, r0, b0, 1);
    lemma_sp_ws_stay(s, r0);
    lemma_sp_ws_stay(s, r0 + 1);
    assert(text_at(s, r0 + 1, enc_string("title"@))) by {
        lemma_enc_str_plain("title"@);
        assert(enc_string("title"@).len() == 7);
        assert forall|x: int| 0 <= x < 7 implies s[r0 + 1 + x] == enc_string(
            "title"@,
        )[x] by {
            lemma_text_at_index(s, r0, b0, 1 + x);
        }
    }
    lemma_key_rt(s, r0 + 1, "title"@);
    lemma_text_at_index(s, r0, b0, 8);
    assert(s[r0 + 8] == ':');
    lemma_sp_ws_stay(s, r0 + 8);
    assert(!is_ws(s[r1])) by {
        match v.title {
            None => {
                reveal_strlit("null");
                lemma_text_at_index(s, r1, b1, 0);
            },
            Some(c) => {
                lemma_enc_string_shape(c);
                lemma_text_at_index(s, r1, b1, 0);
            },
        }
    }
    lemma_sp_ws_stay(s, r1);
    lemma_opt_string_rt(s, r1, v.title);
    lemma_text_at_index(s, r2, b2, 0);
    lemma_text_at_index(s, r2, b2, 1);
    lemma_sp_ws_stay(s, r2);
    lemma_sp_ws_stay(s, r2 + 1);
    assert(text_at(s, r2 + 1, enc_string("content"@))) by {
        lemma_enc_str_plain("content"@);
        assert(enc_string("content"@).len() == 9);
        assert forall|x: int| 0 <= x < 9 implies s[r2 + 1 + x] == enc_string(
            "content"@,
        )[x] by {
            lemma_text_at_index(s, r2, b2, 1 + x);
        }
    }
    lemma_key_rt(s, r2 + 1, "content"@);
    lemma_text_at_index(s, r2, b2, 10);
    assert(s[r2 + 10] == ':');
    lemma_sp_ws_stay(s, r2 + 10);
    assert(!is_ws(s[r3])) by {
        match v.content {
            None => {
                reveal_strlit("null");
                lemma_text_at_index(s, r3, b3, 0);
            },
            Some(c) => {
                lemma_enc_string_shape(c);
                lemma_text_at_index(s, r3, b3, 0);
            },
        }
    }
    lemma_sp_ws_stay(s, r3);
    lemma_opt_string_rt(s, r3, v.content);
    lemma_text_at_index(s, r4, b4, 0);
    lemma_text_at_index(s, r4, b4, 1);
    lemma_sp_ws_stay(s, r4);
    lemma_sp_ws_stay(s, r4 + 1);
    assert(text_at(s, r4 + 1, enc_string("screenshot"@))) by {
        lemma_enc_str_plain("screenshot"@);
        assert(enc_string("screenshot"@).len() == 12);
        assert forall|x: int| 0 <= x < 12 implies s[r4 + 1 + x] == enc_string(
            "screenshot"@,
        )[x] by {
            lemma_text_at_index(s, r4, b4, 1 + x);
        }
    }
    lemma_key_rt(s, r4 + 1, "screenshot"@);
    lemma_text_at_index(s, r4, b4, 13);
    assert(s[r4 + 13] == ':');
    lemma_sp_ws_stay(s, r4 + 13);
    assert(!is_ws(s[r5])) by {
        match v.screenshot {
            None => {
                reveal_strlit("null");
                lemma_text_at_index(s, r5, b5, 0);
            },
            Some(c) => {
                lemma_enc_string_shape(c);
                lemma_text_at_index(s, r5, b5, 0);
            },
        }
    }
    lemma_sp_ws_stay(s, r5);
    lemma_opt_string_rt(s, r5, v.screenshot);
    lemma_text_at_index(s, r6, b6, 0);
    lemma_text_at_index(s, r6, b6, 1);
    lemma_sp_ws_stay(s, r6);
    lemma_sp_ws_stay(s, r6 + 1);
    assert(text_at(s, r6 + 1, enc_string("extra"@))) by {
        lemma_enc_str_plain("extra"@);
        assert(enc_string("extra"@).len() == 7);
        assert forall|x: int| 0 <= x < 7 implies s[r6 + 1 + x] == enc_string(
            "extra"@,
        )[x] by {
            lemma_text_at_index(s, r6, b6, 1 + x);
        }
    }
    lemma_key_rt(s, r6 + 1, "extra"@);
    lemma_text_at_index(s, r6, b6, 8);
    assert(s[r6 + 8] == ':');
    lemma_sp_ws_stay(s, r6 + 8);
    assert(!is_ws(s[r7])) by {
        match v.extra {
            None => {
                reveal_strlit("null");
                lemma_text_at_index(s, r7, b7, 0);
            },
            Some(c) => {
                lemma_enc_string_shape(c);
                lemma_text_at_index(s, r7, b7, 0);
            },
        }
    }
    lemma_sp_ws_stay(s, r7);
    lemma_opt_string_rt(s, r7, v.extra);
    lemma_text_at_index(s, r8, b8, 0);
    assert(s[r8] == '}');
    lemma_sp_ws_stay(s, r8);
    let acc0 = acc;
    let acc1 = DomainAcc { title: Some(v.title), ..acc0 };
    let acc2 = DomainAcc { content: Some(v.content), ..acc1 };
    let acc3 = DomainAcc { screenshot: Some(v.screenshot), ..acc2 };
    let acc4 = DomainAcc { extra: Some(v.extra), ..acc3 };
    assert(sp_domain_fields(s, r6 + 1, acc3) == Some((acc4, r8 + 1)));
    assert(sp_domain_fields(s, r4 + 1, acc2) == Some((acc4, r8 + 1)));
    assert(sp_domain_fields(s, r2 + 1, acc1) == Some((acc4, r8 + 1)));
    assert(sp_domain_fields(s, r0 + 1, acc0) == Some((acc4, r8 + 1)));
}

/// Tail of the domain object walk from the comma before `record_type`.
#[verifier::rlimit(100)]
proof fn lemma_domain_tail1_rt(s: Seq<char>, d: int, v: SpecDomainItem, acc: DomainAcc)
    requires
        text_at(s, d, ",\"record_type\":"@),
        text_at(s, d + 15, enc_string(v.record_type)),
        text_at(s, d + 15 + enc_string(v.record_type).len(), ",\"record\":"@),
        text_at(s, d + 15 + enc_string(v.record_type).len() + 10, enc_string(v.record)),
        text_at(s, d + 15 + enc_string(v.record_type).len() + 10 + enc_string(v.record).len(), ",\"status_code\":"@),
        text_at(s, d + 15 + enc_string(v.record_type).len() + 10 + enc_string(v.record).len() + 15, enc_opt_u16(v.status_code)),
        text_at(s, d + 15 + enc_string(v.record_type).len() + 10 + enc_string(v.record).len() + 15 + enc_opt_u16(v.status_code).len(), ",\"title\":"@),
        text_at(s, d + 15 + enc_string(v.record_type).len() + 10 + enc_string(v.record).len() + 15 + enc_opt_u16(v.status_code).len() + 9, enc_opt_string(v.title)),
        text_at(s, d + 15 + enc_string(v.record_type).len() + 10 + enc_string(v.record).len() + 15 + enc_opt_u16(v.status_code).len() + 9 + enc_opt_string(v.title).len(), ",\"content\":"@),
        text_at(s, d + 15 + enc_string(v.record_type).len() + 10 + enc_string(v.record).len() + 15 + enc_opt_u16(v.status_code).len() + 9 + enc_opt_string(v.title).len() + 11, enc_opt_string(v.content)),
        text_at(s, d + 15 + enc_string(v.record_type).len() + 10 + enc_string(v.record).len() + 15 + enc_opt_u16(v.status_code).len() + 9 + enc_opt_string(v.title).len() + 11 + enc_opt_string(v.content).len(), ",\"screenshot\":"@),
        text_at(s, d + 15 + enc_string(v.record_type).len() + 10 + enc_string(v.record).len() + 15 + enc_opt_u16(v.status_code).len() + 9 + enc_opt_string(v.title).len() + 11 + enc_opt_string(v.content).len() + 14, enc_opt_string(v.screenshot)),
        text_at(s, d + 15 + enc_string(v.record_type).len() + 10 + enc_string(v.record).len() + 15 + enc_opt_u16(v.status_code).len() + 9 + enc_opt_string(v.title).len() + 11 + enc_opt_string(v.content).len() + 14 + enc_opt_string(v.screenshot).len(), ",\"extra\":"@),
        text_at(s, d + 15 + enc_string(v.record_type).len() + 10 + enc_string(v.record).len() + 15 + enc_opt_u16(v.status_code).len() + 9 + enc_opt_string(v.title).len() + 11 + enc_opt_string(v.content).len() + 14 + enc_opt_string(v.screenshot).len() + 9, enc_opt_string(v.extra)),
        text_at(s, d + 15 + enc_string(v.record_type).len() + 10 + enc_string(v.record).len() + 15 + enc_opt_u16(v.status_code).len() + 9 + enc_opt_string(v.title).len() + 11 + enc_opt_string(v.content).len() + 14 + enc_opt_string(v.screenshot).len() + 9 + enc_opt_string(v.extra).len(), "}"@),
        (acc.record_type is None),
        (acc.record is None),
        (acc.status_code is None),
        (acc.title is None),
        (acc.content is None),
        (acc.screenshot is None),
        (acc.extra is None),
    ensures
        sp_domain_fields(s, d + 1, acc) == Some(
            (DomainAcc { record_type: Some(v.record_type), record: Some(v.record), status_code: Some(v.status_code), title: Some(v.title), content: Some(v.content), screenshot: Some(v.screenshot), extra: Some(v.extra), ..acc }, d + 15 + enc_string(v.record_type).len() + 10 + enc_string(v.record).len() + 15 + enc_opt_u16(v.status_code).len() + 9 + enc_opt_string(v.title).len() + 11 + enc_opt_string(v.content).len() + 14 + enc_opt_string(v.screenshot).len() + 9 + enc_opt_string(v.extra).len() + 1),
        ),
{
    reveal_strlit("domain");
    reveal_strlit("record_type");
    reveal_strlit("record");
    reveal_strlit("status_code");
    reveal_strlit("title");
    reveal_strlit("content");
    reveal_strlit("screenshot");
    reveal_strlit("extra");
    reveal_strlit(",\"record_type\":");
    reveal_strlit(",\"record\":");
    reveal_strlit(",\"status_code\":");
    reveal_strlit(",\"title\":");
    reveal_strlit(",\"content\":");
    reveal_strlit(",\"screenshot\":");
    reveal_strlit(",\"extra\":");
    reveal_strlit("}");
    let b0 = ",\"record_type\":"@;
    let b1 = enc_string(v.record_type);
    let b2 = ",\"record\":"@;
    let b3 = enc_string(v.record);
    let b4 = ",\"status_code\":"@;
    let b5 = enc_opt_u16(v.status_code);
    let b6 = ",\"title\":"@;
    let b7 = enc_opt_string(v.title);
    let b8 = ",\"content\":"@;
    let b9 = enc_opt_string(v.content);
    let b10 = ",\"screenshot\":"@;
    let b11 = enc_opt_string(v.screenshot);
    let b12 = ",\"extra\":"@;
    let b13 = enc_opt_string(v.extra);
    let b14 = "}"@;
    let r0 = d;
    let r1 = r0 + b0.len();
    let r2 = r1 + b1.len();
    let r3 = r2 + b2.len();
    let r4 = r3 + b3.len();
    let r5 = r4 + b4.len();
    let r6 = r5 + b5.len();
    let r7 = r6 + b6.len();
    let r8 = r7 + b7.len();
    let r9 = r8 + b8.len();
    let r10 = r9 + b9.len();
    let r11 = r10 + b10.len();
    let r12 = r11 + b11.len();
    let r13 = r12 + b12.len();
    let r14 = r13 + b13.len();
    lemma_text_at_index(s, r0, b0, 0);
    lemma_text_at_index(s, r0, b0, 1);
    lemma_sp_ws_stay(s, r0);
    lemma_sp_ws_stay(s, r0 + 1);
    assert(text_at(s, r0 + 1, enc_string("record_type"@))) by {
        lemma_enc_str_plain("record_type"@);
        assert(enc_string("record_type"@).len() == 13);
        assert forall|x: int| 0 <= x < 13 implies s[r0 + 1 + x] == enc_string(
            "record_type"@,
        )[x] by {
            lemma_text_at_index(s, r0, b0, 1 + x);
        }
    }
    lemma_key_rt(s, r0 + 1, "record_type"@);
    lemma_text_at_index(s, r0, b0, 14);
    assert(s[r0 + 14] == ':');
    lemma_sp_ws_stay(s, r0 + 14);
    lemma_enc_string_shape(v.record_type);
    lemma_text_at_index(s, r1, b1, 0);
    lemma_sp_ws_stay(s, r1);
    lemma_string_rt(s, r1, v.record_type);
    lemma_text_at_index(s, r2, b2, 0);
    lemma_text_at_index(s, r2, b2, 1);
    lemma_sp_ws_stay(s, r2);
    lemma_sp_ws_stay(s, r2 + 1);
    let acc1 = DomainAcc { record_type: Some(v.record_type), ..acc };
    lemma_domain_tail2_rt(s, r2, v, acc1);
    let accr = DomainAcc { record: Some(v.record), status_code: Some(v.status_code), title: Some(v.title), content: Some(v.content), screenshot: Some(v.screenshot), extra: Some(v.extra), ..acc1 };
    assert(sp_domain_fields(s, d + 1, acc) == Some((accr, d + 15 + enc_string(v.record_type).len() + 10 + enc_string(v.record).len() + 15 + enc_opt_u16(v.status_code).len() + 9 + enc_opt_string(v.title).len() + 11 + enc_opt_string(v.content).len() + 14 + enc_opt_string(v.screenshot).len() + 9 + enc_opt_string(v.extra).len() + 1)));
}

/// Tail of the domain object walk from the comma before `record`.
#[verifier::rlimit(100)]
proof fn lemma_domain_tail2_rt(s: Seq<char>, d: int, v: SpecDomainItem, acc: DomainAcc)
    requires
        text_at(s, d, ",\"record\":"@),
        text_at(s, d + 10, enc_string(v.record)),
        text_at(s, d + 10 + enc_string(v.record).len(), ",\"status_code\":"@),
        text_at(s, d + 10 + enc_string(v.record).len() + 15, enc_opt_u16(v.status_code)),
        text_at(s, d + 10 + enc_string(v.record).len() + 15 + enc_opt_u16(v.status_code).len(), ",\"title\":"@),
        text_at(s, d + 10 + enc_string(v.record).len() + 15 + enc_opt_u16(v.status_code).len() + 9, enc_opt_string(v.title)),
        text_at(s, d + 10 + enc_string(v.record).len() + 15 + enc_opt_u16(v.status_code).len() + 9 + enc_opt_string(v.title).len(), ",\"content\":"@),
        text_at(s, d + 10 + enc_string(v.record).len() + 15 + enc_opt_u16(v.status_code).len() + 9 + enc_opt_string(v.title).len() + 11, enc_opt_string(v.content)),
        text_at(s, d + 10 + enc_string(v.record).len() + 15 + enc_opt_u16(v.status_code).len() + 9 + enc_opt_string(v.title).len() + 11 + enc_opt_string(v.content).len(), ",\"screenshot\":"@),
        text_at(s, d + 10 + enc_string(v.record).len() + 15 + enc_opt_u16(v.status_code).len() + 9 + enc_opt_string(v.title).len() + 11 + enc_opt_string(v.content).len() + 14, enc_opt_string(v.screenshot)),
        text_at(s, d + 10 + enc_string(v.record).len() + 15 + enc_opt_u16(v.status_code).len() + 9 + enc_opt_string(v.title).len() + 11 + enc_opt_string(v.content).len() + 14 + enc_opt_string(v.screenshot).len(), ",\"extra\":"@),
        text_at(s, d + 10 + enc_string(v.record).len() + 15 + enc_opt_u16(v.status_code).len() + 9 + enc_opt_string(v.title).len() + 11 + enc_opt_string(v.content).len() + 14 + enc_opt_string(v.screenshot).len() + 9, enc_opt_string(v.extra)),
        text_at(s, d + 10 + enc_string(v.record).len() + 15 + enc_opt_u16(v.status_code).len() + 9 + enc_opt_string(v.title).len() + 11 + enc_opt_string(v.content).len() + 14 + enc_opt_string(v.screenshot).len() + 9 + enc_opt_string(v.extra).len(), "}"@),
        (acc.record is None),
        (acc.status_code is None),
        (acc.title is None),
        (acc.content is None),
        (acc.screenshot is None),
        (acc.extra is None),
    ensures
        sp_domain_fields(s, d + 1, acc) == Some(
            (DomainAcc { record: Some(v.record), status_code: Some(v.status_code), title: Some(v.title), content: Some(v.content), screenshot: Some(v.screenshot), extra: Some(v.extra), ..acc }, d + 10 + enc_string(v.record).len() + 15 + enc_opt_u16(v.status_code).len() + 9 + enc_opt_string(v.title).len() + 11 + enc_opt_string(v.content).len() + 14 + enc_opt_string(v.screenshot).len() + 9 + enc_opt_string(v.extra).len() + 1),
        ),
{
    reveal_strlit("domain");
    reveal_strlit("record_type");
    reveal_strlit("record");
    reveal_strlit("status_code");
    reveal_strlit("title");
    reveal_strlit("content");
    reveal_strlit("screenshot");
    reveal_strlit("extra");
    reveal_strlit(",\"record\":");
    reveal_strlit(",\"status_code\":");
    reveal_strlit(",\"title\":");
    reveal_strlit(",\"content\":");
    reveal_strlit(",\"screenshot\":");
    reveal_strlit(",\"extra\":");
    reveal_strlit("}");
    let b0 = ",\"record\":"@;
    let b1 = enc_string(v.record);
    let b2 = ",\"status_code\":"@;
    let b3 = enc_opt_u16(v.status_code);
    let b4 = ",\"title\":"@;
    let b5 = enc_opt_string(v.title);
    let b6 = ",\"content\":"@;
    let b7 = enc_opt_string(v.content);
    let b8 = ",\"screenshot\":"@;
    let b9 = enc_opt_string(v.screenshot);
    let b10 = ",\"extra\":"@;
    let b11 = enc_opt_string(v.extra);
    let b12 = "}"@;
    let r0 = d;
    let r1 = r0 + b0.len();
    let r2 = r1 + b1.len();
    let r3 = r2 + b2.len();
    let r4 = r3 + b3.len();
    let r5 = r4 + b4.len();
    let r6 = r5 + b5.len();
    let r7 = r6 + b6.len();
    let r8 = r7 + b7.len();
    let r9 = r8 + b8.len();
    let r10 = r9 + b9.len();
    let r11 = r10 + b10.len();
    let r12 = r11 + b11.len();
    lemma_text_at_index(s, r0, b0, 0);
    lemma_text_at_index(s, r0, b0, 1);
    lemma_sp_ws_stay(s, r0);
    lemma_sp_ws_stay(s, r0 + 1);
    assert(text_at(s, r0 + 1, enc_string("record"@))) by {
        lemma_enc_str_plain("record"@);
        assert(enc_string("record"@).len() == 8);
        assert forall|x: int| 0 <= x < 8 implies s[r0 + 1 + x] == enc_string(
            "record"@,
        )[x] by {
            lemma_text_at_index(s, r0, b0, 1 + x);
        }
    }
    lemma_key_rt(s, r0 + 1, "record"@);
    lemma_text_at_index(s, r0, b0, 9);
    assert(s[r0 + 9] == ':');
    lemma_sp_ws_stay(s, r0 + 9);
    lemma_enc_string_shape(v.record);
    lemma_text_at_index(s, r1, b1, 0);
    lemma_sp_ws_stay(s, r1);
    lemma_string_rt(s, r1, v.record);
    lemma_text_at_index(s, r2, b2, 0);
    lemma_text_at_index(s, r2, b2, 1);
    lemma_sp_ws_stay(s, r2);
    lemma_sp_ws_stay(s, r2 + 1);
    let acc1 = DomainAcc { record: Some(v.record), ..acc };
    lemma_domain_tail3_rt(s, r2, v, acc1);
    let accr = DomainAcc { status_code: Some(v.status_code), title: Some(v.title), content: Some(v.content), screenshot: Some(v.screenshot), extra: Some(v.extra), ..acc1 };
    assert(sp_domain_fields(s, d + 1, acc) == Some((accr, d + 10 + enc_string(v.record).len() + 15 + enc_opt_u16(v.status_code).len() + 9 + enc_opt_string(v.title).len() + 11 + enc_opt_string(v.content).len() + 14 + enc_opt_string(v.screenshot).len() + 9 + enc_opt_string(v.extra).len() + 1)));
}

/// Tail of the domain object walk from the comma before `status_code`.
#[verifier::rlimit(100)]
proof fn lemma_domain_tail3_rt(s: Seq<char>, d: int, v: SpecDomainItem, acc: DomainAcc)
    requires
        text_at(s, d, ",\"status_code\":"@),
        text_at(s, d + 15, enc_opt_u16(v.status_code)),
        text_at(s, d + 15 + enc_opt_u16(v.status_code).len(), ",\"title\":"@),
        text_at(s, d + 15 + enc_opt_u16(v.status_code).len() + 9, enc_opt_string(v.title)),
        text_at(s, d + 15 + enc_opt_u16(v.status_code).len() + 9 + enc_opt_string(v.title).len(), ",\"content\":"@),
        text_at(s, d + 15 + enc_opt_u16(v.status_code).len() + 9 + enc_opt_string(v.title).len() + 11, enc_opt_string(v.content)),
        text_at(s, d + 15 + enc_opt_u16(v.status_code).len() + 9 + enc_opt_string(v.title).len() + 11 + enc_opt_string(v.content).len(), ",\"screenshot\":"@),
        text_at(s, d + 15 + enc_opt_u16(v.status_code).len() + 9 + enc_opt_string(v.title).len() + 11 + enc_opt_string(v.content).len() + 14, enc_opt_string(v.screenshot)),
        text_at(s, d + 15 + enc_opt_u16(v.status_code).len() + 9 + enc_opt_string(v.title).len() + 11 + enc_opt_string(v.content).len() + 14 + enc_opt_string(v.screenshot).len(), ",\"extra\":"@),
        text_at(s, d + 15 + enc_opt_u16(v.status_code).len() + 9 + enc_opt_string(v.title).len() + 11 + enc_opt_string(v.content).len() + 14 + enc_opt_string(v.screenshot).len() + 9, enc_opt_string(v.extra)),
        text_at(s, d + 15 + enc_opt_u16(v.status_code).len() + 9 + enc_opt_string(v.title).len() + 11 + enc_opt_string(v.content).len() + 14 + enc_opt_string(v.screenshot).len() + 9 + enc_opt_string(v.extra).len(), "}"@),
        (acc.status_code is None),
        (acc.title is None),
        (acc.content is None),
        (acc.screenshot is None),
        (acc.extra is None),
    ensures
        sp_domain_fields(s, d + 1, acc) == Some(
            (DomainAcc { status_code: Some(v.status_code), title: Some(v.title), content: Some(v.content), screenshot: Some(v.screenshot), extra: Some(v.extra), ..acc }, d + 15 + enc_opt_u16(v.status_code).len() + 9 + enc_opt_string(v.title).len() + 11 + enc_opt_string(v.content).len() + 14 + enc_opt_string(v.screenshot).len() + 9 + enc_opt_string(v.extra).len() + 1),
        ),
{
    reveal_strlit("domain");
    reveal_strlit("record_type");
    reveal_strlit("record");
    reveal_strlit("status_code");
    reveal_strlit("title");
    reveal_strlit("content");
    reveal_strlit("screenshot");
    reveal_strlit("extra");
    reveal_strlit(",\"status_code\":");
    reveal_strlit(",\"title\":");
    reveal_strlit(",\"content\":");
    reveal_strlit(",\"screenshot\":");
    reveal_strlit(",\"extra\":");
    reveal_strlit("}");
    let b0 = ",\"status_code\":"@;
    let b1 = enc_opt_u16(v.status_code);
    let b2 = ",\"title\":"@;
    let b3 = enc_opt_string(v.title);
    let b4 = ",\"content\":"@;
    let b5 = enc_opt_string(v.content);
    let b6 = ",\"screenshot\":"@;
    let b7 = enc_opt_string(v.screenshot);
    let b8 = ",\"extra\":"@;
    let b9 = enc_opt_string(v.extra);
    let b10 = "}"@;
    let r0 = d;
    let r1 = r0 + b0.len();
    let r2 = r1 + b1.len();
    let r3 = r2 + b2.len();
    let r4 = r3 + b3.len();
    let r5 = r4 + b4.len();
    let r6 = r5 + b5.len();
    let r7 = r6 + b6.len();
    let r8 = r7 + b7.len();
    let r9 = r8 + b8.len();
    let r10 = r9 + b9.len();
    lemma_text_at_index(s, r0, b0, 0);
    lemma_text_at_index(s, r0, b0, 1);
    lemma_sp_ws_stay(s, r0);
    lemma_sp_ws_stay(s, r0 + 1);
    assert(text_at(s, r0 + 1, enc_string("status_code"@))) by {
        lemma_enc_str_plain("status_code"@);
        assert(enc_string("status_code"@).len() == 13);
        assert forall|x: int| 0 <= x < 13 implies s[r0 + 1 + x] == enc_string(
            "status_code"@,
        )[x] by {
            lemma_text_at_index(s, r0, b0, 1 + x);
        }
    }
    lemma_key_rt(s, r0 + 1, "status_code"@);
    lemma_text_at_index(s, r0, b0, 14);
    assert(s[r0 + 14] == ':');
    lemma_sp_ws_stay(s, r0 + 14);
    assert(!is_ws(s[r1])) by {
        match v.status_code {
            None => {
                reveal_strlit("null");
                lemma_text_at_index(s, r1, b1, 0);
            },
            Some(n) => {
                lemma_enc_u16_props(n as int);
                lemma_text_at_index(s, r1, b1, 0);
            },
        }
    }
    lemma_sp_ws_stay(s, r1);
    lemma_text_at_index(s, r2, b2, 0);
    assert(s[r2] == ',' && !is_digit(','));
    lemma_opt_u16_rt(s, r1, v.status_code);
    lemma_text_at_index(s, r2, b2, 0);
    lemma_text_at_index(s, r2, b2, 1);
    lemma_sp_ws_stay(s, r2);
    lemma_sp_ws_stay(s, r2 + 1);
    let acc1 = DomainAcc { status_code: Some(v.status_code), ..acc };
    lemma_domain_tail_rt(s, r2, v, acc1);
    let accr = DomainAcc { title: Some(v.title), content: Some(v.content), screenshot: Some(v.screenshot), extra: Some(v.extra), ..acc1 };
    assert(sp_domain_fields(s, d + 1, acc) == Some((accr, d + 15 + enc_opt_u16(v.status_code).len() + 9 + enc_opt_string(v.title).len() + 11 + enc_opt_string(v.content).len() + 14 + enc_opt_string(v.screenshot).len() + 9 + enc_opt_string(v.extra).len() + 1)));
}

/// Round trip of one domain record.
#[verifier::rlimit(100)]
pub proof fn lemma_domain_item_rt(s: Seq<char>, i: int, v: SpecDomainItem)
    requires
        text_at(s, i, enc_domain_item(v)),
    ensures
        sp_domain_item(s, i) == Some((v, i + enc_domain_item(v).len())),
{
    reveal_strlit("{\"domain\":");
    reveal_strlit("domain");
    reveal_strlit(",\"record_type\":");
    reveal_strlit("record_type");
    reveal_strlit(",\"record\":");
    reveal_strlit("record");
    reveal_strlit(",\"status_code\":");
    reveal_strlit("status_code");
    reveal_strlit(",\"title\":");
    reveal_strlit("title");
    reveal_strlit(",\"content\":");
    reveal_strlit("content");
    reveal_strlit(",\"screenshot\":");
    reveal_strlit("screenshot");
    reveal_strlit(",\"extra\":");
    reveal_strlit("extra");
    reveal_strlit("}");
    let e = enc_domain_item(v);
    let c0 = "{\"domain\":"@;
    let c1 = enc_string(v.domain);
    let c2 = ",\"record_type\":"@;
    let c3 = enc_string(v.record_type);
    let c4 = ",\"record\":"@;
    let c5 = enc_string(v.record);
    let c6 = ",\"status_code\":"@;
    let c7 = enc_opt_u16(v.status_code);
    let c8 = ",\"title\":"@;
    let c9 = enc_opt_string(v.title);
    let c10 = ",\"content\":"@;
    let c11 = enc_opt_string(v.content);
    let c12 = ",\"screenshot\":"@;
    let c13 = enc_opt_string(v.screenshot);
    let c14 = ",\"extra\":"@;
    let c15 = enc_opt_string(v.extra);
    let c16 = "}"@;
    let p15 = c0 + c1 + c2 + c3 + c4 + c5 + c6 + c7 + c8 + c9 + c10 + c11 + c12 + c13 + c14 + c15;
    let p14 = c0 + c1 + c2 + c3 + c4 + c5 + c6 + c7 + c8 + c9 + c10 + c11 + c12 + c13 + c14;
    let p13 = c0 + c1 + c2 + c3 + c4 + c5 + c6 + c7 + c8 + c9 + c10 + c11 + c12 + c13;
    let p12 = c0 + c1 + c2 + c3 + c4 + c5 + c6 + c7 + c8 + c9 + c10 + c11 + c12;
    let p11 = c0 + c1 + c2 + c3 + c4 + c5 + c6 + c7 + c8 + c9 + c10 + c11;
    let p10 = c0 + c1 + c2 + c3 + c4 + c5 + c6 + c7 + c8 + c9 + c10;
    let p9 = c0 + c1 + c2 + c3 + c4 + c5 + c6 + c7 + c8 + c9;
    let p8 = c0 + c1 + c2 + c3 + c4 + c5 + c6 + c7 + c8;
    let p7 = c0 + c1 + c2 + c3 + c4 + c5 + c6 + c7;
    let p6 = c0 + c1 + c2 + c3 + c4 + c5 + c6;
    let p5 = c0 + c1 + c2 + c3 + c4 + c5;
    let p4 = c0 + c1 + c2 + c3 + c4;
    let p3 = c0 + c1 + c2 + c3;
    let p2 = c0 + c1 + c2;
    let p1 = c0 + c1;
    lemma_text_at_concat(s, i, p15, c16);
    lemma_text_at_concat(s, i, p14, c15);
    lemma_text_at_concat(s, i, p13, c14);
    lemma_text_at_concat(s, i, p12, c13);
    lemma_text_at_concat(s, i, p11, c12);
    lemma_text_at_concat(s, i, p10, c11);
    lemma_text_at_concat(s, i, p9, c10);
    lemma_text_at_concat(s, i, p8, c9);
    lemma_text_at_concat(s, i, p7, c8);
    lemma_text_at_concat(s, i, p6, c7);
    lemma_text_at_concat(s, i, p5, c6);
    lemma_text_at_concat(s, i, p4, c5);
    lemma_text_at_concat(s, i, p3, c4);
    lemma_text_at_concat(s, i, p2, c3);
    lemma_text_at_concat(s, i, p1, c2);
    lemma_text_at_concat(s, i, c0, c1);
    let q1 = i + p1.len() - c1.len();
    lemma_text_at_index(s, i, c0, 0);
    lemma_text_at_index(s, i, c0, 1);
    assert(s[i] == '{' && s[i + 1] == '"');
    lemma_sp_ws_stay(s, i + 1);
    assert(text_at(s, i + 1, enc_string("domain"@))) by {
        lemma_enc_str_plain("domain"@);
        assert(enc_string("domain"@).len() == 8);
        assert forall|x: int| 0 <= x < 8 implies s[i + 1 + x] == enc_string(
            "domain"@,
        )[x] by {
            lemma_text_at_index(s, i, c0, 1 + x);
        }
    }
    lemma_key_rt(s, i + 1, "domain"@);
    lemma_text_at_index(s, i, c0, 9);
    assert(s[i + 9] == ':');
    lemma_sp_ws_stay(s, i + 9);
    lemma_enc_string_shape(v.domain);
    lemma_text_at_index(s, q1, c1, 0);
    lemma_sp_ws_stay(s, q1);
    lemma_string_rt(s, q1, v.domain);
    lemma_text_at_index(s, q1 + c1.len(), c2, 0);
    lemma_text_at_index(s, q1 + c1.len(), c2, 1);
    lemma_sp_ws_stay(s, q1 + c1.len());
    lemma_sp_ws_stay(s, q1 + c1.len() + 1);
    let acc0 = domain_acc0();
    let acc1 = DomainAcc { domain: Some(v.domain), ..acc0 };
    lemma_domain_tail1_rt(s, q1 + c1.len(), v, acc1);
    let accf = DomainAcc { record_type: Some(v.record_type), record: Some(v.record), status_code: Some(v.status_code), title: Some(v.title), content: Some(v.content), screenshot: Some(v.screenshot), extra: Some(v.extra), ..acc1 };
    let endp = i + e.len();
    assert(sp_domain_fields(s, i + 1, acc0) == Some((accf, endp)));
    assert(domain_finish(accf) == Some(v)) by {
        assert(domain_finish(accf)->0 =~= v);
    }
    assert(sp_domain_item(s, i) == Some((v, i + e.len())));
}

/// Tail of the dir object walk: the remaining fields from the comma at `d`
/// through the closing brace.
#[verifier::rlimit(100)]
pub proof fn lemma_dir_tail_rt(s: Seq<char>, d: int, v: SpecDirItem, acc: DirAcc)
    requires
        text_at(s, d, ",\"title\":"@),
        text_at(s, d + 9, enc_opt_string(v.title)),
        text_at(s, d + 9 + enc_opt_string(v.title).len(), ",\"content\":"@),
        text_at(s, d + 9 + enc_opt_string(v.title).len() + 11, enc_opt_string(v.content)),
        text_at(s, d + 9 + enc_opt_string(v.title).len() + 11 + enc_opt_string(v.content).len(), ",\"screenshot\":"@),
        text_at(s, d + 9 + enc_opt_string(v.title).len() + 11 + enc_opt_string(v.content).len() + 14, enc_opt_string(v.screenshot)),
        text_at(s, d + 9 + enc_opt_string(v.title).len() + 11 + enc_opt_string(v.content).len() + 14 + enc_opt_string(v.screenshot).len(), ",\"extra\":"@),
        text_at(s, d + 9 + enc_opt_string(v.title).len() + 11 + enc_opt_string(v.content).len() + 14 + enc_opt_string(v.screenshot).len() + 9, enc_opt_string(v.extra)),
        text_at(s, d + 9 + enc_opt_string(v.title).len() + 11 + enc_opt_string(v.content).len() + 14 + enc_opt_string(v.screenshot).len() + 9 + enc_opt_string(v.extra).len(), "}"@),
        (acc.title is None),
        (acc.content is None),
        (acc.screenshot is None),
        (acc.extra is None),
    ensures
        sp_dir_fields(s, d + 1, acc) == Some(
            (DirAcc { title: Some(v.title), content: Some(v.content), screenshot: Some(v.screenshot), extra: Some(v.extra), ..acc }, d + 9 + enc_opt_string(v.title).len() + 11 + enc_opt_string(v.content).len() + 14 + enc_opt_string(v.screenshot).len() + 9 + enc_opt_string(v.extra).len() + 1),
        ),
{
    reveal_strlit("path");
    reveal_strlit("status_code");
    reveal_strlit("method");
    reveal_strlit("title");
    reveal_strlit("content");
    reveal_strlit("screenshot");
    reveal_strlit("extra");
    reveal_strlit(",\"title\":");
    reveal_strlit("title");
    reveal_strlit(",\"content\":");
    reveal_strlit("content");
    reveal_strlit(",\"screenshot\":");
    reveal_strlit("screenshot");
    reveal_strlit(",\"extra\":");
    reveal_strlit("extra");
    reveal_strlit("}");
    let b0 = ",\"title\":"@;
    let b1 = enc_opt_string(v.title);
    let b2 = ",\"content\":"@;
    let b3 = enc_opt_string(v.content);
    let b4 = ",\"screenshot\":"@;
    let b5 = enc_opt_string(v.screenshot);
    let b6 = ",\"extra\":"@;
    let b7 = enc_opt_string(v.extra);
    let b8 = "}"@;
    let r0 = d;
    let r1 = r0 + b0.len();
    let r2 = r1 + b1.len();
    let r3 = r2 + b2.len();
    let r4 = r3 + b3.len();
    let r5 = r4 + b4.len();
    let r6 = r5 + b5.len();
    let r7 = r6 + b6.len();
    let r8 = r7 + b7.len();
    lemma_text_at_index(s, r0, b0, 0);
    lemma_text_at_index(s, r0, b0, 1);
    lemma_sp_ws_stay(s, r0);
    lemma_sp_ws_stay(s, r0 + 1);
    assert(text_at(s, r0 + 1, enc_string("title"@))) by {
        lemma_enc_str_plain("title"@);
        assert(enc_string("title"@).len() == 7);
        assert forall|x: int| 0 <= x < 7 implies s[r0 + 1 + x] == enc_string(
            "title"@,
        )[x] by {
            lemma_text_at_index(s, r0, b0, 1 + x);
        }
    }
    lemma_key_rt(s, r0 + 1, "title"@);
    lemma_text_at_index(s, r0, b0, 8);
    assert(s[r0 + 8] == ':');
    lemma_sp_ws_stay(s, r0 + 8);
    assert(!is_ws(s[r1])) by {
        match v.title {
            None => {
                reveal_strlit("null");
                lemma_text_at_index(s, r1, b1, 0);
            },
            Some(c) => {
                lemma_enc_string_shape(c);
                lemma_text_at_index(s, r1, b1, 0);
            },
        }
    }
    lemma_sp_ws_stay(s, r1);
    lemma_opt_string_rt(s, r1, v.title);
    lemma_text_at_index(s, r2, b2, 0);
    lemma_text_at_index(s, r2, b2, 1);
    lemma_sp_ws_stay(s, r2);
    lemma_sp_ws_stay(s, r2 + 1);
    assert(text_at(s, r2 + 1, enc_string("content"@))) by {
        lemma_enc_str_plain("content"@);
        assert(enc_string("content"@).len() == 9);
        assert forall|x: int| 0 <= x < 9 implies s[r2 + 1 + x] == enc_string(
            "content"@,
        )[x] by {
            lemma_text_at_index(s, r2, b2, 1 + x);
        }
    }
    lemma_key_rt(s, r2 + 1, "content"@);
    lemma_text_at_index(s, r2, b2, 10);
    assert(s[r2 + 10] == ':');
    lemma_sp_ws_stay(s, r2 + 10);
    assert(!is_ws(s[r3])) by {
        match v.content {
            None => {
                reveal_strlit("null");
                lemma_text_at_index(s, r3, b3, 0);
            },
            Some(c) => {
                lemma_enc_string_shape(c);
                lemma_text_at_index(s, r3, b3, 0);
            },
        }
    }
    lemma_sp_ws_stay(s, r3);
    lemma_opt_string_rt(s, r3, v.content);
    lemma_text_at_index(s, r4, b4, 0);
    lemma_text_at_index(s, r4, b4, 1);
    lemma_sp_ws_stay(s, r4);
    lemma_sp_ws_stay(s, r4 + 1);
    assert(text_at(s, r4 + 1, enc_string("screenshot"@))) by {
        lemma_enc_str_plain("screenshot"@);
        assert(enc_string("screenshot"@).len() == 12);
        assert forall|x: int| 0 <= x < 12 implies s[r4 + 1 + x] == enc_string(
            "screenshot"@,
        )[x] by {
            lemma_text_at_index(s, r4, b4, 1 + x);
        }
    }
    lemma_key_rt(s, r4 + 1, "screenshot"@);
    lemma_text_at_index(s, r4, b4, 13);
    assert(s[r4 + 13] == ':');
    lemma_sp_ws_stay(s, r4 + 13);
    assert(!is_ws(s[r5])) by {
        match v.screenshot {
            None => {
                reveal_strlit("null");
                lemma_text_at_index(s, r5, b5, 0);
            },
            Some(c) => {
                lemma_enc_string_shape(c);
                lemma_text_at_index(s, r5, b5, 0);
            },
        }
    }
    lemma_sp_ws_stay(s, r5);
    lemma_opt_string_rt(s, r5, v.screenshot);
    lemma_text_at_index(s, r6, b6, 0);
    lemma_text_at_index(s, r6, b6, 1);
    lemma_sp_ws_stay(s, r6);
    lemma_sp_ws_stay(s, r6 + 1);
    assert(text_at(s, r6 + 1, enc_string("extra"@))) by {
        lemma_enc_str_plain("extra"@);
        assert(enc_string("extra"@).len() == 7);
        assert forall|x: int| 0 <= x < 7 implies s[r6 + 1 + x] == enc_string(
            "extra"@,
        )[x] by {
            lemma_text_at_index(s, r6, b6, 1 + x);
        }
    }
    lemma_key_rt(s, r6 + 1, "extra"@);
    lemma_text_at_index(s, r6, b6, 8);
    assert(s[r6 + 8] == ':');
    lemma_sp_ws_stay(s, r6 + 8);
    assert(!is_ws(s[r7])) by {
        match v.extra {
            None => {
                reveal_strlit("null");
                lemma_text_at_index(s, r7, b7, 0);
            },
            Some(c) => {
                lemma_enc_string_shape(c);
                lemma_text_at_index(s, r7, b7, 0);
            },
        }
    }
    lemma_sp_ws_stay(s, r7);
    lemma_opt_string_rt(s, r7, v.extra);
    lemma_text_at_index(s, r8, b8, 0);
    assert(s[r8] == '}');
    lemma_sp_ws_stay(s, r8);
    let acc0 = acc;
    let acc1 = DirAcc { title: Some(v.title), ..acc0 };
    let acc2 = DirAcc { content: Some(v.content), ..acc1 };
    let acc3 = DirAcc { screenshot: Some(v.screenshot), ..acc2 };
    let acc4 = DirAcc { extra: Some(v.extra), ..acc3 };
    assert(sp_dir_fields(s, r6 + 1, acc3) == Some((acc4, r8 + 1)));
    assert(sp_dir_fields(s, r4 + 1, acc2) == Some((acc4, r8 + 1)));
    assert(sp_dir_fields(s, r2 + 1, acc1) == Some((acc4, r8 + 1)));
    assert(sp_dir_fields(s, r0 + 1, acc0) == Some((acc4, r8 + 1)));
}

/// Round trip of one dir record.
#[verifier::rlimit(100)]
pub proof fn lemma_dir_item_rt(s: Seq<char>, i: int, v: SpecDirItem)
    requires
        text_at(s, i, enc_dir_item(v)),
    ensures
        sp_dir_item(s, i) == Some((v, i + enc_dir_item(v).len())),
{
    reveal_strlit("{\"path\":");
    reveal_strlit(",\"status_code\":");
    reveal_strlit(",\"method\":");
    reveal_strlit(",\"title\":");
    reveal_strlit(",\"content\":");
    reveal_strlit(",\"screenshot\":");
    reveal_strlit(",\"extra\":");
    reveal_strlit("}");
    reveal_strlit("path");
    reveal_strlit("status_code");
    reveal_strlit("method");
    let e = enc_dir_item(v);
    let c0 = "{\"path\":"@;
    let c1 = enc_string(v.path);
    let c2 = ",\"status_code\":"@;
    let c3 = enc_u16(v.status_code as int);
    let c4 = ",\"method\":"@;
    let c5 = enc_string(v.method);
    let c6 = ",\"title\":"@;
    let c7 = enc_opt_string(v.title);
    let c8 = ",\"content\":"@;
    let c9 = enc_opt_string(v.content);
    let c10 = ",\"screenshot\":"@;
    let c11 = enc_opt_string(v.screenshot);
    let c12 = ",\"extra\":"@;
    let c13 = enc_opt_string(v.extra);
    let c14 = "}"@;
    let p13 = c0 + c1 + c2 + c3 + c4 + c5 + c6 + c7 + c8 + c9 + c10 + c11 + c12 + c13;
    let p12 = c0 + c1 + c2 + c3 + c4 + c5 + c6 + c7 + c8 + c9 + c10 + c11 + c12;
    let p11 = c0 + c1 + c2 + c3 + c4 + c5 + c6 + c7 + c8 + c9 + c10 + c11;
    let p10 = c0 + c1 + c2 + c3 + c4 + c5 + c6 + c7 + c8 + c9 + c10;
    let p9 = c0 + c1 + c2 + c3 + c4 + c5 + c6 + c7 + c8 + c9;
    let p8 = c0 + c1 + c2 + c3 + c4 + c5 + c6 + c7 + c8;
    let p7 = c0 + c1 + c2 + c3 + c4 + c5 + c6 + c7;
    let p6 = c0 + c1 + c2 + c3 + c4 + c5 + c6;
    let p5 = c0 + c1 + c2 + c3 + c4 + c5;
    let p4 = c0 + c1 + c2 + c3 + c4;
    let p3 = c0 + c1 + c2 + c3;
    let p2 = c0 + c1 + c2;
    let p1 = c0 + c1;
    lemma_text_at_concat(s, i, p13, c14);
    lemma_text_at_concat(s, i, p12, c13);
    lemma_text_at_concat(s, i, p11, c12);
    lemma_text_at_concat(s, i, p10, c11);
    lemma_text_at_concat(s, i, p9, c10);
    lemma_text_at_concat(s, i, p8, c9);
    lemma_text_at_concat(s, i, p7, c8);
    lemma_text_at_concat(s, i, p6, c7);
    lemma_text_at_concat(s, i, p5, c6);
    lemma_text_at_concat(s, i, p4, c5);
    lemma_text_at_concat(s, i, p3, c4);
    lemma_text_at_concat(s, i, p2, c3);
    lemma_text_at_concat(s, i, p1, c2);
    lemma_text_at_concat(s, i, c0, c1);
    let q1 = i + p1.len() - c1.len();
    let q3 = i + p3.len() - c3.len();
    let q5 = i + p5.len() - c5.len();
    let q7 = i + p7.len() - c7.len();
    let q9 = i + p9.len() - c9.len();
    let q11 = i + p11.len() - c11.len();
    let q13 = i + p13.len() - c13.len();
    lemma_text_at_index(s, i, c0, 0);
    lemma_text_at_index(s, i, c0, 1);
    assert(s[i] == '{' && s[i + 1] == '"');
    lemma_sp_ws_stay(s, i + 1);
    assert(text_at(s, i + 1, enc_string("path"@))) by {
        lemma_enc_str_plain("path"@);
        assert(enc_string("path"@).len() == 6);
        assert forall|x: int| 0 <= x < 6 implies s[i + 1 + x] == enc_string(
            "path"@,
        )[x] by {
            lemma_text_at_index(s, i, c0, 1 + x);
        }
    }
    lemma_key_rt(s, i + 1, "path"@);
    lemma_text_at_index(s, i, c0, 7);
    assert(s[i + 7] == ':');
    lemma_sp_ws_stay(s, i + 7);
    lemma_enc_string_shape(v.path);
    lemma_text_at_index(s, q1, c1, 0);
    lemma_sp_ws_stay(s, q1);
    lemma_string_rt(s, q1, v.path);
    lemma_text_at_index(s, q1 + c1.len(), c2, 0);
    lemma_text_at_index(s, q1 + c1.len(), c2, 1);
    lemma_sp_ws_stay(s, q1 + c1.len());
    lemma_sp_ws_stay(s, q1 + c1.len() + 1);
    assert(text_at(s, q1 + c1.len() + 1, enc_string("status_code"@))) by {
        lemma_enc_str_plain("status_code"@);
        assert(enc_string("status_code"@).len() == 13);
        assert forall|x: int| 0 <= x < 13 implies s[q1 + c1.len() + 1 + x] == enc_string(
            "status_code"@,
        )[x] by {
            lemma_text_at_index(s, q1 + c1.len(), c2, 1 + x);
        }
    }
    lemma_key_rt(s, q1 + c1.len() + 1, "status_code"@);
    lemma_text_at_index(s, q1 + c1.len(), c2, 14);
    assert(s[q1 + c1.len() + 14] == ':');
    lemma_sp_ws_stay(s, q1 + c1.len() + 14);
    lemma_enc_u16_props(v.status_code as int);
    lemma_text_at_index(s, q3, c3, 0);
    assert(is_digit(s[q3]) && !is_ws(s[q3]));
    lemma_sp_ws_stay(s, q3);
    lemma_text_at_index(s, q3 + c3.len(), c4, 0);
    assert(s[q3 + c3.len()] == ',' && !is_digit(','));
    lemma_u16_rt(s, q3, v.status_code);
    lemma_text_at_index(s, q3 + c3.len(), c4, 0);
    lemma_text_at_index(s, q3 + c3.len(), c4, 1);
    lemma_sp_ws_stay(s, q3 + c3.len());
    lemma_sp_ws_stay(s, q3 + c3.len() + 1);
    assert(text_at(s, q3 + c3.len() + 1, enc_string("method"@))) by {
        lemma_enc_str_plain("method"@);
        assert(enc_string("method"@).len() == 8);
        assert forall|x: int| 0 <= x < 8 implies s[q3 + c3.len() + 1 + x] == enc_string(
            "method"@,
        )[x] by {
            lemma_text_at_index(s, q3 + c3.len(), c4, 1 + x);
        }
    }
    lemma_key_rt(s, q3 + c3.len() + 1, "method"@);
    lemma_text_at_index(s, q3 + c3.len(), c4, 9);
    assert(s[q3 + c3.len() + 9] == ':');
    lemma_sp_ws_stay(s, q3 + c3.len() + 9);
    lemma_enc_string_shape(v.method);
    lemma_text_at_index(s, q5, c5, 0);
    lemma_sp_ws_stay(s, q5);
    lemma_string_rt(s, q5, v.method);
    lemma_text_at_index(s, q5 + c5.len(), c6, 0);
    lemma_text_at_index(s, q5 + c5.len(), c6, 1);
    lemma_sp_ws_stay(s, q5 + c5.len());
    lemma_sp_ws_stay(s, q5 + c5.len() + 1);
    let acc0 = dir_acc0();
    let acc1 = DirAcc { path: Some(v.path), ..acc0 };
    let acc2 = DirAcc { status_code: Some(v.status_code), ..acc1 };
    let acc3 = DirAcc { method: Some(v.method), ..acc2 };
    lemma_dir_tail_rt(s, q5 + c5.len(), v, acc3);
    let accf = DirAcc { title: Some(v.title), content: Some(v.content), screenshot: Some(v.screenshot), extra: Some(v.extra), ..acc3 };
    let endp = i + e.len();
    assert(sp_dir_fields(s, q3 + c3.len() + 1, acc2) == Some((accf, endp)));
    assert(sp_dir_fields(s, q1 + c1.len() + 1, acc1) == Some((accf, endp)));
    assert(sp_dir_fields(s, i + 1, acc0) == Some((accf, endp)));
    assert(dir_finish(accf) == Some(v)) by {
        assert(dir_finish(accf)->0 =~= v);
    }
    assert(sp_dir_item(s, i) == Some((v, i + e.len())));
}

pub proof fn lemma_enc_port_list_shape(items: Seq<SpecPortItem>)
    ensures
        enc_port_list(items).len() >= 2,
        enc_port_list(items)[0] == '[',
{
    if items.len() == 0 {
        reveal_strlit("[]");
    } else {
        assert(enc_port_list(items)[0] == (seq!['['] + enc_port_item(items[0]))[0]);
    }
}

/// Elements after the first of an encoded array parse back and extend the accumulator.
pub proof fn lemma_port_more_rt(s: Seq<char>, i: int, acc: Seq<SpecPortItem>, items: Seq<SpecPortItem>)
    requires
        text_at(s, i, enc_port_rest(items) + seq![']']),
    ensures
        sp_port_more(s, i, acc) == Some((acc + items, i + enc_port_rest(items).len() + 1)),
    decreases items.len(),
{
    if items.len() == 0 {
        lemma_text_at_index(s, i, enc_port_rest(items) + seq![']'], 0);
        assert(s[i] == ']');
        lemma_sp_ws_stay(s, i);
        assert(acc + items =~= acc);
    } else {
        let x = items[0];
        let rest = items.drop_first();
        assert(enc_port_rest(items) == seq![','] + enc_port_item(x) + enc_port_rest(rest));
        assert((seq![','] + enc_port_item(x) + enc_port_rest(rest)) + seq![']'] =~= seq![','] + (
        enc_port_item(x) + (enc_port_rest(rest) + seq![']'])));
        lemma_text_at_concat(s, i, seq![','], enc_port_item(x) + (enc_port_rest(rest) + seq![']']));
        lemma_text_at_concat(s, i + 1, enc_port_item(x), enc_port_rest(rest) + seq![']']);
        lemma_text_at_index(s, i, seq![','], 0);
        assert(s[i] == ',');
        lemma_sp_ws_stay(s, i);
        lemma_enc_port_item_shape(x);
        lemma_text_at_index(s, i + 1, enc_port_item(x), 0);
        lemma_sp_ws_stay(s, i + 1);
        lemma_port_item_rt(s, i + 1, x);
        lemma_port_more_rt(s, i + 1 + enc_port_item(x).len(), acc.push(x), rest);
        assert(acc.push(x) + rest =~= acc + items);
    }
}

/// Round trip of an encoded array of port records.
pub proof fn lemma_port_list_rt(s: Seq<char>, i: int, items: Seq<SpecPortItem>)
    requires
        text_at(s, i, enc_port_list(items)),
    ensures
        sp_port_list(s, i) == Some((items, i + enc_port_list(items).len())),
{
    if items.len() == 0 {
        reveal_strlit("[]");
        lemma_text_at_index(s, i, "[]"@, 0);
        lemma_text_at_index(s, i, "[]"@, 1);
        lemma_sp_ws_stay(s, i + 1);
        assert(Seq::<SpecPortItem>::empty() =~= items);
    } else {
        let x = items[0];
        let rest = items.drop_first();
        assert(enc_port_list(items) == seq!['['] + enc_port_item(x) + enc_port_rest(rest) + seq![']']);
        assert((seq!['['] + enc_port_item(x) + enc_port_rest(rest)) + seq![']'] =~= seq!['['] + (
        enc_port_item(x) + (enc_port_rest(rest) + seq![']'])));
        lemma_text_at_concat(s, i, seq!['['], enc_port_item(x) + (enc_port_rest(rest) + seq![']']));
        lemma_text_at_concat(s, i + 1, enc_port_item(x), enc_port_rest(rest) + seq![']']);
        lemma_text_at_index(s, i, seq!['['], 0);
        assert(s[i] == '[');
        lemma_enc_port_item_shape(x);
        lemma_text_at_index(s, i + 1, enc_port_item(x), 0);
        lemma_sp_ws_stay(s, i + 1);
        lemma_port_item_rt(s, i + 1, x);
        lemma_port_more_rt(s, i + 1 + enc_port_item(x).len(), seq![x], rest);
        assert(seq![x] + rest =~= items);
    }
}

pub proof fn lemma_enc_vuln_list_shape(items: Seq<SpecVulnItem>)
    ensures
        enc_vuln_list(items).len() >= 2,
        enc_vuln_list(items)[0] == '[',
{
    if items.len() == 0 {
        reveal_strlit("[]");
    } else {
        assert(enc_vuln_list(items)[0] == (seq!['['] + enc_vuln_item(items[0]))[0]);
    }
}

/// Elements after the first of an encoded array parse back and extend the accumulator.
pub proof fn lemma_vuln_more_rt(s: Seq<char>, i: int, acc: Seq<SpecVulnItem>, items: Seq<SpecVulnItem>)
    requires
        text_at(s, i, enc_vuln_rest(items) + seq![']']),
    ensures
        sp_vuln_more(s, i, acc) == Some((acc + items, i + enc_vuln_rest(items).len() + 1)),
    decreases items.len(),
{
    if items.len() == 0 {
        lemma_text_at_index(s, i, enc_vuln_rest(items) + seq![']'], 0);
        assert(s[i] == ']');
        lemma_sp_ws_stay(s, i);
        assert(acc + items =~= acc);
    } else {
        let x = items[0];
        let rest = items.drop_first();
        assert(enc_vuln_rest(items) == seq![','] + enc_vuln_item(x) + enc_vuln_rest(rest));
        assert((seq![','] + enc_vuln_item(x) + enc_vuln_rest(rest)) + seq![']'] =~= seq![','] + (
        enc_vuln_item(x) + (enc_vuln_rest(rest) + seq![']'])));
        lemma_text_at_concat(s, i, seq![','], enc_vuln_item(x) + (enc_vuln_rest(rest) + seq![']']));
        lemma_text_at_concat(s, i + 1, enc_vuln_item(x), enc_vuln_rest(rest) + seq![']']);
        lemma_text_at_index(s, i, seq![','], 0);
        assert(s[i] == ',');
        lemma_sp_ws_stay(s, i);
        lemma_enc_vuln_item_shape(x);
        lemma_text_at_index(s, i + 1, enc_vuln_item(x), 0);
        lemma_sp_ws_stay(s, i + 1);
        lemma_vuln_item_rt(s, i + 1, x);
        lemma_vuln_more_rt(s, i + 1 + enc_vuln_item(x).len(), acc.push(x), rest);
        assert(acc.push(x) + rest =~= acc + items);
    }
}

/// Round trip of an encoded array of vuln records.
pub proof fn lemma_vuln_list_rt(s: Seq<char>, i: int, items: Seq<SpecVulnItem>)
    requires
        text_at(s, i, enc_vuln_list(items)),
    ensures
        sp_vuln_list(s, i) == Some((items, i + enc_vuln_list(items).len())),
{
    if items.len() == 0 {
        reveal_strlit("[]");
        lemma_text_at_index(s, i, "[]"@, 0);
        lemma_text_at_index(s, i, "[]"@, 1);
        lemma_sp_ws_stay(s, i + 1);
        assert(Seq::<SpecVulnItem>::empty() =~= items);
    } else {
        let x = items[0];
        let rest = items.drop_first();
        assert(enc_vuln_list(items) == seq!['['] + enc_vuln_item(x) + enc_vuln_rest(rest) + seq![']']);
        assert((seq!['['] + enc_vuln_item(x) + enc_vuln_rest(rest)) + seq![']'] =~= seq!['['] + (
        enc_vuln_item(x) + (enc_vuln_rest(rest) + seq![']'])));
        lemma_text_at_concat(s, i, seq!['['], enc_vuln_item(x) + (enc_vuln_rest(rest) + seq![']']));
        lemma_text_at_concat(s, i + 1, enc_vuln_item(x), enc_vuln_rest(rest) + seq![']']);
        lemma_text_at_index(s, i, seq!['['], 0);
        assert(s[i] == '[');
        lemma_enc_vuln_item_shape(x);
        lemma_text_at_index(s, i + 1, enc_vuln_item(x), 0);
        lemma_sp_ws_stay(s, i + 1);
        lemma_vuln_item_rt(s, i + 1, x);
        lemma_vuln_more_rt(s, i + 1 + enc_vuln_item(x).len(), seq![x], rest);
        assert(seq![x] + rest =~= items);
    }
}

pub proof fn lemma_enc_domain_list_shape(items: Seq<SpecDomainItem>)
    ensures
        enc_domain_list(items).len() >= 2,
        enc_domain_list(items)[0] == '[',
{
    if items.len() == 0 {
        reveal_strlit("[]");
    } else {
        assert(enc_domain_list(items)[0] == (seq!['['] + enc_domain_item(items[0]))[0]);
    }
}

/// Elements after the first of an encoded array parse back and extend the accumulator.
pub proof fn lemma_domain_more_rt(s: Seq<char>, i: int, acc: Seq<SpecDomainItem>, items: Seq<SpecDomainItem>)
    requires
        text_at(s, i, enc_domain_rest(items) + seq![']']),
    ensures
        sp_domain_more(s, i, acc) == Some((acc + items, i + enc_domain_rest(items).len() + 1)),
    decreases items.len(),
{
    if items.len() == 0 {
        lemma_text_at_index(s, i, enc_domain_rest(items) + seq![']'], 0);
        assert(s[i] == ']');
        lemma_sp_ws_stay(s, i);
        assert(acc + items =~= acc);
    } else {
        let x = items[0];
        let rest = items.drop_first();
        assert(enc_domain_rest(items) == seq![','] + enc_domain_item(x) + enc_domain_rest(rest));
        assert((seq![','] + enc_domain_item(x) + enc_domain_rest(rest)) + seq![']'] =~= seq![','] + (
        enc_domain_item(x) + (enc_domain_rest(rest) + seq![']'])));
        lemma_text_at_concat(s, i, seq![','], enc_domain_item(x) + (enc_domain_rest(rest) + seq![']']));
        lemma_text_at_concat(s, i + 1, enc_domain_item(x), enc_domain_rest(rest) + seq![']']);
        lemma_text_at_index(s, i, seq![','], 0);
        assert(s[i] == ',');
        lemma_sp_ws_stay(s, i);
        lemma_enc_domain_item_shape(x);
        lemma_text_at_index(s, i + 1, enc_domain_item(x), 0);
        lemma_sp_ws_stay(s, i + 1);
        lemma_domain_item_rt(s, i + 1, x);
        lemma_domain_more_rt(s, i + 1 + enc_domain_item(x).len(), acc.push(x), rest);
        assert(acc.push(x) + rest =~= acc + items);
    }
}

/// Round trip of an encoded array of domain records.
pub proof fn lemma_domain_list_rt(s: Seq<char>, i: int, items: Seq<SpecDomainItem>)
    requires
        text_at(s, i, enc_domain_list(items)),
    ensures
        sp_domain_list(s, i) == Some((items, i + enc_domain_list(items).len())),
{
    if items.len() == 0 {
        reveal_strlit("[]");
        lemma_text_at_index(s, i, "[]"@, 0);
        lemma_text_at_index(s, i, "[]"@, 1);
        lemma_sp_ws_stay(s, i + 1);
        assert(Seq::<SpecDomainItem>::empty() =~= items);
    } else {
        let x = items[0];
        let rest = items.drop_first();
        assert(enc_domain_list(items) == seq!['['] + enc_domain_item(x) + enc_domain_rest(rest) + seq![']']);
        assert((seq!['['] + enc_domain_item(x) + enc_domain_rest(rest)) + seq![']'] =~= seq!['['] + (
        enc_domain_item(x) + (enc_domain_rest(rest) + seq![']'])));
        lemma_text_at_concat(s, i, seq!['['], enc_domain_item(x) + (enc_domain_rest(rest) + seq![']']));
        lemma_text_at_concat(s, i + 1, enc_domain_item(x), enc_domain_rest(rest) + seq![']']);
        lemma_text_at_index(s, i, seq!['['], 0);
        assert(s[i] == '[');
        lemma_enc_domain_item_shape(x);
        lemma_text_at_index(s, i + 1, enc_domain_item(x), 0);
        lemma_sp_ws_stay(s, i + 1);
        lemma_domain_item_rt(s, i + 1, x);
        lemma_domain_more_rt(s, i + 1 + enc_domain_item(x).len(), seq![x], rest);
        assert(seq![x] + rest =~= items);
    }
}

pub proof fn lemma_enc_dir_list_shape(items: Seq<SpecDirItem>)
    ensures
        enc_dir_list(items).len() >= 2,
        enc_dir_list(items)[0] == '[',
{
    if items.len() == 0 {
        reveal_strlit("[]");
    } else {
        assert(enc_dir_list(items)[0] == (seq!['['] + enc_dir_item(items[0]))[0]);
    }
}

/// Elements after the first of an encoded array parse back and extend the accumulator.
pub proof fn lemma_dir_more_rt(s: Seq<char>, i: int, acc: Seq<SpecDirItem>, items: Seq<SpecDirItem>)
    requires
        text_at(s, i, enc_dir_rest(items) + seq![']']),
    ensures
        sp_dir_more(s, i, acc) == Some((acc + items, i + enc_dir_rest(items).len() + 1)),
    decreases items.len(),
{
    if items.len() == 0 {
        lemma_text_at_index(s, i, enc_dir_rest(items) + seq![']'], 0);
        assert(s[i] == ']');
        lemma_sp_ws_stay(s, i);
        assert(acc + items =~= acc);
    } else {
        let x = items[0];
        let rest = items.drop_first();
        assert(enc_dir_rest(items) == seq![','] + enc_dir_item(x) + enc_dir_rest(rest));
        assert((seq![','] + enc_dir_item(x) + enc_dir_rest(rest)) + seq![']'] =~= seq![','] + (
        enc_dir_item(x) + (enc_dir_rest(rest) + seq![']'])));
        lemma_text_at_concat(s, i, seq![','], enc_dir_item(x) + (enc_dir_rest(rest) + seq![']']));
        lemma_text_at_concat(s, i + 1, enc_dir_item(x), enc_dir_rest(rest) + seq![']']);
        lemma_text_at_index(s, i, seq![','], 0);
        assert(s[i] == ',');
        lemma_sp_ws_stay(s, i);
        lemma_enc_dir_item_shape(x);
        lemma_text_at_index(s, i + 1, enc_dir_item(x), 0);
        lemma_sp_ws_stay(s, i + 1);
        lemma_dir_item_rt(s, i + 1, x);
        lemma_dir_more_rt(s, i + 1 + enc_dir_item(x).len(), acc.push(x), rest);
        assert(acc.push(x) + rest =~= acc + items);
    }
}

/// Round trip of an encoded array of dir records.
pub proof fn lemma_dir_list_rt(s: Seq<char>, i: int, items: Seq<SpecDirItem>)
    requires
        text_at(s, i, enc_dir_list(items)),
    ensures
        sp_dir_list(s, i) == Some((items, i + enc_dir_list(items).len())),
{
    if items.len() == 0 {
        reveal_strlit("[]");
        lemma_text_at_index(s, i, "[]"@, 0);
        lemma_text_at_index(s, i, "[]"@, 1);
        lemma_sp_ws_stay(s, i + 1);
        assert(Seq::<SpecDirItem>::empty() =~= items);
    } else {
        let x = items[0];
        let rest = items.drop_first();
        assert(enc_dir_list(items) == seq!['['] + enc_dir_item(x) + enc_dir_rest(rest) + seq![']']);
        assert((seq!['['] + enc_dir_item(x) + enc_dir_rest(rest)) + seq![']'] =~= seq!['['] + (
        enc_dir_item(x) + (enc_dir_rest(rest) + seq![']'])));
        lemma_text_at_concat(s, i, seq!['['], enc_dir_item(x) + (enc_dir_rest(rest) + seq![']']));
        lemma_text_at_concat(s, i + 1, enc_dir_item(x), enc_dir_rest(rest) + seq![']']);
        lemma_text_at_index(s, i, seq!['['], 0);
        assert(s[i] == '[');
        lemma_enc_dir_item_shape(x);
        lemma_text_at_index(s, i + 1, enc_dir_item(x), 0);
        lemma_sp_ws_stay(s, i + 1);
        lemma_dir_item_rt(s, i + 1, x);
        lemma_dir_more_rt(s, i + 1 + enc_dir_item(x).len(), seq![x], rest);
        assert(seq![x] + rest =~= items);
    }
}


/// Tail of the scan object walk from the comma before `vulns`.
#[verifier::rlimit(100)]
proof fn lemma_scan_tail1_rt(s: Seq<char>, d: int, v: SpecScanResult, acc: ScanAcc)
    requires
        text_at(s, d, ",\"vulns\":"@),
        text_at(s, d + 9, enc_vuln_list(v.vulns)),
        text_at(s, d + 9 + enc_vuln_list(v.vulns).len(), ",\"domain\":"@),
        text_at(s, d + 9 + enc_vuln_list(v.vulns).len() + 10, enc_domain_list(v.domain)),
        text_at(s, d + 9 + enc_vuln_list(v.vulns).len() + 10 + enc_domain_list(v.domain).len(), ",\"dir\":"@),
        text_at(s, d + 9 + enc_vuln_list(v.vulns).len() + 10 + enc_domain_list(v.domain).len() + 7, enc_dir_list(v.dir)),
        text_at(s, d + 9 + enc_vuln_list(v.vulns).len() + 10 + enc_domain_list(v.domain).len() + 7 + enc_dir_list(v.dir).len(), "}"@),
        (acc.vulns is None),
        (acc.domain is None),
        (acc.dir is None),
    ensures
        sp_scan_fields(s, d + 1, acc) == Some(
            (ScanAcc { vulns: Some(v.vulns), domain: Some(v.domain), dir: Some(v.dir), ..acc }, d + 9 + enc_vuln_list(v.vulns).len() + 10 + enc_domain_list(v.domain).len() + 7 + enc_dir_list(v.dir).len() + 1),
        ),
{
    reveal_strlit("port");
    reveal_strlit("vulns");
    reveal_strlit("domain");
    reveal_strlit("dir");
    reveal_strlit(",\"vulns\":");
    reveal_strlit(",\"domain\":");
    reveal_strlit(",\"dir\":");
    reveal_strlit("}");
    let b0 = ",\"vulns\":"@;
    let b1 = enc_vuln_list(v.vulns);
    let b2 = ",\"domain\":"@;
    let b3 = enc_domain_list(v.domain);
    let b4 = ",\"dir\":"@;
    let b5 = enc_dir_list(v.dir);
    let b6 = "}"@;
    let r0 = d;
    let r1 = r0 + b0.len();
    let r2 = r1 + b1.len();
    let r3 = r2 + b2.len();
    let r4 = r3 + b3.len();
    let r5 = r4 + b4.len();
    let r6 = r5 + b5.len();
    lemma_text_at_index(s, r0, b0, 0);
    lemma_text_at_index(s, r0, b0, 1);
    lemma_sp_ws_stay(s, r0);
    lemma_sp_ws_stay(s, r0 + 1);
    assert(text_at(s, r0 + 1, enc_string("vulns"@))) by {
        lemma_enc_str_plain("vulns"@);
        assert(enc_string("vulns"@).len() == 7);
        assert forall|x: int| 0 <= x < 7 implies s[r0 + 1 + x] == enc_string(
            "vulns"@,
        )[x] by {
            lemma_text_at_index(s, r0, b0, 1 + x);
        }
    }
    lemma_key_rt(s, r0 + 1, "vulns"@);
    lemma_text_at_index(s, r0, b0, 8);
    assert(s[r0 + 8] == ':');
    lemma_sp_ws_stay(s, r0 + 8);
    lemma_enc_vuln_list_shape(v.vulns);
    lemma_text_at_index(s, r1, b1, 0);
    lemma_sp_ws_stay(s, r1);
    lemma_vuln_list_rt(s, r1, v.vulns);
    lemma_text_at_index(s, r2, b2, 0);
    lemma_text_at_index(s, r2, b2, 1);
    lemma_sp_ws_stay(s, r2);
    lemma_sp_ws_stay(s, r2 + 1);
    let acc1 = ScanAcc { vulns: Some(v.vulns), ..acc };
    assert(sp_string(s, d + 1) == Some(("vulns"@, d + 8)));
    assert(sp_scan_value(s, r1, acc, "vulns"@) == Some((acc1, r2)));
    lemma_scan_tail2_rt(s, r2, v, acc1);
    let accr = ScanAcc { domain: Some(v.domain), dir: Some(v.dir), ..acc1 };
    assert(sp_scan_fields(s, d + 1, acc) == Some((accr, d + 9 + enc_vuln_list(v.vulns).len() + 10 + enc_domain_list(v.domain).len() + 7 + enc_dir_list(v.dir).len() + 1)));
}

/// Tail of the scan object walk from the comma before `domain`.
#[verifier::rlimit(100)]
proof fn lemma_scan_tail2_rt(s: Seq<char>, d: int, v: SpecScanResult, acc: ScanAcc)
    requires
        text_at(s, d, ",\"domain\":"@),
        text_at(s, d + 10, enc_domain_list(v.domain)),
        text_at(s, d + 10 + enc_domain_list(v.domain).len(), ",\"dir\":"@),
        text_at(s, d + 10 + enc_domain_list(v.domain).len() + 7, enc_dir_list(v.dir)),
        text_at(s, d + 10 + enc_domain_list(v.domain).len() + 7 + enc_dir_list(v.dir).len(), "}"@),
        (acc.domain is None),
        (acc.dir is None),
    ensures
        sp_scan_fields(s, d + 1, acc) == Some(
            (ScanAcc { domain: Some(v.domain), dir: Some(v.dir), ..acc }, d + 10 + enc_domain_list(v.domain).len() + 7 + enc_dir_list(v.dir).len() + 1),
        ),
{
    reveal_strlit("port");
    reveal_strlit("vulns");
    reveal_strlit("domain");
    reveal_strlit("dir");
    reveal_strlit(",\"domain\":");
    reveal_strlit(",\"dir\":");
    reveal_strlit("}");
    let b0 = ",\"domain\":"@;
    let b1 = enc_domain_list(v.domain);
    let b2 = ",\"dir\":"@;
    let b3 = enc_dir_list(v.dir);
    let b4 = "}"@;
    let r0 = d;
    let r1 = r0 + b0.len();
    let r2 = r1 + b1.len();
    let r3 = r2 + b2.len();
    let r4 = r3 + b3.len();
    lemma_text_at_index(s, r0, b0, 0);
    lemma_text_at_index(s, r0, b0, 1);
    lemma_sp_ws_stay(s, r0);
    lemma_sp_ws_stay(s, r0 + 1);
    assert(text_at(s, r0 + 1, enc_string("domain"@))) by {
        lemma_enc_str_plain("domain"@);
        assert(enc_string("domain"@).len() == 8);
        assert forall|x: int| 0 <= x < 8 implies s[r0 + 1 + x] == enc_string(
            "domain"@,
        )[x] by {
            lemma_text_at_index(s, r0, b0, 1 + x);
        }
    }
    lemma_key_rt(s, r0 + 1, "domain"@);
    lemma_text_at_index(s, r0, b0, 9);
    assert(s[r0 + 9] == ':');
    lemma_sp_ws_stay(s, r0 + 9);
    lemma_enc_domain_list_shape(v.domain);
    lemma_text_at_index(s, r1, b1, 0);
    lemma_sp_ws_stay(s, r1);
    lemma_domain_list_rt(s, r1, v.domain);
    lemma_text_at_index(s, r2, b2, 0);
    lemma_text_at_index(s, r2, b2, 1);
    lemma_sp_ws_stay(s, r2);
    lemma_sp_ws_stay(s, r2 + 1);
    let acc1 = ScanAcc { domain: Some(v.domain), ..acc };
    assert(sp_string(s, d + 1) == Some(("domain"@, d + 9)));
    assert(sp_scan_value(s, r1, acc, "domain"@) == Some((acc1, r2)));
    lemma_scan_tail3_rt(s, r2, v, acc1);
    let accr = ScanAcc { dir: Some(v.dir), ..acc1 };
    assert(sp_scan_fields(s, d + 1, acc) == Some((accr, d + 10 + enc_domain_list(v.domain).len() + 7 + enc_dir_list(v.dir).len() + 1)));
}

/// Tail of the scan object walk from the comma before `dir`.
#[verifier::rlimit(100)]
proof fn lemma_scan_tail3_rt(s: Seq<char>, d: int, v: SpecScanResult, acc: ScanAcc)
    requires
        text_at(s, d, ",\"dir\":"@),
        text_at(s, d + 7, enc_dir_list(v.dir)),
        text_at(s, d + 7 + enc_dir_list(v.dir).len(), "}"@),
        (acc.dir is None),
    ensures
        sp_scan_fields(s, d + 1, acc) == Some(
            (ScanAcc { dir: Some(v.dir), ..acc }, d + 7 + enc_dir_list(v.dir).len() + 1),
        ),
{
    reveal_strlit("port");
    reveal_strlit("vulns");
    reveal_strlit("domain");
    reveal_strlit("dir");
    reveal_strlit(",\"dir\":");
    reveal_strlit("}");
    let b0 = ",\"dir\":"@;
    let b1 = enc_dir_list(v.dir);
    let b2 = "}"@;
    let r0 = d;
    let r1 = r0 + b0.len();
    let r2 = r1 + b1.len();
    lemma_text_at_index(s, r0, b0, 0);
    lemma_text_at_index(s, r0, b0, 1);
    lemma_sp_ws_stay(s, r0);
    lemma_sp_ws_stay(s, r0 + 1);
    assert(text_at(s, r0 + 1, enc_string("dir"@))) by {
        lemma_enc_str_plain("dir"@);
        assert(enc_string("dir"@).len() == 5);
        assert forall|x: int| 0 <= x < 5 implies s[r0 + 1 + x] == enc_string(
            "dir"@,
        )[x] by {
            lemma_text_at_index(s, r0, b0, 1 + x);
        }
    }
    lemma_key_rt(s, r0 + 1, "dir"@);
    lemma_text_at_index(s, r0, b0, 6);
    assert(s[r0 + 6] == ':');
    lemma_sp_ws_stay(s, r0 + 6);
    lemma_enc_dir_list_shape(v.dir);
    lemma_text_at_index(s, r1, b1, 0);
    lemma_sp_ws_stay(s, r1);
    lemma_dir_list_rt(s, r1, v.dir);
    lemma_text_at_index(s, r2, b2, 0);
    assert(s[r2] == '}');
    lemma_sp_ws_stay(s, r2);
    let acc1 = ScanAcc { dir: Some(v.dir), ..acc };
    assert(sp_string(s, d + 1) == Some(("dir"@, d + 6)));
    assert(sp_scan_value(s, r1, acc, "dir"@) == Some((acc1, r2)));
    assert(sp_scan_fields(s, d + 1, acc) == Some((acc1, r2 + 1)));
}

/// Parse facts for the first field of the aggregate object.
#[verifier::rlimit(100)]
proof fn lemma_scan_first_field_rt(s: Seq<char>, i: int, v: SpecScanResult)
    requires
        text_at(s, i, "{\"port\":"@),
        text_at(s, i + 8, enc_port_list(v.port)),
        text_at(s, i + 8 + enc_port_list(v.port).len(), ",\"vulns\":"@),
    ensures
        s.len() > i + 1,
        s[i] == '{',
        s[i + 1] == '"',
        sp_ws(s, i + 1) == i + 1,
        sp_string(s, i + 1) == Some(("port"@, i + 7)),
        sp_ws(s, i + 7) == i + 7,
        s[i + 7] == ':',
        sp_ws(s, i + 8) == i + 8,
        sp_scan_value(s, i + 8, scan_acc0(), "port"@) == Some(
            (
                ScanAcc { port: Some(v.port), ..scan_acc0() },
                i + 8 + enc_port_list(v.port).len(),
            ),
        ),
        sp_ws(s, i + 8 + enc_port_list(v.port).len()) == i + 8 + enc_port_list(v.port).len(),
        s[i + 8 + enc_port_list(v.port).len()] == ',',
        sp_ws(s, i + 8 + enc_port_list(v.port).len() + 1) == i + 8 + enc_port_list(v.port).len()
            + 1,
{
    reveal_strlit("{\"port\":");
    reveal_strlit("port");
    reveal_strlit(",\"vulns\":");
    let c0 = "{\"port\":"@;
    let c1 = enc_port_list(v.port);
    let q1 = i + 8;
    lemma_text_at_index(s, i, c0, 0);
    lemma_text_at_index(s, i, c0, 1);
    assert(s[i] == '{' && s[i + 1] == '"');
    lemma_sp_ws_stay(s, i + 1);
    assert(text_at(s, i + 1, enc_string("port"@))) by {
        lemma_enc_str_plain("port"@);
        assert(enc_string("port"@).len() == 6);
        assert forall|x: int| 0 <= x < 6 implies s[i + 1 + x] == enc_string("port"@)[x] by {
            lemma_text_at_index(s, i, c0, 1 + x);
        }
    }
    lemma_key_rt(s, i + 1, "port"@);
    lemma_text_at_index(s, i, c0, 7);
    assert(s[i + 7] == ':');
    lemma_sp_ws_stay(s, i + 7);
    lemma_enc_port_list_shape(v.port);
    lemma_text_at_index(s, q1, c1, 0);
    lemma_sp_ws_stay(s, q1);
    lemma_port_list_rt(s, q1, v.port);
    let d = q1 + c1.len();
    let c2 = ",\"vulns\":"@;
    lemma_text_at_index(s, d, c2, 0);
    lemma_text_at_index(s, d, c2, 1);
    lemma_sp_ws_stay(s, d);
    lemma_sp_ws_stay(s, d + 1);
}

/// Round trip of one aggregate object.
#[verifier::rlimit(100)]
pub proof fn lemma_scan_obj_rt(s: Seq<char>, i: int, v: SpecScanResult)
    requires
        text_at(s, i, enc_scan_result(v)),
    ensures
        sp_scan_obj(s, i) == Some((v, i + enc_scan_result(v).len())),
{
    reveal_strlit("{\"port\":");
    reveal_strlit(",\"vulns\":");
    reveal_strlit(",\"domain\":");
    reveal_strlit(",\"dir\":");
    reveal_strlit("}");
    let e = enc_scan_result(v);
    let c0 = "{\"port\":"@;
    let c1 = enc_port_list(v.port);
    let c2 = ",\"vulns\":"@;
    let c3 = enc_vuln_list(v.vulns);
    let c4 = ",\"domain\":"@;
    let c5 = enc_domain_list(v.domain);
    let c6 = ",\"dir\":"@;
    let c7 = enc_dir_list(v.dir);
    let c8 = "}"@;
    let p7 = c0 + c1 + c2 + c3 + c4 + c5 + c6 + c7;
    let p6 = c0 + c1 + c2 + c3 + c4 + c5 + c6;
    let p5 = c0 + c1 + c2 + c3 + c4 + c5;
    let p4 = c0 + c1 + c2 + c3 + c4;
    let p3 = c0 + c1 + c2 + c3;
    let p2 = c0 + c1 + c2;
    let p1 = c0 + c1;
    lemma_text_at_concat(s, i, p7, c8);
    lemma_text_at_concat(s, i, p6, c7);
    lemma_text_at_concat(s, i, p5, c6);
    lemma_text_at_concat(s, i, p4, c5);
    lemma_text_at_concat(s, i, p3, c4);
    lemma_text_at_concat(s, i, p2, c3);
    lemma_text_at_concat(s, i, p1, c2);
    lemma_text_at_concat(s, i, c0, c1);
    lemma_scan_first_field_rt(s, i, v);
    let d = i + 8 + enc_port_list(v.port).len();
    let acc0 = scan_acc0();
    let acc1 = ScanAcc { port: Some(v.port), ..acc0 };
    lemma_scan_tail1_rt(s, d, v, acc1);
    let accf = ScanAcc {
        vulns: Some(v.vulns),
        domain: Some(v.domain),
        dir: Some(v.dir),
        ..acc1
    };
    let endp = i + e.len();
    assert(sp_scan_fields(s, i + 1, acc0) == Some((accf, endp)));
    assert(scan_finish(accf) == Some(v)) by {
        assert(scan_finish(accf)->0 =~= v);
    }
    assert(sp_scan_obj(s, i) == Some((v, i + e.len())));
}

pub proof fn lemma_enc_scan_result_shape(v: SpecScanResult)
    ensures
        enc_scan_result(v).len() >= 2,
        enc_scan_result(v)[0] == '{',
{
    reveal_strlit("{\"port\":");
    let c0 = "{\"port\":"@;
    assert(enc_scan_result(v)[0] == c0[0]);
}

/// The round-trip law of the wire contract: decoding the canonical encoding
/// of any aggregate — including one whose four sequences are all empty —
/// yields exactly the encoded value, every field and every element in order.
pub proof fn lemma_scan_round_trip(m: SpecScanResult)
    ensures
        sp_scan_doc(enc_scan_result(m)) == Some(m),
{
    let s = enc_scan_result(m);
    assert(text_at(s, 0, s));
    lemma_enc_scan_result_shape(m);
    assert(s[0] == '{');
    lemma_sp_ws_stay(s, 0);
    lemma_scan_obj_rt(s, 0, m);
    lemma_sp_ws_stay(s, s.len() as int);
}

/// Optionality law: every optional field of a port record survives the round
/// trip exactly — an absent field comes back absent, a present one (even an
/// empty string) comes back with its content — and the encodings of a record
/// with an absent field and of the same record with that field present but
/// empty differ.
pub proof fn lemma_optional_field_distinct(v1: SpecPortItem, v2: SpecPortItem)
    requires
        (v1.banner is None),
        v2 == (SpecPortItem { banner: Some(Seq::<char>::empty()), ..v1 }),
    ensures
        ((sp_port_item(enc_port_item(v1), 0)->0).0.banner is None),
        (sp_port_item(enc_port_item(v2), 0)->0).0.banner == Some(Seq::<char>::empty()),
        enc_port_item(v1) != enc_port_item(v2),
{
    let e1 = enc_port_item(v1);
    let e2 = enc_port_item(v2);
    assert(text_at(e1, 0, e1));
    assert(text_at(e2, 0, e2));
    lemma_port_item_rt(e1, 0, v1);
    lemma_port_item_rt(e2, 0, v2);
    if e1 == e2 {
        assert((sp_port_item(e1, 0)->0).0 == v1);
        assert((sp_port_item(e2, 0)->0).0 == v2);
        assert(v1 == v2);
        assert(false);
    }
}

} // verus!
