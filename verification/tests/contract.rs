use scan_contract::invoke::{PackageArgs, PackageStdoutResult};
use scan_contract::schema::{
    DirResultItem, DomainResultItem, PortResultItem, ScanResult, VulnResultItem,
};

fn sample_scan_result() -> ScanResult {
    ScanResult {
        port: vec![
            PortResultItem {
                ip: String::from("10.0.0.1"),
                port: 22,
                protocol: String::from("tcp"),
                banner: Some(String::from("OpenSSH 9.6")),
                extra: None,
            },
            PortResultItem {
                ip: String::from("10.0.0.2"),
                port: 65535,
                protocol: String::from("udp"),
                banner: None,
                extra: Some(String::from("fingerprint: \"quoted\"\nline2")),
            },
        ],
        vulns: vec![VulnResultItem {
            title: String::from("CVE-2024-0001"),
            url: String::from("http://10.0.0.1/"),
            description: String::from("example finding"),
        }],
        domain: vec![DomainResultItem {
            domain: String::from("example.test"),
            record_type: String::from("A"),
            record: String::from("10.0.0.1"),
            status_code: Some(200),
            title: Some(String::from("")),
            content: None,
            screenshot: None,
            extra: None,
        }],
        dir: vec![DirResultItem {
            path: String::from("/admin"),
            status_code: 403,
            method: String::from("GET"),
            title: None,
            content: None,
            screenshot: None,
            extra: None,
        }],
    }
}

#[test]
fn scan_result_round_trip() {
    let original = sample_scan_result();
    let text = original.to_json();
    let back = ScanResult::from_json(&text).expect("canonical encoding must decode");
    assert_eq!(back.port.len(), 2);
    assert_eq!(back.port[0].ip, "10.0.0.1");
    assert_eq!(back.port[0].port, 22);
    assert_eq!(back.port[0].protocol, "tcp");
    assert_eq!(back.port[0].banner.as_deref(), Some("OpenSSH 9.6"));
    assert_eq!(back.port[0].extra, None);
    assert_eq!(back.port[1].ip, "10.0.0.2");
    assert_eq!(back.port[1].port, 65535);
    assert_eq!(back.port[1].banner, None);
    assert_eq!(
        back.port[1].extra.as_deref(),
        Some("fingerprint: \"quoted\"\nline2")
    );
    assert_eq!(back.vulns.len(), 1);
    assert_eq!(back.vulns[0].title, "CVE-2024-0001");
    assert_eq!(back.vulns[0].url, "http://10.0.0.1/");
    assert_eq!(back.vulns[0].description, "example finding");
    assert_eq!(back.domain.len(), 1);
    assert_eq!(back.domain[0].domain, "example.test");
    assert_eq!(back.domain[0].record_type, "A");
    assert_eq!(back.domain[0].status_code, Some(200));
    assert_eq!(back.domain[0].title.as_deref(), Some(""));
    assert_eq!(back.domain[0].content, None);
    assert_eq!(back.dir.len(), 1);
    assert_eq!(back.dir[0].path, "/admin");
    assert_eq!(back.dir[0].status_code, 403);
    assert_eq!(back.dir[0].method, "GET");
}

#[test]
fn empty_scan_result_round_trip() {
    let empty = ScanResult::new();
    let text = empty.to_json();
    assert_eq!(text, "{\"port\":[],\"vulns\":[],\"domain\":[],\"dir\":[]}");
    let back = ScanResult::from_json(&text).expect("empty aggregate must decode");
    assert!(back.port.is_empty());
    assert!(back.vulns.is_empty());
    assert!(back.domain.is_empty());
    assert!(back.dir.is_empty());
}

#[test]
fn absent_field_distinct_from_empty() {
    let mut r = ScanResult::new();
    r.port.push(PortResultItem {
        ip: String::from("1.2.3.4"),
        port: 80,
        protocol: String::from("tcp"),
        banner: None,
        extra: None,
    });
    let absent = r.to_json();
    r.port[0].banner = Some(String::from(""));
    let empty = r.to_json();
    assert_ne!(absent, empty);
    let back_absent = ScanResult::from_json(&absent).unwrap();
    let back_empty = ScanResult::from_json(&empty).unwrap();
    assert_eq!(back_absent.port[0].banner, None);
    assert_eq!(back_empty.port[0].banner.as_deref(), Some(""));
}

#[test]
fn numeric_boundary_port() {
    let mut r = ScanResult::new();
    r.port.push(PortResultItem {
        ip: String::from("1.2.3.4"),
        port: 65535,
        protocol: String::from("tcp"),
        banner: None,
        extra: None,
    });
    let text = r.to_json();
    let back = ScanResult::from_json(&text).unwrap();
    assert_eq!(back.port[0].port, 65535);
}

#[test]
fn port_above_sixteen_bits_rejected() {
    let text = "{\"port\":[{\"ip\":\"1.2.3.4\",\"port\":65536,\"protocol\":\"tcp\",\
                \"banner\":null,\"extra\":null}],\"vulns\":[],\"domain\":[],\"dir\":[]}";
    assert!(ScanResult::from_json(text).is_err());
}

#[test]
fn decode_accepts_whitespace_field_order_and_unknown_fields() {
    let text = " { \"dir\" : [] , \"port\" : [ { \"protocol\" : \"tcp\" , \"port\" : 8080 ,\
                \"ip\" : \"9.9.9.9\" , \"note\" : { \"nested\" : [ 1 , true , \"x\" ] } } ] ,\
                \"vulns\" : [] , \"domain\" : [] , \"future\" : null } ";
    let back = ScanResult::from_json(text).expect("permissive reader must accept this");
    assert_eq!(back.port.len(), 1);
    assert_eq!(back.port[0].ip, "9.9.9.9");
    assert_eq!(back.port[0].port, 8080);
    assert_eq!(back.port[0].banner, None);
    assert_eq!(back.port[0].extra, None);
}

#[test]
fn decode_rejects_missing_required_field() {
    // no "protocol" on the port item
    let text = "{\"port\":[{\"ip\":\"1.2.3.4\",\"port\":80}],\"vulns\":[],\
                \"domain\":[],\"dir\":[]}";
    assert!(ScanResult::from_json(text).is_err());
    // no "vulns" category at the top level
    let text2 = "{\"port\":[],\"domain\":[],\"dir\":[]}";
    assert!(ScanResult::from_json(text2).is_err());
}

#[test]
fn decode_rejects_wrong_type_and_trailing_text() {
    let wrong = "{\"port\":[{\"ip\":\"1.2.3.4\",\"port\":\"eighty\",\"protocol\":\"tcp\"}],\
                 \"vulns\":[],\"domain\":[],\"dir\":[]}";
    assert!(ScanResult::from_json(wrong).is_err());
    let trailing = "{\"port\":[],\"vulns\":[],\"domain\":[],\"dir\":[]}x";
    assert!(ScanResult::from_json(trailing).is_err());
    assert!(ScanResult::from_json("not-json").is_err());
}

#[test]
fn string_escapes_round_trip() {
    let mut r = ScanResult::new();
    r.port.push(PortResultItem {
        ip: String::from("::1"),
        port: 1,
        protocol: String::from("tcp"),
        banner: Some(String::from("a\"b\\c/d\u{8}\u{c}\n\r\t\u{1}e\u{7f}é☃")),
        extra: None,
    });
    let text = r.to_json();
    let back = ScanResult::from_json(&text).unwrap();
    assert_eq!(back.port[0].banner, r.port[0].banner);
}

#[test]
fn outcome_success_line() {
    let line = PackageStdoutResult::ok(String::from("/tmp/out.json")).to_json_line();
    assert_eq!(
        line,
        "{\"success\":true,\"result_path\":\"/tmp/out.json\",\"error\":null}"
    );
}

#[test]
fn outcome_failure_line() {
    let line = PackageStdoutResult::err(String::from("scan timed out")).to_json_line();
    assert_eq!(
        line,
        "{\"success\":false,\"result_path\":null,\"error\":\"scan timed out\"}"
    );
}

#[test]
fn invocation_decode_valid() {
    let args = vec![
        String::from("prog"),
        String::from("{\"target\":\"10.0.0.1\",\"task_id\":\"abc\",\"params\":{\"timeout\":\"5\"}}"),
    ];
    let req = PackageArgs::parse_args(&args).expect("well-formed request must decode");
    assert_eq!(req.target, "10.0.0.1");
    assert_eq!(req.task_id, "abc");
    assert_eq!(req.params.len(), 1);
    assert_eq!(req.params[0].0, "timeout");
    assert_eq!(req.params[0].1, "5");
}

#[test]
fn invocation_decode_insufficient_arguments() {
    let args = vec![String::from("prog")];
    let err = match PackageArgs::parse_args(&args) {
        Err(e) => e,
        Ok(_) => panic!("expected an error"),
    };
    assert!(err.contains("Not enough arguments"));
    assert!(err.contains("prog"));
    let none: Vec<String> = vec![];
    assert!(PackageArgs::parse_args(&none).is_err());
}

#[test]
fn invocation_decode_malformed() {
    let args = vec![String::from("prog"), String::from("not-json")];
    let err = match PackageArgs::parse_args(&args) {
        Err(e) => e,
        Ok(_) => panic!("expected an error"),
    };
    assert!(err.contains("not-json"));
    let missing = vec![
        String::from("prog"),
        String::from("{\"target\":\"t\",\"params\":{}}"),
    ];
    assert!(PackageArgs::parse_args(&missing).is_err());
}

#[test]
fn invocation_decode_empty_params_and_extra_field() {
    let args = vec![
        String::from("prog"),
        String::from("{\"task_id\":\"1\",\"params\":{},\"mode\":[7],\"target\":\"t\"}"),
    ];
    let req = PackageArgs::parse_args(&args).unwrap();
    assert_eq!(req.target, "t");
    assert_eq!(req.task_id, "1");
    assert!(req.params.is_empty());
}
