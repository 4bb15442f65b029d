//! Cross-checks against a general-purpose JSON implementation: what this
//! crate encodes must be plain JSON that other readers understand, with the
//! exact field names and shapes of the wire contract.

use scan_contract::invoke::PackageStdoutResult;
use scan_contract::schema::{PortResultItem, ScanResult, VulnResultItem};

#[test]
fn encoded_scan_result_is_plain_json() {
    let mut r = ScanResult::new();
    r.port.push(PortResultItem {
        ip: String::from("10.0.0.1"),
        port: 443,
        protocol: String::from("tcp"),
        banner: Some(String::from("h\"i\n")),
        extra: None,
    });
    r.vulns.push(VulnResultItem {
        title: String::from("t"),
        url: String::from("u"),
        description: String::from("d"),
    });
    let text = r.to_json();
    let v: serde_json::Value = serde_json::from_str(&text).expect("other readers must parse it");
    assert_eq!(v["port"][0]["ip"], serde_json::Value::String(String::from("10.0.0.1")));
    assert_eq!(v["port"][0]["port"], serde_json::Value::from(443u16));
    assert_eq!(v["port"][0]["banner"], serde_json::Value::String(String::from("h\"i\n")));
    assert!(v["port"][0]["extra"].is_null());
    assert_eq!(v["vulns"][0]["title"], serde_json::Value::String(String::from("t")));
    assert!(v["domain"].as_array().unwrap().is_empty());
    assert!(v["dir"].as_array().unwrap().is_empty());
}

#[test]
fn decoder_reads_json_written_by_another_encoder() {
    let mut obj = serde_json::Map::new();
    let mut item = serde_json::Map::new();
    item.insert(String::from("ip"), serde_json::Value::String(String::from("8.8.8.8")));
    item.insert(String::from("port"), serde_json::Value::from(53u16));
    item.insert(String::from("protocol"), serde_json::Value::String(String::from("udp")));
    item.insert(String::from("banner"), serde_json::Value::Null);
    item.insert(String::from("extra"), serde_json::Value::String(String::from("x")));
    obj.insert(
        String::from("port"),
        serde_json::Value::Array(vec![serde_json::Value::Object(item)]),
    );
    obj.insert(String::from("vulns"), serde_json::Value::Array(vec![]));
    obj.insert(String::from("domain"), serde_json::Value::Array(vec![]));
    obj.insert(String::from("dir"), serde_json::Value::Array(vec![]));
    let text = serde_json::to_string(&serde_json::Value::Object(obj)).unwrap();
    let back = ScanResult::from_json(&text).expect("foreign encoder output must decode");
    assert_eq!(back.port.len(), 1);
    assert_eq!(back.port[0].ip, "8.8.8.8");
    assert_eq!(back.port[0].port, 53);
    assert_eq!(back.port[0].protocol, "udp");
    assert_eq!(back.port[0].banner, None);
    assert_eq!(back.port[0].extra.as_deref(), Some("x"));
}

#[test]
fn outcome_line_is_plain_json() {
    let line = PackageStdoutResult::ok(String::from("/tmp/out.json")).to_json_line();
    let v: serde_json::Value = serde_json::from_str(&line).unwrap();
    assert_eq!(v["success"], serde_json::Value::Bool(true));
    assert_eq!(v["result_path"], serde_json::Value::String(String::from("/tmp/out.json")));
    assert!(v["error"].is_null());
}
