//! The record types of the wire contract: one aggregate of four ordered
//! result sequences, one record type per scan category, the invocation
//! request, and the outcome record printed on standard output.
//!
//! Every record is a plain value; its mathematical model (`View`) replaces
//! strings by character sequences so that contracts can speak of contents.

use vstd::prelude::*;

verus! {

/// One open port found by a port scan.
#[derive(Clone, Debug)]
pub struct PortResultItem {
    pub ip: String,
    pub port: u16,
    pub protocol: String,
    pub banner: Option<String>,
    pub extra: Option<String>,
}

/// One vulnerability found by a vulnerability scan. All fields are required.
#[derive(Clone, Debug)]
pub struct VulnResultItem {
    pub title: String,
    pub url: String,
    pub description: String,
}

/// One resolved name found by a domain scan.
#[derive(Clone, Debug)]
pub struct DomainResultItem {
    pub domain: String,
    pub record_type: String,
    pub record: String,
    pub status_code: Option<u16>,
    pub title: Option<String>,
    pub content: Option<String>,
    pub screenshot: Option<String>,
    pub extra: Option<String>,
}

/// One path found by a directory scan.
#[derive(Clone, Debug)]
pub struct DirResultItem {
    pub path: String,
    pub status_code: u16,
    pub method: String,
    pub title: Option<String>,
    pub content: Option<String>,
    pub screenshot: Option<String>,
    pub extra: Option<String>,
}

/// Root aggregate: the four result categories, each an ordered sequence that
/// keeps discovery order and may be empty.
#[derive(Clone, Debug)]
pub struct ScanResult {
    pub port: Vec<PortResultItem>,
    pub vulns: Vec<VulnResultItem>,
    pub domain: Vec<DomainResultItem>,
    pub dir: Vec<DirResultItem>,
}

/// Model of an optional string field: absent, or present with its content.
pub open spec fn opt_view(o: Option<String>) -> Option<Seq<char>> {
    match o {
        None => None,
        Some(s) => Some(s@),
    }
}

#[verifier::ext_equal]
pub ghost struct SpecPortItem {
    pub ip: Seq<char>,
    pub port: u16,
    pub protocol: Seq<char>,
    pub banner: Option<Seq<char>>,
    pub extra: Option<Seq<char>>,
}

#[verifier::ext_equal]
pub ghost struct SpecVulnItem {
    pub title: Seq<char>,
    pub url: Seq<char>,
    pub description: Seq<char>,
}

#[verifier::ext_equal]
pub ghost struct SpecDomainItem {
    pub domain: Seq<char>,
    pub record_type: Seq<char>,
    pub record: Seq<char>,
    pub status_code: Option<u16>,
    pub title: Option<Seq<char>>,
    pub content: Option<Seq<char>>,
    pub screenshot: Option<Seq<char>>,
    pub extra: Option<Seq<char>>,
}

#[verifier::ext_equal]
pub ghost struct SpecDirItem {
    pub path: Seq<char>,
    pub status_code: u16,
    pub method: Seq<char>,
    pub title: Option<Seq<char>>,
    pub content: Option<Seq<char>>,
    pub screenshot: Option<Seq<char>>,
    pub extra: Option<Seq<char>>,
}

#[verifier::ext_equal]
pub ghost struct SpecScanResult {
    pub port: Seq<SpecPortItem>,
    pub vulns: Seq<SpecVulnItem>,
    pub domain: Seq<SpecDomainItem>,
    pub dir: Seq<SpecDirItem>,
}

impl View for PortResultItem {
    type V = SpecPortItem;

    open spec fn view(&self) -> SpecPortItem {
        SpecPortItem {
            ip: self.ip@,
            port: self.port,
            protocol: self.protocol@,
            banner: opt_view(self.banner),
            extra: opt_view(self.extra),
        }
    }
}

impl DeepView for PortResultItem {
    type V = SpecPortItem;

    open spec fn deep_view(&self) -> SpecPortItem {
        self.view()
    }
}

impl View for VulnResultItem {
    type V = SpecVulnItem;

    open spec fn view(&self) -> SpecVulnItem {
        SpecVulnItem { title: self.title@, url: self.url@, description: self.description@ }
    }
}

impl DeepView for VulnResultItem {
    type V = SpecVulnItem;

    open spec fn deep_view(&self) -> SpecVulnItem {
        self.view()
    }
}

impl View for DomainResultItem {
    type V = SpecDomainItem;

    open spec fn view(&self) -> SpecDomainItem {
        SpecDomainItem {
            domain: self.domain@,
            record_type: self.record_type@,
            record: self.record@,
            status_code: self.status_code,
            title: opt_view(self.title),
            content: opt_view(self.content),
            screenshot: opt_view(self.screenshot),
            extra: opt_view(self.extra),
        }
    }
}

impl DeepView for DomainResultItem {
    type V = SpecDomainItem;

    open spec fn deep_view(&self) -> SpecDomainItem {
        self.view()
    }
}

impl View for DirResultItem {
    type V = SpecDirItem;

    open spec fn view(&self) -> SpecDirItem {
        SpecDirItem {
            path: self.path@,
            status_code: self.status_code,
            method: self.method@,
            title: opt_view(self.title),
            content: opt_view(self.content),
            screenshot: opt_view(self.screenshot),
            extra: opt_view(self.extra),
        }
    }
}

impl DeepView for DirResultItem {
    type V = SpecDirItem;

    open spec fn deep_view(&self) -> SpecDirItem {
        self.view()
    }
}

impl View for ScanResult {
    type V = SpecScanResult;

    open spec fn view(&self) -> SpecScanResult {
        SpecScanResult {
            port: self.port.deep_view(),
            vulns: self.vulns.deep_view(),
            domain: self.domain.deep_view(),
            dir: self.dir.deep_view(),
        }
    }
}

impl ScanResult {
    /// An aggregate with all four categories empty: the default state of a
    /// module that has found nothing yet.
    pub fn new() -> (r: ScanResult)
        ensures
            r@.port.len() == 0,
            r@.vulns.len() == 0,
            r@.domain.len() == 0,
            r@.dir.len() == 0,
    {
        ScanResult { port: Vec::new(), vulns: Vec::new(), domain: Vec::new(), dir: Vec::new() }
    }
}

impl Default for ScanResult {
    fn default() -> (r: ScanResult)
        ensures
            r@.port.len() == 0,
            r@.vulns.len() == 0,
            r@.domain.len() == 0,
            r@.dir.len() == 0,
    {
        ScanResult::new()
    }
}

} // verus!
