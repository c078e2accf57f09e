//! The DNS record model: records as the record store reports them, the
//! update payload sent back to it, and the store's response envelopes.

use vstd::prelude::*;

use crate::addr::Address;
use crate::addr::parse_ipv4;
use crate::addr::spec_parse_ipv4;
use crate::addr::AddressParseError;

verus! {

/// The kind of a DNS record.
#[derive(Clone, Copy, Debug, PartialEq, Eq, Structural, Hash)]
pub enum DNSType {
    A,
    AAAA,
    CAA,
    CERT,
    CNAME,
    DNSKEY,
    DS,
    HTTPS,
    LOC,
    MX,
    NAPTR,
    NS,
    PTR,
    SMIMEA,
    SRV,
    SSHFP,
    SVCB,
    TLSA,
    TXT,
    URI,
}

impl DNSType {
    /// The numeric identifier of the record kind in the DNS registry.
    pub fn id(&self) -> (r: i32)
        ensures
            r == self.spec_id(),
    {
        match self {
            DNSType::A => 1,
            DNSType::AAAA => 28,
            DNSType::CAA => 257,
            DNSType::CERT => 37,
            DNSType::CNAME => 5,
            DNSType::DNSKEY => 48,
            DNSType::DS => 43,
            DNSType::HTTPS => 65,
            DNSType::LOC => 29,
            DNSType::MX => 15,
            DNSType::NAPTR => 35,
            DNSType::NS => 2,
            DNSType::PTR => 12,
            DNSType::SMIMEA => 53,
            DNSType::SRV => 33,
            DNSType::SSHFP => 44,
            DNSType::SVCB => 64,
            DNSType::TLSA => 52,
            DNSType::TXT => 16,
            DNSType::URI => 256,
        }
    }

    /// The numeric identifier of the record kind in the DNS registry.
    pub open spec fn spec_id(self) -> i32 {
        match self {
            DNSType::A => 1,
            DNSType::AAAA => 28,
            DNSType::CAA => 257,
            DNSType::CERT => 37,
            DNSType::CNAME => 5,
            DNSType::DNSKEY => 48,
            DNSType::DS => 43,
            DNSType::HTTPS => 65,
            DNSType::LOC => 29,
            DNSType::MX => 15,
            DNSType::NAPTR => 35,
            DNSType::NS => 2,
            DNSType::PTR => 12,
            DNSType::SMIMEA => 53,
            DNSType::SRV => 33,
            DNSType::SSHFP => 44,
            DNSType::SVCB => 64,
            DNSType::TLSA => 52,
            DNSType::TXT => 16,
            DNSType::URI => 256,
        }
    }
}

impl DNSType {
    /// The name of the record kind, as it is written in zone files.
    pub open spec fn spec_label(self) -> Seq<char> {
        match self {
            DNSType::A => "A"@,
            DNSType::AAAA => "AAAA"@,
            DNSType::CAA => "CAA"@,
            DNSType::CERT => "CERT"@,
            DNSType::CNAME => "CNAME"@,
            DNSType::DNSKEY => "DNSKEY"@,
            DNSType::DS => "DS"@,
            DNSType::HTTPS => "HTTPS"@,
            DNSType::LOC => "LOC"@,
            DNSType::MX => "MX"@,
            DNSType::NAPTR => "NAPTR"@,
            DNSType::NS => "NS"@,
            DNSType::PTR => "PTR"@,
            DNSType::SMIMEA => "SMIMEA"@,
            DNSType::SRV => "SRV"@,
            DNSType::SSHFP => "SSHFP"@,
            DNSType::SVCB => "SVCB"@,
            DNSType::TLSA => "TLSA"@,
            DNSType::TXT => "TXT"@,
            DNSType::URI => "URI"@,
        }
    }

    /// The name of the record kind, as it is written in zone files.
    pub fn label(&self) -> (r: &'static str)
        ensures
            r@ == self.spec_label(),
            1 <= r@.len() <= 6,
    {
        let r = match self {
            DNSType::A => "A",
            DNSType::AAAA => "AAAA",
            DNSType::CAA => "CAA",
            DNSType::CERT => "CERT",
            DNSType::CNAME => "CNAME",
            DNSType::DNSKEY => "DNSKEY",
            DNSType::DS => "DS",
            DNSType::HTTPS => "HTTPS",
            DNSType::LOC => "LOC",
            DNSType::MX => "MX",
            DNSType::NAPTR => "NAPTR",
            DNSType::NS => "NS",
            DNSType::PTR => "PTR",
            DNSType::SMIMEA => "SMIMEA",
            DNSType::SRV => "SRV",
            DNSType::SSHFP => "SSHFP",
            DNSType::SVCB => "SVCB",
            DNSType::TLSA => "TLSA",
            DNSType::TXT => "TXT",
            DNSType::URI => "URI",
        };
        proof {
            reveal_strlit("A");
            reveal_strlit("AAAA");
            reveal_strlit("CAA");
            reveal_strlit("CERT");
            reveal_strlit("CNAME");
            reveal_strlit("DNSKEY");
            reveal_strlit("DS");
            reveal_strlit("HTTPS");
            reveal_strlit("LOC");
            reveal_strlit("MX");
            reveal_strlit("NAPTR");
            reveal_strlit("NS");
            reveal_strlit("PTR");
            reveal_strlit("SMIMEA");
            reveal_strlit("SRV");
            reveal_strlit("SSHFP");
            reveal_strlit("SVCB");
            reveal_strlit("TLSA");
            reveal_strlit("TXT");
            reveal_strlit("URI");
        }
        r
    }
}

impl Default for DNSType {
    /// The default record kind is an IPv4 address record.
    fn default() -> (r: DNSType)
        ensures
            r == DNSType::A,
    {
        DNSType::A
    }
}

/// One `{code, message}` entry of the record store's response envelope.
#[derive(Clone, Debug, PartialEq)]
pub struct Message {
    pub code: i32,
    pub message: String,
}

/// The record store's structured rejection: its own error payload.
#[derive(Clone, Debug, PartialEq)]
pub struct ErrorResponse {
    pub errors: Vec<Message>,
    pub messages: Vec<Message>,
    pub success: bool,
}

/// Paging counters of a list response.
#[derive(Clone, Copy, Debug, PartialEq, Eq, Structural)]
pub struct ResultInfo {
    pub count: i32,
    pub page: i32,
    pub per_page: i32,
    pub total_count: i32,
}

impl Default for ResultInfo {
    fn default() -> (r: ResultInfo)
        ensures
            r == (ResultInfo { count: 0, page: 0, per_page: 0, total_count: 0 }),
    {
        ResultInfo { count: 0, page: 0, per_page: 0, total_count: 0 }
    }
}

/// A successful list response of the record store: the listed items plus
/// the envelope around them.
#[derive(Clone, Debug, PartialEq)]
pub struct SuccessResponseList<T> {
    pub errors: Vec<Message>,
    pub messages: Vec<Message>,
    pub success: bool,
    pub result_info: ResultInfo,
    pub result: Vec<T>,
}

impl<T> SuccessResponseList<T> {
    /// How many items the response lists.
    pub fn count(&self) -> (n: usize)
        ensures
            n == self.result@.len(),
    {
        self.result.len()
    }
}

impl<T> Default for SuccessResponseList<T> {
    fn default() -> (r: SuccessResponseList<T>)
        ensures
            r.errors@ == Seq::<Message>::empty(),
            r.messages@ == Seq::<Message>::empty(),
            r.success == false,
            r.result_info == (ResultInfo { count: 0, page: 0, per_page: 0, total_count: 0 }),
            r.result@ == Seq::<T>::empty(),
    {
        let r = SuccessResponseList {
            errors: Vec::new(),
            messages: Vec::new(),
            success: false,
            result_info: ResultInfo { count: 0, page: 0, per_page: 0, total_count: 0 },
            result: Vec::new(),
        };
        proof {
            assert(r.errors@ =~= Seq::<Message>::empty());
            assert(r.messages@ =~= Seq::<Message>::empty());
            assert(r.result@ =~= Seq::<T>::empty());
        }
        r
    }
}

/// An optional string, copied.
pub(crate) fn clone_opt_string(o: &Option<String>) -> (r: Option<String>)
    ensures
        r.deep_view() == o.deep_view(),
{
    match o {
        Option::Some(s) => Option::Some(s.clone()),
        Option::None => Option::None,
    }
}

/// A vector of strings, copied element by element.
pub(crate) fn clone_string_vec(v: &Vec<String>) -> (r: Vec<String>)
    ensures
        r.deep_view() == v.deep_view(),
{
    let mut r: Vec<String> = Vec::new();
    let mut i: usize = 0;
    while i < v.len()
        invariant
            0 <= i <= v@.len(),
            r@.len() == i,
            r.deep_view() == v.deep_view().take(i as int),
        decreases v@.len() - i,
    {
        let ghost pre = r.deep_view();
        let s = &v[i];
        r.push(s.clone());
        proof {
            assert forall|j: int| 0 <= j < i + 1 implies #[trigger] r.deep_view()[j]
                == v.deep_view().take(i as int + 1)[j] by {
                if j < i as int {
                    assert(pre[j] == v.deep_view().take(i as int)[j]);
                    assert(r.deep_view()[j] == r@[j].deep_view());
                } else {
                    assert(r.deep_view()[j] == r@[j].deep_view());
                }
            }
            assert(r.deep_view() =~= v.deep_view().take(i as int + 1));
        }
        i += 1;
    }
    proof {
        assert(v.deep_view().take(i as int) =~= v.deep_view());
    }
    r
}

/// An optional tag list, copied.
pub(crate) fn clone_opt_tags(o: &Option<Vec<String>>) -> (r: Option<Vec<String>>)
    ensures
        r.deep_view() == o.deep_view(),
{
    match o {
        Option::Some(v) => Option::Some(clone_string_vec(v)),
        Option::None => Option::None,
    }
}

/// Provider-side metadata of a record.
#[derive(Debug, PartialEq)]
pub struct DNSRecordMeta {
    pub auto_added: bool,
    pub source: Option<String>,
}

/// The mathematical value of [`DNSRecordMeta`].
pub struct DNSRecordMetaV {
    pub auto_added: bool,
    pub source: Option<Seq<char>>,
}

impl View for DNSRecordMeta {
    type V = DNSRecordMetaV;

    open spec fn view(&self) -> DNSRecordMetaV {
        DNSRecordMetaV { auto_added: self.auto_added, source: self.source.deep_view() }
    }
}

impl DeepView for DNSRecordMeta {
    type V = DNSRecordMetaV;

    open spec fn deep_view(&self) -> DNSRecordMetaV {
        self.view()
    }
}

impl Clone for DNSRecordMeta {
    /// An equal copy of the metadata.
    fn clone(&self) -> (r: DNSRecordMeta)
        ensures
            r@ == self@,
    {
        DNSRecordMeta { auto_added: self.auto_added, source: clone_opt_string(&self.source) }
    }
}

/// Optional metadata, copied.
pub(crate) fn clone_opt_meta(o: &Option<DNSRecordMeta>) -> (r: Option<DNSRecordMeta>)
    ensures
        match *o {
            Option::Some(m) => r matches Option::Some(rm) && rm@ == m@,
            Option::None => r is None,
        },
{
    match o {
        Option::Some(m) => Option::Some(m.clone()),
        Option::None => Option::None,
    }
}

/// A DNS record as fetched from the record store. Timestamps are carried
/// as Unix seconds. The record is referenced, not owned: every
/// reconciliation fetches records fresh and never caches them across ticks.
#[derive(Debug, PartialEq)]
pub struct DNSRecord {
    pub content: String,
    pub name: String,
    pub proxied: Option<bool>,
    pub kind: DNSType,
    pub comment: Option<String>,
    pub comment_modified_on: Option<i64>,
    pub created_on: i64,
    pub id: String,
    pub meta: Option<DNSRecordMeta>,
    pub modified_on: i64,
    pub proxiable: bool,
    pub tags: Option<Vec<String>>,
    pub tags_modified_on: Option<i64>,
    pub ttl: Option<i32>,
}

/// The mathematical value of a [`DNSRecord`].
pub struct DNSRecordV {
    pub content: Seq<char>,
    pub name: Seq<char>,
    pub proxied: Option<bool>,
    pub kind: DNSType,
    pub comment: Option<Seq<char>>,
    pub comment_modified_on: Option<i64>,
    pub created_on: i64,
    pub id: Seq<char>,
    pub meta: Option<DNSRecordMetaV>,
    pub modified_on: i64,
    pub proxiable: bool,
    pub tags: Option<Seq<Seq<char>>>,
    pub tags_modified_on: Option<i64>,
    pub ttl: Option<i32>,
}

impl View for DNSRecord {
    type V = DNSRecordV;

    open spec fn view(&self) -> DNSRecordV {
        DNSRecordV {
            content: self.content@,
            name: self.name@,
            proxied: self.proxied,
            kind: self.kind,
            comment: self.comment.deep_view(),
            comment_modified_on: self.comment_modified_on,
            created_on: self.created_on,
            id: self.id@,
            meta: match self.meta {
                Option::Some(m) => Option::Some(m@),
                Option::None => Option::None,
            },
            modified_on: self.modified_on,
            proxiable: self.proxiable,
            tags: self.tags.deep_view(),
            tags_modified_on: self.tags_modified_on,
            ttl: self.ttl,
        }
    }
}

impl DeepView for DNSRecord {
    type V = DNSRecordV;

    open spec fn deep_view(&self) -> DNSRecordV {
        self.view()
    }
}

impl Clone for DNSRecord {
    /// An equal copy of the record.
    fn clone(&self) -> (r: DNSRecord)
        ensures
            r@ == self@,
    {
        let r = DNSRecord {
            content: self.content.clone(),
            name: self.name.clone(),
            proxied: self.proxied,
            kind: self.kind,
            comment: clone_opt_string(&self.comment),
            comment_modified_on: self.comment_modified_on,
            created_on: self.created_on,
            id: self.id.clone(),
            meta: clone_opt_meta(&self.meta),
            modified_on: self.modified_on,
            proxiable: self.proxiable,
            tags: clone_opt_tags(&self.tags),
            tags_modified_on: self.tags_modified_on,
            ttl: self.ttl,
        };
        r
    }
}

impl DNSRecord {
    /// Whether the record carries at least one tag.
    pub fn has_tags(&self) -> (r: bool)
        ensures
            r == (self@.tags matches Option::Some(t) && t.len() > 0),
    {
        match &self.tags {
            Option::Some(tags) => tags.len() > 0,
            Option::None => false,
        }
    }

    /// The record's content read as an IPv4 address, if it is one.
    pub fn content_as_ip(&self) -> (r: Result<Address, AddressParseError>)
        ensures
            r matches Ok(a) ==> spec_parse_ipv4(self@.content) == Option::Some(a),
            r is Err <==> spec_parse_ipv4(self@.content) is None,
    {
        parse_ipv4(self.content.as_str())
    }
}

/// The update payload sent to the record store: the full preserved
/// projection of a fetched record, with only the content meant to change.
#[derive(Clone, Debug, PartialEq)]
pub struct UpdateDNSRecordRequest {
    pub content: String,
    pub name: String,
    pub proxied: Option<bool>,
    pub kind: DNSType,
    pub comment: Option<String>,
    pub id: String,
    pub tags: Option<Vec<String>>,
    pub ttl: Option<i32>,
}

/// The mathematical value of an [`UpdateDNSRecordRequest`].
pub struct UpdateRequestV {
    pub content: Seq<char>,
    pub name: Seq<char>,
    pub proxied: Option<bool>,
    pub kind: DNSType,
    pub comment: Option<Seq<char>>,
    pub id: Seq<char>,
    pub tags: Option<Seq<Seq<char>>>,
    pub ttl: Option<i32>,
}

impl View for UpdateDNSRecordRequest {
    type V = UpdateRequestV;

    open spec fn view(&self) -> UpdateRequestV {
        UpdateRequestV {
            content: self.content@,
            name: self.name@,
            proxied: self.proxied,
            kind: self.kind,
            comment: self.comment.deep_view(),
            id: self.id@,
            tags: self.tags.deep_view(),
            ttl: self.ttl,
        }
    }
}

/// The projection of a fetched record into an update payload: every
/// preserved field copied verbatim, content included.
pub open spec fn record_projection(r: DNSRecordV) -> UpdateRequestV {
    UpdateRequestV {
        content: r.content,
        name: r.name,
        proxied: r.proxied,
        kind: r.kind,
        comment: r.comment,
        id: r.id,
        tags: r.tags,
        ttl: r.ttl,
    }
}

impl DeepView for UpdateDNSRecordRequest {
    type V = UpdateRequestV;

    open spec fn deep_view(&self) -> UpdateRequestV {
        self.view()
    }
}

impl vstd::std_specs::convert::FromSpecImpl<DNSRecord> for UpdateDNSRecordRequest {
    open spec fn obeys_from_spec() -> bool {
        true
    }

    open spec fn from_spec(value: DNSRecord) -> UpdateDNSRecordRequest {
        UpdateDNSRecordRequest {
            content: value.content,
            name: value.name,
            proxied: value.proxied,
            kind: value.kind,
            comment: value.comment,
            id: value.id,
            tags: value.tags,
            ttl: value.ttl,
        }
    }
}

impl From<DNSRecord> for UpdateDNSRecordRequest {
    /// Projects a fetched record into an update payload, copying every
    /// preserved field verbatim.
    fn from(value: DNSRecord) -> (r: UpdateDNSRecordRequest)
        ensures
            r@ == record_projection(value@),
    {
        UpdateDNSRecordRequest {
            content: value.content,
            name: value.name,
            proxied: value.proxied,
            kind: value.kind,
            comment: value.comment,
            id: value.id,
            tags: value.tags,
            ttl: value.ttl,
        }
    }
}

impl Default for DNSRecord {
    fn default() -> (r: DNSRecord)
        ensures
            r@.content == Seq::<char>::empty(),
            r@.name == Seq::<char>::empty(),
            r@.proxied is None,
            r@.kind == DNSType::A,
            r@.comment is None,
            r@.comment_modified_on is None,
            r@.created_on == 0,
            r@.id == Seq::<char>::empty(),
            r@.meta is None,
            r@.modified_on == 0,
            r@.proxiable == false,
            r@.tags is None,
            r@.tags_modified_on is None,
            r@.ttl is None,
    {
        let r = DNSRecord {
            content: String::new(),
            name: String::new(),
            proxied: Option::None,
            kind: DNSType::A,
            comment: Option::None,
            comment_modified_on: Option::None,
            created_on: 0,
            id: String::new(),
            meta: Option::None,
            modified_on: 0,
            proxiable: false,
            tags: Option::None,
            tags_modified_on: Option::None,
            ttl: Option::None,
        };
        proof {
            assert(r@.content =~= Seq::<char>::empty());
            assert(r@.id =~= Seq::<char>::empty());
        }
        r
    }
}

} // verus!
