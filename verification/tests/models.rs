use cldpip::addr::Address;
use cldpip::models::DNSRecord;
use cldpip::models::DNSType;
use cldpip::models::SuccessResponseList;

#[test]
fn success_response_list_count() {
    let mut o = SuccessResponseList::<i32>::default();
    o.result = vec![1, 2, 3, 4, 5];
    assert_eq!(o.count(), 5);
}

#[test]
fn dns_record_has_tags() {
    let mut o = DNSRecord::default();
    o.tags = Some(vec![String::from("a")]);
    assert_eq!(o.has_tags(), true);
}

#[test]
fn dns_record_have_empty_tags() {
    let mut o = DNSRecord::default();
    o.tags = Some(vec![]);
    assert_eq!(o.has_tags(), false);
}

#[test]
fn dns_record_have_none_tags() {
    let mut o = DNSRecord::default();
    o.tags = None;
    assert_eq!(o.has_tags(), false);
}

#[test]
fn dns_record_content_as_ip_pass() {
    let mut o = DNSRecord::default();
    o.content = String::from("127.0.0.1");
    assert_eq!(o.content_as_ip().unwrap(), Address::new(127, 0, 0, 1));
}

#[test]
fn dns_record_content_as_ip_rejects_other_content() {
    let mut o = DNSRecord::default();
    o.content = String::from("example.com");
    assert!(o.content_as_ip().is_err());
}

#[test]
fn dns_type_ids_match_the_registry() {
    assert_eq!(DNSType::A.id(), 1);
    assert_eq!(DNSType::AAAA.id(), 28);
    assert_eq!(DNSType::CNAME.id(), 5);
    assert_eq!(DNSType::MX.id(), 15);
    assert_eq!(DNSType::NS.id(), 2);
    assert_eq!(DNSType::TXT.id(), 16);
    assert_eq!(DNSType::URI.id(), 256);
    assert_eq!(DNSType::CAA.id(), 257);
}

#[test]
fn dns_type_default_is_a() {
    assert_eq!(DNSType::default(), DNSType::A);
}

#[test]
fn dns_type_labels() {
    assert_eq!(DNSType::A.label(), "A");
    assert_eq!(DNSType::DNSKEY.label(), "DNSKEY");
    assert_eq!(DNSType::CNAME.label(), "CNAME");
}

#[test]
fn dns_record_clone_is_equal() {
    let mut o = DNSRecord::default();
    o.content = String::from("1.2.3.4");
    o.name = String::from("host.example.com");
    o.tags = Some(vec![String::from("a"), String::from("b")]);
    o.comment = Some(String::from("a comment"));
    o.ttl = Some(3600);
    let c = o.clone();
    assert_eq!(c, o);
}
