use cldpip::addr::parse_ipv4;
use cldpip::addr::Address;
use cldpip::cli::affected_records_text;
use cldpip::cli::LevelFilterArgument;
use cldpip::cli::LogLevelFilter;
use cldpip::client::dns_record_path;
use cldpip::client::dns_records_path;
use cldpip::client::dns_records_with_content_path;
use cldpip::client::request_retry_delay_ms;
use cldpip::logger::SimpleLogger;
use cldpip::models::DNSRecord;
use cldpip::models::DNSType;
use cldpip::mqtt::ip_change_topic;
use cldpip::mqtt::IpChangeMessage;

#[test]
fn formats_addresses_in_dotted_decimal() {
    assert_eq!(Address::new(192, 168, 0, 1).to_ipv4_string(), "192.168.0.1");
    assert_eq!(Address::new(0, 0, 0, 0).to_ipv4_string(), "0.0.0.0");
    assert_eq!(Address::new(255, 255, 255, 255).to_ipv4_string(), "255.255.255.255");
    assert_eq!(Address::new(10, 0, 42, 7).to_ipv4_string(), "10.0.42.7");
}

#[test]
fn parses_dotted_decimal_addresses() {
    assert_eq!(parse_ipv4("127.0.0.1").unwrap(), Address::new(127, 0, 0, 1));
    assert_eq!(parse_ipv4("0.0.0.0").unwrap(), Address::new(0, 0, 0, 0));
    assert_eq!(parse_ipv4("255.255.255.255").unwrap(), Address::new(255, 255, 255, 255));
}

#[test]
fn rejects_text_that_is_no_address() {
    assert!(parse_ipv4("").is_err());
    assert!(parse_ipv4("1.2.3").is_err());
    assert!(parse_ipv4("1.2.3.4.5").is_err());
    assert!(parse_ipv4("256.0.0.1").is_err());
    assert!(parse_ipv4("01.2.3.4").is_err());
    assert!(parse_ipv4("1..2.3").is_err());
    assert!(parse_ipv4("a.b.c.d").is_err());
    assert!(parse_ipv4("1.2.3.4 ").is_err());
    assert!(parse_ipv4("1.2.3.").is_err());
    assert!(parse_ipv4(".1.2.3").is_err());
    assert!(parse_ipv4("1234.1.2.3").is_err());
}

#[test]
fn parsing_a_formatted_address_gives_it_back() {
    let samples = [
        Address::new(0, 0, 0, 0),
        Address::new(127, 0, 0, 1),
        Address::new(9, 90, 200, 255),
        Address::new(255, 0, 10, 1),
    ];
    for a in samples {
        assert_eq!(parse_ipv4(&a.to_ipv4_string()).unwrap(), a);
    }
}

#[test]
fn retry_delays_ramp_then_give_up() {
    assert_eq!(request_retry_delay_ms(0), Some(100));
    assert_eq!(request_retry_delay_ms(1), Some(200));
    assert_eq!(request_retry_delay_ms(2), Some(400));
    assert_eq!(request_retry_delay_ms(3), Some(800));
    assert_eq!(request_retry_delay_ms(4), Some(1200));
    assert_eq!(request_retry_delay_ms(5), None);
    assert_eq!(request_retry_delay_ms(100), None);
}

#[test]
fn builds_record_store_paths() {
    assert_eq!(
        dns_records_path("zone1"),
        "/client/v4/zones/zone1/dns_records?per_page=5000000"
    );
    assert_eq!(
        dns_records_with_content_path("zone1", "1.2.3.4"),
        "/client/v4/zones/zone1/dns_records?per_page=5000000&content=1.2.3.4"
    );
    assert_eq!(
        dns_record_path("zone1", "rec9"),
        "/client/v4/zones/zone1/dns_records/rec9"
    );
}

#[test]
fn builds_the_ip_change_topic() {
    assert_eq!(ip_change_topic("cfdpip"), "cfdpip/ipchange");
}

#[test]
fn ip_change_json_holds_both_addresses() {
    let m = IpChangeMessage {
        old_addr: Address::new(0, 0, 0, 0),
        new_addr: Address::new(127, 0, 0, 1),
    };
    assert_eq!(m.to_json_string(), "{\"old\":\"0.0.0.0\",\"new\":\"127.0.0.1\"}");
}

#[test]
fn ip_change_bytes_round_trip() {
    let m = IpChangeMessage {
        old_addr: Address::new(1, 2, 3, 4),
        new_addr: Address::new(5, 6, 7, 8),
    };
    let bytes = m.to_bytes();
    assert_eq!(bytes, vec![1, 2, 3, 4, 5, 6, 7, 8]);
    assert_eq!(IpChangeMessage::try_from_bytes(&bytes).unwrap(), m);
    assert!(IpChangeMessage::try_from_bytes(&bytes[..7]).is_err());
    assert!(IpChangeMessage::try_from_bytes(&[]).is_err());
}

#[test]
fn logger_reports_only_its_own_targets() {
    let logger = SimpleLogger;
    assert!(logger.enabled("cldpip"));
    assert!(logger.enabled("cldpip::reconciler"));
    assert!(!logger.enabled("hyper::client"));
    assert!(!logger.enabled(""));
}

#[test]
fn verbosity_maps_to_the_matching_filter() {
    assert_eq!(LevelFilterArgument::Off.level_filter(), LogLevelFilter::Off);
    assert_eq!(LevelFilterArgument::Error.level_filter(), LogLevelFilter::Error);
    assert_eq!(LevelFilterArgument::Warn.level_filter(), LogLevelFilter::Warn);
    assert_eq!(LevelFilterArgument::Info.level_filter(), LogLevelFilter::Info);
    assert_eq!(LevelFilterArgument::Debug.level_filter(), LogLevelFilter::Debug);
    assert_eq!(LevelFilterArgument::Trace.level_filter(), LogLevelFilter::Trace);
}

#[test]
fn affected_records_report_lists_kind_and_name() {
    let mut r1 = DNSRecord::default();
    r1.kind = DNSType::A;
    r1.name = String::from("one.example.com");
    let mut r2 = DNSRecord::default();
    r2.kind = DNSType::CNAME;
    r2.name = String::from("two.example.com");
    let text = affected_records_text(&vec![r1, r2]);
    assert_eq!(
        text,
        "Affected records:\nA      one.example.com\nCNAME  two.example.com"
    );
}

#[test]
fn affected_records_report_for_no_records_is_just_the_heading() {
    let text = affected_records_text(&vec![]);
    assert_eq!(text, "Affected records:");
}
