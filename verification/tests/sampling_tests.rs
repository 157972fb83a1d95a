use buffett_bots::report::{idle_node_flag, max_tx_count};
use buffett_bots::sampling::{duration_nanos, log_prefix, node_location, split_address_fields, NodeLocation, SampleTracker, TxSample};

fn prefix_of(addr: &str) -> Vec<u8> {
    log_prefix(addr.as_bytes())
}

#[test]
fn prefix_pads_like_format() {
    for addr in ["127.0.0.1:8001", "148.153.36.220:8001", "[::1]:8000", "123456789012345678901234"].iter() {
        assert_eq!(String::from_utf8(prefix_of(addr)).unwrap(), format!("{:21}:", addr));
    }
}

#[test]
fn fields_split_like_str_split() {
    for s in ["", "a", "a.b:c", "1.2.3.4:80   :", "..", ":x."].iter() {
        let expected: Vec<Vec<u8>> = s.split(|c| c == '.' || c == ':').map(|f| f.as_bytes().to_vec()).collect();
        assert_eq!(split_address_fields(s.as_bytes()), expected);
    }
}

#[test]
fn locations_of_known_nodes() {
    let cases = [
        ("192.168.1.7:8001", NodeLocation::Local, "LOCAL"),
        ("148.153.36.220:8001", NodeLocation::UsNewYork, "US_NEW_YORK"),
        ("148.153.50.162:8001", NodeLocation::DeFrankfurt, "DE_FRANKFURT"),
        ("148.153.25.50:8001", NodeLocation::NeArmsterdam, "NE_ARMSTERDAM"),
        ("164.52.39.162:8001", NodeLocation::SgSingaopore, "SG_SINGAOPORE"),
        ("118.186.39.238:8001", NodeLocation::CnPeking, "CN_PEKING"),
        ("148.153.36.221:8001", NodeLocation::Unknown, "Node Location"),
        ("127.0.0.1:8001", NodeLocation::Unknown, "Node Location"),
        ("[::1]:8001", NodeLocation::Unknown, "Node Location"),
    ];
    for (addr, loc, label) in cases.iter() {
        let l = node_location(&prefix_of(addr));
        assert_eq!(l, *loc, "{}", addr);
        assert_eq!(l.label(), *label);
    }
}

#[test]
fn samples_and_totals() {
    let mut t = SampleTracker::new(100, 90);
    assert_eq!(t.observe(95), TxSample { sample: 5, total: 0 });
    assert_eq!(t.observe(130), TxSample { sample: 35, total: 30 });
    assert_eq!(t.observe(130), TxSample { sample: 0, total: 30 });
    assert_eq!(t.last_count(), 130);
    assert_eq!(duration_nanos(2, 500), 2_000_000_500);
}

#[test]
fn report_numbers() {
    assert_eq!(max_tx_count(&[]), 0);
    assert_eq!(max_tx_count(&[3, 9, 2]), 9);
    assert_eq!(idle_node_flag(0), "!!!!!");
    assert_eq!(idle_node_flag(4), "");
}
