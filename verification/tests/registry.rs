use holepunch::addr::SockAddr;
use holepunch::server::StunServer;

fn addr(last: u8, port: u16) -> SockAddr {
    SockAddr::new(vec![10, 0, 0, last], port)
}

#[test]
fn register_then_select_within_window() {
    let mut s = StunServer::new("0.0.0.0:3440");
    assert!(s.add_backend("svc".to_string(), addr(1, 1000), 0));
    let got = s.get_backend("svc".to_string(), 120).expect("record is live");
    assert_eq!(got.octets, vec![10, 0, 0, 1]);
    assert_eq!(got.port, 1000);
    // single use: an immediate second lookup finds nothing
    assert!(s.get_backend("svc".to_string(), 120).is_none());
}

#[test]
fn select_before_registration_time() {
    // a timestamp in the future still counts as live
    let mut s = StunServer::new("0.0.0.0:3440");
    assert!(s.add_backend("svc".to_string(), addr(1, 1000), 50));
    let got = s.get_backend("svc".to_string(), 10).expect("record counts as live");
    assert_eq!(got.port, 1000);
}

#[test]
fn expired_record_is_gone() {
    let mut s = StunServer::new("0.0.0.0:3440");
    assert!(s.add_backend("svc".to_string(), addr(1, 1000), 0));
    assert!(s.get_backend("svc".to_string(), 121).is_none());
    // the record was purged, not merely skipped
    assert!(s.get_backend("svc".to_string(), 100).is_none());
}

#[test]
fn reregistration_is_not_new_but_refreshes() {
    let mut s = StunServer::new("0.0.0.0:3440");
    assert!(s.add_backend("svc".to_string(), addr(1, 1000), 0));
    // same pair again: not newly observed, but the timestamp moves to 100
    assert!(!s.add_backend("svc".to_string(), addr(1, 1000), 100));
    // live at 220 only because the upsert refreshed the timestamp
    let got = s.get_backend("svc".to_string(), 220).expect("refreshed record is live");
    assert_eq!(got.port, 1000);
}

#[test]
fn distinct_addresses_are_distinct_records() {
    let mut s = StunServer::new("0.0.0.0:3440");
    assert!(s.add_backend("svc".to_string(), addr(1, 1000), 0));
    assert!(s.add_backend("svc".to_string(), addr(1, 1001), 0));
    assert!(s.add_backend("svc".to_string(), addr(2, 1000), 0));
}

#[test]
fn names_do_not_interfere() {
    let mut s = StunServer::new("0.0.0.0:3440");
    assert!(s.add_backend("alpha".to_string(), addr(1, 1000), 0));
    assert!(s.add_backend("beta".to_string(), addr(2, 2000), 0));
    assert!(s.get_backend("gamma".to_string(), 1).is_none());
    let got = s.get_backend("beta".to_string(), 1).expect("beta is registered");
    assert_eq!(got.octets, vec![10, 0, 0, 2]);
    let got = s.get_backend("alpha".to_string(), 1).expect("alpha is registered");
    assert_eq!(got.octets, vec![10, 0, 0, 1]);
}

#[test]
fn purge_touches_only_the_looked_up_name() {
    let mut s = StunServer::new("0.0.0.0:3440");
    assert!(s.add_backend("alpha".to_string(), addr(1, 1000), 0));
    assert!(s.add_backend("beta".to_string(), addr(2, 2000), 0));
    // beta has expired by now and its lookup purges it
    assert!(s.get_backend("beta".to_string(), 200).is_none());
    // alpha's record was untouched and is still live at an earlier time
    let got = s.get_backend("alpha".to_string(), 100).expect("alpha was not purged");
    assert_eq!(got.octets, vec![10, 0, 0, 1]);
}

#[test]
fn two_selects_never_share_a_record() {
    let mut s = StunServer::new("0.0.0.0:3440");
    assert!(s.add_backend("svc".to_string(), addr(1, 1000), 0));
    assert!(s.add_backend("svc".to_string(), addr(2, 2000), 0));
    let first = s.get_backend("svc".to_string(), 5).expect("two records are live");
    let second = s.get_backend("svc".to_string(), 5).expect("one record is left");
    assert!(!first.same_addr(&second));
    assert!(s.get_backend("svc".to_string(), 5).is_none());
}

#[test]
fn expired_records_are_skipped_in_favor_of_live_ones() {
    let mut s = StunServer::new("0.0.0.0:3440");
    assert!(s.add_backend("svc".to_string(), addr(1, 1000), 0));
    assert!(s.add_backend("svc".to_string(), addr(2, 2000), 300));
    let got = s.get_backend("svc".to_string(), 350).expect("the later record is live");
    assert_eq!(got.octets, vec![10, 0, 0, 2]);
    assert!(s.get_backend("svc".to_string(), 350).is_none());
}
