use defense::threat::{ThreatDatabase, ThreatMessage};

#[test]
fn global_database_starts_with_seed_addresses() {
    let db = ThreatDatabase::global();
    assert!(db.is_bad_ip("185.15.247.140"));
    assert!(db.is_bad_ip("93.184.216.34"));
    assert!(!db.is_bad_ip("127.0.0.1"));
}

#[test]
fn added_addresses_become_bad() {
    let mut db = ThreatDatabase::default();
    assert!(!db.is_bad_ip("10.0.0.1"));
    db.add_ip("10.0.0.1".to_string());
    db.add_ip("10.0.0.1".to_string());
    assert!(db.is_bad_ip("10.0.0.1"));
    assert!(!db.is_bad_ip("10.0.0.2"));
    assert!(!db.bad_hashes.contains("10.0.0.1"));
}

#[test]
fn threat_messages_carry_their_reason() {
    let m = ThreatMessage::NewBadIp { ip: "1.2.3.4".to_string(), reason: "c2".to_string() };
    match m {
        ThreatMessage::NewBadIp { ip, reason } => {
            assert_eq!(ip, "1.2.3.4");
            assert_eq!(reason, "c2");
        }
        ThreatMessage::NewBadHash { .. } => panic!("wrong variant"),
    }
}
