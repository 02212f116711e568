use create2_predict::duration::format_duration;
use create2_predict::error::Create2Error;
use create2_predict::predictor::{predict, ChainFormat};
use create2_predict::search::{
    after_flush, ends_with, find_salt, matching, next_batch_size, random_salt, random_salts,
    salt_from_nibbles, search_salts, Progress, ReportGate, Worker,
};

const IMPLEMENTATION: &str = "0xa84c57e9966df7df79bff42f35c68aae71796f64";
const DEPLOYER: &str = "0xfe15afcb5b9831b8af5fd984678250e95de8e312";

#[test]
fn salt_from_nibbles_writes_digits() {
    let nibbles: Vec<u8> = (0..16).collect();
    assert_eq!(salt_from_nibbles(&nibbles), "0123456789abcdef");
    assert_eq!(salt_from_nibbles(&[]), "");
}

#[test]
fn random_salt_is_32_hex_digits() {
    for _ in 0..20 {
        let salt = random_salt();
        assert_eq!(salt.len(), 32);
        assert!(salt.bytes().all(|b| b.is_ascii_digit() || (b'a'..=b'f').contains(&b)));
        assert!(predict(ChainFormat::Evm, IMPLEMENTATION, DEPLOYER, &salt).is_ok());
    }
    assert_ne!(random_salt(), random_salt());
}

#[test]
fn ends_with_is_suffix_equality() {
    assert!(ends_with("0x22FBFB2264B9Cd1ADe8ce5013012c817878D783C", "783C"));
    assert!(!ends_with("0x22FBFB2264B9Cd1ADe8ce5013012c817878D783C", "783c"));
    assert!(ends_with("abc", ""));
    assert!(ends_with("abc", "abc"));
    assert!(!ends_with("abc", "xabc"));
    assert!(!ends_with("", "a"));
}

#[test]
fn matching_lists_the_indices_in_order() {
    let addresses = vec![
        "0x1ACE".to_string(),
        "0x1234".to_string(),
        "ACE".to_string(),
        "CE".to_string(),
        "0xffACE".to_string(),
    ];
    assert_eq!(matching(&addresses, "ACE"), vec![0, 2, 4]);
    assert_eq!(matching(&addresses, "zz"), Vec::<usize>::new());
    assert_eq!(matching(&[], "ACE"), Vec::<usize>::new());
}

#[test]
fn find_salt_finds_a_salt_for_a_short_suffix() {
    let found = find_salt(ChainFormat::Evm, IMPLEMENTATION, DEPLOYER, "0", 100_000)
        .unwrap()
        .unwrap();
    assert!(found.address.ends_with('0'));
    assert!(found.attempts >= 1 && found.attempts <= 100_000);
    assert_eq!(
        predict(ChainFormat::Evm, IMPLEMENTATION, DEPLOYER, &found.salt).unwrap(),
        found.address
    );
}

#[test]
fn find_salt_gives_up_after_its_attempts() {
    let none = find_salt(ChainFormat::Evm, IMPLEMENTATION, DEPLOYER, "not an ending", 25).unwrap();
    assert!(none.is_none());
    assert!(find_salt(ChainFormat::Evm, "bad", DEPLOYER, "0", 0).unwrap().is_none());
}

#[test]
fn find_salt_fails_on_invalid_addresses() {
    assert!(matches!(
        find_salt(ChainFormat::Evm, "bad", DEPLOYER, "0", 3),
        Err(Create2Error::InvalidAddress(_))
    ));
    assert!(matches!(
        find_salt(ChainFormat::Tron, "bad", "bad", "0", 3),
        Err(Create2Error::InvalidLength)
    ));
    assert!(matches!(
        find_salt(ChainFormat::Tron, "0OIl", "bad", "0", 3),
        Err(Create2Error::InvalidAddress(_))
    ));
}

#[test]
fn worker_hands_on_each_thousand() {
    let mut worker = Worker::new();
    for _ in 0..999 {
        assert_eq!(worker.record(), None);
    }
    assert_eq!(worker.record(), Some(1000));
    assert_eq!(worker.record(), None);
    assert_eq!(worker.record(), None);
    assert_eq!(worker.take(), 2);
    assert_eq!(worker.take(), 0);
}

#[test]
fn after_flush_decides() {
    assert_eq!(after_flush(5_000_000, Some(5_000_000), 10_000), Progress::Finished);
    assert_eq!(after_flush(6_000_000, Some(5_000_000), 10_000), Progress::Finished);
    assert_eq!(after_flush(20_000, Some(5_000_000), 10_000), Progress::Report);
    assert_eq!(after_flush(21_000, Some(5_000_000), 10_000), Progress::Continue);
    assert_eq!(after_flush(20_000, None, 10_000), Progress::Report);
    assert_eq!(after_flush(usize::MAX, None, 10_000), Progress::Continue);
}

#[test]
fn report_gate_lets_one_report_through_in_100_ms() {
    let mut gate = ReportGate::new(0);
    assert!(!gate.should_report(99));
    assert!(gate.should_report(100));
    assert!(!gate.should_report(150));
    assert!(!gate.should_report(199));
    assert!(gate.should_report(200));
    assert!(!gate.should_report(50));
    assert!(gate.should_report(1_000));
}

#[test]
fn next_batch_is_full_or_the_rest() {
    assert_eq!(next_batch_size(65_536, 5_000_000, 0), 65_536);
    assert_eq!(next_batch_size(65_536, 5_000_000, 4_980_736), 19_264);
    assert_eq!(next_batch_size(65_536, 100, 100), 0);
    assert_eq!(next_batch_size(0, 100, 10), 0);
}

#[test]
fn durations_under_a_minute() {
    assert_eq!(format_duration(0), "0.0s");
    assert_eq!(format_duration(49), "0.0s");
    assert_eq!(format_duration(50), "0.1s");
    assert_eq!(format_duration(1_234), "1.2s");
    assert_eq!(format_duration(12_345), "12.3s");
    assert_eq!(format_duration(59_949), "59.9s");
    assert_eq!(format_duration(59_950), "60.0s");
}

#[test]
fn durations_under_an_hour() {
    assert_eq!(format_duration(60_000), "1m0.0s");
    assert_eq!(format_duration(245_600), "4m5.6s");
    assert_eq!(format_duration(119_960), "1m60.0s");
    assert_eq!(format_duration(3_599_949), "59m59.9s");
}

#[test]
fn durations_from_an_hour_on() {
    assert_eq!(format_duration(3_600_000), "1h0m0.0s");
    assert_eq!(format_duration(3_723_400), "1h2m3.4s");
    assert_eq!(format_duration(90_061_000), "25h1m1.0s");
    assert_eq!(format_duration(u64::MAX), "4294967295h25m51.6s");
}

#[test]
fn search_finds_the_first_salt_that_ends_as_wanted() {
    let salts: Vec<String> = (0..200).map(|i| format!("salt {}", i)).collect();
    let addresses: Vec<String> = salts
        .iter()
        .map(|salt| predict(ChainFormat::Evm, IMPLEMENTATION, DEPLOYER, salt).unwrap())
        .collect();
    let suffix = &addresses[57][40..];
    let first = addresses.iter().position(|a| a.ends_with(suffix)).unwrap();
    let found = search_salts(ChainFormat::Evm, IMPLEMENTATION, DEPLOYER, suffix, &salts)
        .unwrap()
        .unwrap();
    assert_eq!(found.attempts, first + 1);
    assert_eq!(found.salt, salts[first]);
    assert_eq!(found.address, addresses[first]);
    let whole = &addresses[57][..];
    let found = search_salts(ChainFormat::Evm, IMPLEMENTATION, DEPLOYER, whole, &salts)
        .unwrap()
        .unwrap();
    assert_eq!(found.attempts, 58);
    assert_eq!(found.salt, "salt 57");
}

#[test]
fn search_finds_nothing_where_no_address_ends_as_wanted() {
    let salts: Vec<String> = (0..20).map(|i| format!("salt {}", i)).collect();
    let none = search_salts(ChainFormat::Evm, IMPLEMENTATION, DEPLOYER, "no ending", &salts);
    assert!(none.unwrap().is_none());
    let none = search_salts(ChainFormat::Evm, "bad", DEPLOYER, "", &[]);
    assert!(none.unwrap().is_none());
}

#[test]
fn search_fails_at_the_first_salt_that_fails() {
    let salts = vec!["fine".to_string(), "x".repeat(33), "y".repeat(34)];
    match search_salts(ChainFormat::Evm, IMPLEMENTATION, DEPLOYER, "no ending", &salts) {
        Err(Create2Error::InvalidSalt(text)) => {
            assert_eq!(text, "Salt length should not exceed 32 characters, got 33")
        }
        _ => panic!("the second salt is too long"),
    }
    let found = search_salts(ChainFormat::Evm, IMPLEMENTATION, DEPLOYER, "", &salts)
        .unwrap()
        .unwrap();
    assert_eq!(found.attempts, 1);
    assert!(matches!(
        search_salts(ChainFormat::Evm, "bad", DEPLOYER, "", &salts),
        Err(Create2Error::InvalidAddress(_))
    ));
}

#[test]
fn random_salts_are_as_many_as_asked_for() {
    let salts = random_salts(300);
    assert_eq!(salts.len(), 300);
    assert!(salts.iter().all(|salt| salt.len() == 32));
    assert!(salts.iter().all(|salt| salt.bytes().all(|b| b.is_ascii_hexdigit())));
    assert!(random_salts(0).is_empty());
}

#[test]
fn find_salt_counts_across_its_chunks() {
    let found = find_salt(ChainFormat::Evm, IMPLEMENTATION, DEPLOYER, "00", 1_000_000)
        .unwrap()
        .unwrap();
    assert!(found.address.ends_with("00"));
    assert!(found.attempts >= 1);
    let none = find_salt(ChainFormat::Evm, IMPLEMENTATION, DEPLOYER, "no ending", 2_500).unwrap();
    assert!(none.is_none());
}

#[test]
fn worker_hands_on_all_at_a_match() {
    let mut worker = Worker::new();
    assert_eq!(worker.record_match(), 1);
    assert_eq!(worker.record(), None);
    assert_eq!(worker.record(), None);
    assert_eq!(worker.record_match(), 3);
    assert_eq!(worker.take(), 0);
    for _ in 0..999 {
        assert_eq!(worker.record(), None);
    }
    assert_eq!(worker.record_match(), 1000);
    assert_eq!(worker.take(), 0);
}
