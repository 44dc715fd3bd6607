use muse::transport::{Admission, Delivery, admission, check_bridge, delivery};

#[test]
fn submit_codes_map_to_admissions() {
    assert_eq!(admission(0), Ok(Admission::Accepted));
    assert_eq!(admission(1), Ok(Admission::Busy));
    assert_eq!(admission(2), Ok(Admission::Closed));
    assert_eq!(admission(3), Err("Transport rejected message".to_string()));
    assert_eq!(admission(-1), Err("Transport rejected message".to_string()));
}

#[test]
fn receive_counts_map_to_deliveries() {
    assert_eq!(delivery(-1, 16), Ok(Delivery::Closed));
    assert_eq!(delivery(0, 16), Ok(Delivery::Idle));
    assert_eq!(delivery(16, 16), Ok(Delivery::Message(16)));
    assert_eq!(
        delivery(17, 16),
        Err("Transport returned an invalid message size".to_string())
    );
    assert_eq!(
        delivery(-2, 16),
        Err("Transport returned an invalid message size".to_string())
    );
}

#[test]
fn bridges_need_the_abi_and_all_callbacks() {
    assert!(check_bridge(1, true, true, true).is_ok());
    assert_eq!(
        check_bridge(2, true, true, true),
        Err("Invalid transport ABI".to_string())
    );
    assert!(check_bridge(1, false, true, true).is_err());
    assert!(check_bridge(1, true, false, true).is_err());
    assert!(check_bridge(1, true, true, false).is_err());
}
