use cycle_orc::endpoint::{routed_endpoint, StandardEndpoint};

#[test]
fn all_endpoints_in_identifier_order() {
    let all = StandardEndpoint::all();
    assert_eq!(all.len(), 9);
    for (i, e) in all.iter().enumerate() {
        assert_eq!(e.id() as usize, i);
    }
    assert_eq!(all[0], StandardEndpoint::Start);
    assert_eq!(all[8], StandardEndpoint::GetSubscriptions);
}

#[test]
fn identifiers_round_trip() {
    for e in StandardEndpoint::all() {
        assert_eq!(StandardEndpoint::from_id(e.id()), Some(e));
    }
    assert_eq!(StandardEndpoint::from_id(9), None);
    assert_eq!(StandardEndpoint::from_id(u32::MAX), None);
}

#[test]
fn display_names() {
    assert_eq!(StandardEndpoint::Start.to_string(), "start");
    assert_eq!(StandardEndpoint::IsWorking.to_string(), "is_working");
    assert_eq!(StandardEndpoint::DataMonitor.name(), "data_monitor");
    assert_eq!(StandardEndpoint::GetSubscriptions.to_string(), "get_subscriptions");
    assert_eq!(StandardEndpoint::Outbox.name(), "outbox");
}

#[test]
fn router_forwards_only_data_endpoints() {
    assert_eq!(routed_endpoint(5), Some(StandardEndpoint::RawData));
    assert_eq!(routed_endpoint(6), Some(StandardEndpoint::Inbox));
    assert_eq!(routed_endpoint(7), Some(StandardEndpoint::Outbox));
    assert_eq!(routed_endpoint(0), None);
    assert_eq!(routed_endpoint(4), None);
    assert_eq!(routed_endpoint(8), None);
}
