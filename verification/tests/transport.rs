use zenoh_plugin_rest::transport::{multicast_route, MulticastRoute, TxBody};
use zenoh_plugin_rest::{select_link, TxStats};

#[test]
fn links_matching_reliability_come_first() {
    assert_eq!(select_link(true, &vec![false, true, true]), Some(1));
    assert_eq!(select_link(false, &vec![true, false]), Some(1));
    assert_eq!(select_link(true, &vec![false, false]), Some(0));
    assert_eq!(select_link(false, &vec![]), None);
    assert_eq!(select_link(false, &vec![false]), Some(0));
}

#[test]
fn multicast_routes() {
    assert_eq!(multicast_route(Some(true)), MulticastRoute::Pipeline);
    assert_eq!(multicast_route(Some(false)), MulticastRoute::NoPipeline);
    assert_eq!(multicast_route(None), MulticastRoute::NoLink);
}

#[test]
fn counters() {
    let mut s = TxStats::new();
    s.record(&TxBody::Data { reply: false, payload_len: 10 });
    s.record(&TxBody::Data { reply: true, payload_len: 3 });
    s.record(&TxBody::Unit { reply: true });
    s.record(&TxBody::Unit { reply: false });
    s.record(&TxBody::Pull);
    s.record(&TxBody::Query);
    s.record(&TxBody::Declare);
    s.record(&TxBody::LinkStateList);
    s.record(&TxBody::Data { reply: false, payload_len: 5 });
    assert_eq!(s.z_msgs, 9);
    assert_eq!(s.z_data_msgs, 2);
    assert_eq!(s.z_data_payload_bytes, 15);
    assert_eq!(s.z_data_reply_msgs, 1);
    assert_eq!(s.z_data_reply_payload_bytes, 3);
    assert_eq!(s.z_unit_reply_msgs, 1);
    assert_eq!(s.z_unit_msgs, 1);
    assert_eq!(s.z_pull_msgs, 1);
    assert_eq!(s.z_query_msgs, 1);
    assert_eq!(s.z_declare_msgs, 1);
    assert_eq!(s.z_linkstate_msgs, 1);
    let kinds = s.z_data_msgs + s.z_data_reply_msgs + s.z_unit_msgs + s.z_unit_reply_msgs
        + s.z_pull_msgs + s.z_query_msgs + s.z_declare_msgs + s.z_linkstate_msgs;
    assert_eq!(kinds, s.z_msgs);
}

#[test]
fn counters_wrap_around() {
    let mut s = TxStats::new();
    s.z_msgs = usize::MAX;
    s.z_data_payload_bytes = usize::MAX - 1;
    s.record(&TxBody::Data { reply: false, payload_len: 3 });
    assert_eq!(s.z_msgs, 0);
    assert_eq!(s.z_data_payload_bytes, 1);
}

#[test]
fn multicast_sending_counts_then_routes() {
    let mut s = TxStats::new();
    assert_eq!(s.schedule_first_fit(&TxBody::Query, None), MulticastRoute::NoLink);
    assert_eq!(s.schedule_first_fit(&TxBody::Data { reply: false, payload_len: 4 }, Some(false)), MulticastRoute::NoPipeline);
    assert_eq!(s.schedule_first_fit(&TxBody::Pull, Some(true)), MulticastRoute::Pipeline);
    assert_eq!(s.z_msgs, 3);
    assert_eq!(s.z_query_msgs, 1);
    assert_eq!(s.z_data_msgs, 1);
    assert_eq!(s.z_data_payload_bytes, 4);
    assert_eq!(s.z_pull_msgs, 1);
}
