use chord::addr::IpAddress;
use chord::config::ClientConfig;
use chord::node_client_factory::GrpcNodeClientFactory;
use chord::node_grpc_client::NodeGrpcClient;
use chord::node_info::NodeInfo;

fn config() -> ClientConfig {
    ClientConfig { connect_timeout: 1000, request_timeout: 2000, keep_alive_timeout: 3000 }
}

fn descriptor(id: u64, last_octet: u8, port: u16) -> NodeInfo {
    NodeInfo { id, address: IpAddress::V4(10, 0, 0, last_octet), port }
}

#[test]
fn same_identifier_shares_one_pooled_transport() {
    // Pooling is keyed by the peer id alone: descriptors that share an
    // id but differ in host and port still resolve to the one pooled
    // transport (an intentional policy; identifiers are assumed stable
    // per address within a process run).
    let runtime = tokio::runtime::Builder::new_current_thread().enable_all().build().unwrap();
    let _guard = runtime.enter();
    let mut factory = GrpcNodeClientFactory::new(config());
    assert_eq!(factory.pool_len(), 0);
    let _first = factory.get_channel(&descriptor(7, 1, 4000));
    assert_eq!(factory.pool_len(), 1);
    let _second = factory.get_channel(&descriptor(7, 2, 5000));
    assert_eq!(factory.pool_len(), 1);
}

#[test]
fn distinct_identifiers_pool_distinct_transports() {
    let runtime = tokio::runtime::Builder::new_current_thread().enable_all().build().unwrap();
    let _guard = runtime.enter();
    let mut factory = GrpcNodeClientFactory::new(config());
    let _a = factory.get_channel(&descriptor(7, 1, 4000));
    let _b = factory.get_channel(&descriptor(8, 1, 4000));
    assert_eq!(factory.pool_len(), 2);
    // Asking again for either changes nothing.
    let _a2 = factory.get_channel(&descriptor(7, 1, 4000));
    assert_eq!(factory.pool_len(), 2);
}

#[test]
fn client_builds_requests_with_decimal_identifiers() {
    let runtime = tokio::runtime::Builder::new_current_thread().enable_all().build().unwrap();
    let _guard = runtime.enter();
    let mut factory = GrpcNodeClientFactory::new(config());
    let peer = descriptor(20, 1, 4000);
    let client: NodeGrpcClient = factory.create_node_client(&peer);
    assert_eq!(client.id(), 20);
    assert_eq!(*client.node_info(), peer);
    assert_eq!(factory.pool_len(), 1);
    let req = client.build_find_successor_request(15);
    assert_eq!(req.node_id, "20");
    assert_eq!(req.id, "15");
    let req = client.build_get_predecessor_request();
    assert_eq!(req.node_id, "20");
}
