use chord::addr::IpAddress;
use chord::convert::{ConversionError, ToProto, TryToDomain, TryToProto};
use chord::digits::IntParseError;
use chord::node_info::NodeInfo;
use chord::wire::NodeInfoMsg;

fn sample() -> NodeInfo {
    NodeInfo { id: 7, address: IpAddress::V4(1, 2, 3, 4), port: 9000 }
}

#[test]
fn node_info_to_proto_exact_fields() {
    let msg: NodeInfoMsg = sample().to_proto();
    assert_eq!(msg.id, "7");
    assert_eq!(msg.ip, "1.2.3.4");
    assert_eq!(msg.port, 9000);
}

#[test]
fn node_info_wire_round_trip() {
    let samples = [
        sample(),
        NodeInfo { id: 0, address: IpAddress::V4(0, 0, 0, 0), port: 0 },
        NodeInfo { id: u64::MAX, address: IpAddress::V6(0xfe80, 0, 0, 0, 1, 2, 3, 4), port: u16::MAX },
    ];
    for info in samples {
        let msg: NodeInfoMsg = info.to_proto();
        assert_eq!(msg.try_to_domain(), Ok(info));
    }
}

#[test]
fn infallible_conversions_never_fail() {
    let r: Result<NodeInfoMsg, ConversionError> = sample().try_to_proto();
    assert_eq!(r, Ok(sample().to_proto()));
}

#[test]
fn bad_identifier_text_is_a_parse_error() {
    let msg = NodeInfoMsg { id: String::new(), ip: "1.2.3.4".into(), port: 1 };
    let r: Result<NodeInfo, ConversionError> = msg.try_to_domain();
    assert_eq!(r, Err(ConversionError::ParseIntError(IntParseError::Empty)));

    let msg = NodeInfoMsg { id: "12x".into(), ip: "1.2.3.4".into(), port: 1 };
    let r: Result<NodeInfo, ConversionError> = msg.try_to_domain();
    assert_eq!(r, Err(ConversionError::ParseIntError(IntParseError::InvalidDigit)));

    let msg = NodeInfoMsg { id: "18446744073709551616".into(), ip: "1.2.3.4".into(), port: 1 };
    let r: Result<NodeInfo, ConversionError> = msg.try_to_domain();
    assert_eq!(r, Err(ConversionError::ParseIntError(IntParseError::Overflow)));
}

#[test]
fn bad_address_text_is_an_address_error() {
    let msg = NodeInfoMsg { id: "1".into(), ip: "nowhere".into(), port: 1 };
    let r: Result<NodeInfo, ConversionError> = msg.try_to_domain();
    assert_eq!(r, Err(ConversionError::AddrParseError));
}

#[test]
fn oversized_port_is_refused() {
    let msg = NodeInfoMsg { id: "1".into(), ip: "1.2.3.4".into(), port: 70000 };
    let r: Result<NodeInfo, ConversionError> = msg.try_to_domain();
    assert_eq!(r, Err(ConversionError::ConversionFailed));
}
