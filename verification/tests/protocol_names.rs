use blocksync::protocol::Protocol;

#[test]
fn advertised_names_are_kept_in_order() {
    let p = Protocol { protocols: vec!["/core/headers/1", "/core/bodies/1"] };
    let names = p.protocol_info();
    assert_eq!(names.len(), 2);
    assert_eq!(names[0], "/core/headers/1");
    assert_eq!(names[1], "/core/bodies/1");
}

#[test]
fn both_upgrade_directions_share_their_output_shape() {
    let inbound = Protocol { protocols: vec!["/core/headers/1"] };
    let outbound = Protocol { protocols: vec!["/core/headers/1"] };
    let (io_a, proto_a) = inbound.upgrade_inbound(17u32, "/core/headers/1");
    let (io_b, proto_b) = outbound.upgrade_outbound(17u32, "/core/headers/1");
    assert_eq!(io_a, io_b);
    assert_eq!(proto_a, proto_b);
}
