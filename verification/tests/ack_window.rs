use reliable_dgram::reliable_header::ReliableHeader;

#[test]
fn can_get_acked_packages() {
    let header = ReliableHeader {
        ack_num: 255,
        ack_bits: 0b10000000000000000000000000000001,
    };
    let expected = vec![255, 255 - 1, 255 - 32];

    assert_eq!(header.get_acked_packages(), expected);

    let header = ReliableHeader {
        ack_num: 123,
        ack_bits: 0b11111111111111111111111111111111,
    };

    let expected: Vec<_> = ((123 - 32)..=123).rev().collect();
    assert_eq!(header.get_acked_packages(), expected);
}

#[test]
fn can_handle_underflows() {
    let header = ReliableHeader {
        ack_num: 2,
        ack_bits: 0b100,
    };

    let expected: Vec<_> = vec![2, u16::MAX];
    assert_eq!(header.get_acked_packages(), expected);
}
