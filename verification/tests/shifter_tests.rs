use sknk::{update_ops, LineOp, Pin};

#[test]
fn update_ops_layout() {
    // 8 bits of 6 operations each, then a 5-operation latch pulse.
    let ops = update_ops(0xA5);
    assert_eq!(ops.len(), 53);
    // 0xA5 = 1010_0101, shifted out most significant bit first.
    let bits = [true, false, true, false, false, true, false, true];
    for (j, bit) in bits.iter().enumerate() {
        assert_eq!(ops[6 * j], LineOp::Drive(Pin::Data, *bit));
        assert_eq!(ops[6 * j + 1], LineOp::Delay(370));
        assert_eq!(ops[6 * j + 2], LineOp::Drive(Pin::Clock, true));
        assert_eq!(ops[6 * j + 3], LineOp::Delay(370));
        assert_eq!(ops[6 * j + 4], LineOp::Drive(Pin::Clock, false));
        assert_eq!(ops[6 * j + 5], LineOp::Delay(370));
    }
    assert_eq!(ops[48], LineOp::Delay(370));
    assert_eq!(ops[49], LineOp::Drive(Pin::Latch, true));
    assert_eq!(ops[50], LineOp::Delay(370));
    assert_eq!(ops[51], LineOp::Drive(Pin::Latch, false));
    assert_eq!(ops[52], LineOp::Delay(370));
}

#[test]
fn update_ops_all_clear_and_all_set() {
    let low = update_ops(0x00);
    let high = update_ops(0xFF);
    for j in 0..8 {
        assert_eq!(low[6 * j], LineOp::Drive(Pin::Data, false));
        assert_eq!(high[6 * j], LineOp::Drive(Pin::Data, true));
    }
}

#[test]
fn update_ops_sends_msb_first() {
    // Pattern 0x80 drives the data line high only for the first bit sent.
    let ops = update_ops(0x80);
    assert_eq!(ops[0], LineOp::Drive(Pin::Data, true));
    for j in 1..8 {
        assert_eq!(ops[6 * j], LineOp::Drive(Pin::Data, false));
    }
    // Pattern 0x01 drives it high only for the last bit sent.
    let ops = update_ops(0x01);
    for j in 0..7 {
        assert_eq!(ops[6 * j], LineOp::Drive(Pin::Data, false));
    }
    assert_eq!(ops[42], LineOp::Drive(Pin::Data, true));
}
