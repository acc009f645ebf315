use cairo_m_prover::instructions::{InvalidOpcodeError, Opcode};

#[test]
fn invalid_opcode_message_pads_to_two_hex_digits() {
    assert_eq!(InvalidOpcodeError::new(0x20).message(), "Invalid opcode ID: 0x20");
    assert_eq!(InvalidOpcodeError::new(5).message(), "Invalid opcode ID: 0x05");
    assert_eq!(InvalidOpcodeError::new(0).message(), "Invalid opcode ID: 0x00");
    assert_eq!(InvalidOpcodeError::new(0xABCDE).message(), "Invalid opcode ID: 0xABCDE");
    assert_eq!(InvalidOpcodeError::new(u32::MAX).message(), "Invalid opcode ID: 0xFFFFFFFF");
}

#[test]
fn rejected_opcode_reports_its_number() {
    let err = Opcode::try_from(0x2a).unwrap_err();
    assert_eq!(err.message(), "Invalid opcode ID: 0x2A");
}
