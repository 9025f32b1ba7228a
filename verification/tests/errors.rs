use dex_cfg::error::{decimal, BuildError, InstructionParsingError};

#[test]
fn numbers_are_written_in_decimal() {
    assert_eq!(decimal(0), "0");
    assert_eq!(decimal(7), "7");
    assert_eq!(decimal(10), "10");
    assert_eq!(decimal(1234567890), "1234567890");
    assert_eq!(decimal(usize::MAX), usize::MAX.to_string());
}

#[test]
fn decode_error_says_offset_and_byte() {
    let error = InstructionParsingError { byte: 0x3e, offset: 417 };
    assert_eq!(error.message(), "Invalid instruction at offset 417: 62");
    let error = InstructionParsingError { byte: 0, offset: 0 };
    assert_eq!(error.message(), "Invalid instruction at offset 0: 0");
}

#[test]
fn build_error_says_why() {
    assert_eq!(BuildError::NoEntry.message(), "No instruction at offset 0");
    assert_eq!(
        BuildError::Decode(InstructionParsingError { byte: 0x73, offset: 12 }).message(),
        "Error parsing instruction at offset: 12"
    );
    assert_eq!(
        BuildError::SwitchPayload { offset: 30 }.message(),
        "Malformed switch table for offset: 30"
    );
    assert_eq!(
        BuildError::BranchTarget { offset: 105 }.message(),
        "No destination for offset: 105"
    );
}
