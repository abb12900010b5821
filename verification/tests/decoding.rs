//! The decoder adapter against the real decoder.

use debugbox::x86::dec::decode_stream;

#[test]
fn nop_run_decodes_one_per_byte() {
    let data = [0x90u8; 5];
    let out = decode_stream(&data, 0x0100, 0);
    assert_eq!(out.len(), 5);
    for (i, ins) in out.iter().enumerate() {
        assert_eq!(ins.start_offset, 0x0100 + i as u32);
        assert_eq!(ins.next_offset, 0x0101 + i as u32);
        assert_eq!(ins.length, 1);
        assert_eq!(ins.raw_bytes, vec![0x90]);
        assert_eq!(ins.mnemonic, "nop");
        assert!(!ins.kind.invalid);
    }
}

#[test]
fn truncated_instruction_ends_the_stream() {
    // mov ax, imm16 wants two more bytes than the buffer holds
    let data = [0xB8u8];
    let out = decode_stream(&data, 0, 0);
    assert_eq!(out.len(), 0);
}

#[test]
fn stream_stops_at_first_undecodable_byte() {
    // two nops, then a truncated mov, whose bytes are not skipped
    let data = [0x90u8, 0x90, 0xB8];
    let out = decode_stream(&data, 0x10, 0);
    assert_eq!(out.len(), 2);
    assert_eq!(out[1].next_offset, 0x12);
}

#[test]
fn operands_are_rendered() {
    // mov ax, bx
    let data = [0x89u8, 0xD8];
    let out = decode_stream(&data, 0, 0);
    assert_eq!(out.len(), 1);
    assert_eq!(out[0].length, 2);
    assert_eq!(out[0].mnemonic, "mov");
    assert_eq!(out[0].operands, "ax, bx");
    assert_eq!(out[0].raw_bytes, vec![0x89, 0xD8]);
}

#[test]
fn decode_from_offset_skips_bytes() {
    let data = [0xB8u8, 0x90, 0x90];
    let out = decode_stream(&data, 0x20, 1);
    assert_eq!(out.len(), 2);
    assert_eq!(out[0].start_offset, 0x21);
}
