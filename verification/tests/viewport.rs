//! The code pane's viewport: fetch-free scrolling, edge fetches, cursor
//! movement, and re-anchoring after a jump.

use debugbox::tui::PaneStatus;
use debugbox::tui::code::{ChangeEffect, Code, Effect, Message};
use debugbox::x86::Address;
use debugbox::x86::dec::{Decoded, DecodedInstruction};

const SEG: u16 = 0x1000;

fn attached() -> PaneStatus {
    PaneStatus { attached: true, focused: true, reload: false }
}

fn nop_at(off: u32) -> DecodedInstruction {
    DecodedInstruction {
        start_offset: off,
        next_offset: off + 1,
        length: 1,
        raw_bytes: vec![0x90],
        kind: Decoded {
            invalid: false,
            len: 1,
            call: false,
            looping: false,
            rep: false,
            int_imm8: false,
        },
        mnemonic: String::from("nop"),
        operands: String::new(),
    }
}

fn window(from: u32, count: u32) -> Vec<DecodedInstruction> {
    (0..count).map(|i| nop_at(from + i)).collect()
}

fn pane(height: usize, window_len: u32) -> Code {
    let mut c = Code::new(attached(), Address { segment: SEG, offset: 0x0100 }, height);
    c.install_window(window(0x0100, window_len));
    c
}

#[test]
fn scrolling_inside_the_window_is_fetch_free() {
    // ten materialized rows, three visible: seven downs only scroll
    let mut c = pane(3, 10);
    for _ in 0..7 {
        assert_eq!(c.update(Message::Down), Effect::Render(true));
    }
    let rows = c.render();
    assert_eq!(rows.len(), 3);
    assert_eq!(rows[0].offset, 0x0107);
}

#[test]
fn scrolling_past_the_bottom_asks_for_one_fetch() {
    let mut c = pane(3, 10);
    for _ in 0..7 {
        c.update(Message::Down);
    }
    let effect = c.update(Message::Down);
    assert_eq!(
        effect,
        Effect::NeedAfter(Address { segment: SEG, offset: 0x010A }, 3)
    );
    // the fetch found two instructions: the window grows, the view scrolls
    assert!(c.apply_after(window(0x010A, 2)));
    let rows = c.render();
    assert_eq!(rows[0].offset, 0x0108);
    assert_eq!(rows[2].offset, 0x010A);
}

#[test]
fn empty_fetch_leaves_the_view_unchanged() {
    let mut c = pane(3, 10);
    for _ in 0..7 {
        c.update(Message::Down);
    }
    c.update(Message::Down);
    assert!(!c.apply_after(Vec::new()));
    let rows = c.render();
    assert_eq!(rows[0].offset, 0x0107);
}

#[test]
fn scrolling_past_the_top_resynchronizes() {
    let mut c = pane(3, 10);
    let effect = c.update(Message::Up);
    assert_eq!(
        effect,
        Effect::NeedBefore(Address { segment: SEG, offset: 0x0100 }, 3)
    );
    // four recovered rows become the scroll offset: the old top row stays
    assert!(c.apply_before(window(0x00FC, 4)));
    let rows = c.render();
    assert_eq!(rows[0].offset, 0x00FF);
    assert_eq!(rows[1].offset, 0x0100);
}

#[test]
fn cursor_moves_inside_the_visible_region() {
    let mut c = pane(3, 10);
    assert_eq!(c.update(Message::Enter), Effect::Render(true));
    assert!(c.render()[0].is_selected);
    assert_eq!(c.update(Message::Down), Effect::Render(true));
    assert!(c.render()[1].is_selected);
    assert_eq!(c.update(Message::Up), Effect::Render(true));
    assert!(c.render()[0].is_selected);
    assert_eq!(c.update(Message::Escape), Effect::Render(true));
    assert!(!c.render()[0].is_selected);
    assert_eq!(c.update(Message::Escape), Effect::Render(false));
}

#[test]
fn detached_pane_ignores_events() {
    let mut c = Code::new(
        PaneStatus { attached: false, focused: true, reload: false },
        Address { segment: SEG, offset: 0x0100 },
        3,
    );
    assert_eq!(c.update(Message::Down), Effect::Render(false));
    assert_eq!(c.update(Message::Enter), Effect::Render(false));
}

#[test]
fn unchanged_properties_change_nothing() {
    let mut c = pane(3, 10);
    assert_eq!(
        c.change(attached(), Address { segment: SEG, offset: 0x0100 }),
        ChangeEffect::Unchanged
    );
}

#[test]
fn jump_to_a_visible_instruction_keeps_the_window() {
    let mut c = pane(8, 10);
    // the new instruction pointer sits on visible row 6; with a height of
    // 8 the pane keeps 4 rows of padding below it
    let effect = c.change(attached(), Address { segment: SEG, offset: 0x0106 });
    assert_eq!(effect, ChangeEffect::Render);
    let rows = c.render();
    assert_eq!(rows[0].offset, 0x0102);
    assert!(rows[4].is_current);
}

#[test]
fn jump_elsewhere_refetches() {
    let mut c = pane(3, 10);
    let target = Address { segment: SEG, offset: 0x0500 };
    assert_eq!(c.change(attached(), target), ChangeEffect::Refetch(target, 3));
    c.install_window(window(0x0500, 3));
    let rows = c.render();
    assert_eq!(rows[0].offset, 0x0500);
    assert!(rows[0].is_current);
}

#[test]
fn rows_carry_the_instruction_text() {
    let c = pane(2, 4);
    let rows = c.render();
    assert_eq!(rows.len(), 2);
    assert_eq!(rows[0].segment, SEG);
    assert_eq!(rows[0].bytes, vec![0x90]);
    assert_eq!(rows[0].mnemonic, "nop");
    assert_eq!(rows[0].operands, "");
    assert!(rows[0].is_current);
    assert!(!rows[1].is_current);
}
