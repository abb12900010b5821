//! The data pane: scrolling, edge reads, reloading, and the hex/ASCII
//! cells.

use debugbox::tui::PaneStatus;
use debugbox::tui::data::{
    ascii_cell, bytes_on_screen, ChangeEffect, Data, Effect, Message,
};
use debugbox::x86::Address;

const SEG: u16 = 0x3000;

fn attached() -> PaneStatus {
    PaneStatus { attached: true, focused: true, reload: false }
}

fn pane(height: usize, len: u8) -> Data {
    let mut d = Data::new(attached(), Address { segment: SEG, offset: 0x0100 }, height);
    d.install(0x0100, (0..len).collect());
    d
}

#[test]
fn bytes_on_screen_is_one_line_per_row() {
    assert_eq!(bytes_on_screen(0), 0);
    assert_eq!(bytes_on_screen(1), 16);
    assert_eq!(bytes_on_screen(25), 400);
}

#[test]
fn ascii_cells_show_printable_bytes() {
    assert_eq!(ascii_cell(b'A'), 'A');
    assert_eq!(ascii_cell(b' '), ' ');
    assert_eq!(ascii_cell(b'~'), '~');
    assert_eq!(ascii_cell(0x01), '.');
    assert_eq!(ascii_cell(0x1F), '.');
    assert_eq!(ascii_cell(0x7F), '.');
    assert_eq!(ascii_cell(0xFF), '.');
}

#[test]
fn scrolling_inside_the_buffer_is_read_free() {
    // two materialized rows, one visible: one down only scrolls
    let mut d = pane(1, 32);
    assert_eq!(d.update(Message::Down), Effect::Render(true));
    let rows = d.render();
    assert_eq!(rows[0].offset, 0x0110);
}

#[test]
fn scrolling_past_the_bottom_asks_for_one_read() {
    let mut d = pane(1, 32);
    d.update(Message::Down);
    let effect = d.update(Message::Down);
    assert_eq!(
        effect,
        Effect::NeedAfter(Address { segment: SEG, offset: 0x0120 }, 16)
    );
    assert!(d.apply_after((0..16).collect()));
    let rows = d.render();
    assert_eq!(rows[0].offset, 0x0120);
    assert!(!d.apply_after(Vec::new()));
}

#[test]
fn scrolling_past_the_top_reads_backward() {
    let mut d = pane(1, 32);
    let effect = d.update(Message::Up);
    assert_eq!(
        effect,
        Effect::NeedBefore(Address { segment: SEG, offset: 0x00F0 }, 16)
    );
    assert!(d.apply_before(0x00F0, (0..16).collect()));
    let rows = d.render();
    assert_eq!(rows[0].offset, 0x00F0);
}

#[test]
fn the_origin_has_nothing_above_it() {
    let mut d = Data::new(attached(), Address { segment: SEG, offset: 0 }, 1);
    d.install(0, (0..16).collect());
    assert_eq!(d.update(Message::Up), Effect::Render(false));
}

#[test]
fn reload_rebases_at_the_scrolled_row() {
    let mut d = pane(1, 32);
    d.update(Message::Down);
    let effect = d.change(
        PaneStatus { attached: true, focused: true, reload: true },
        Address { segment: SEG, offset: 0x0100 },
    );
    assert_eq!(
        effect,
        ChangeEffect::Refetch(Address { segment: SEG, offset: 0x0110 }, 16)
    );
    d.install(0x0110, (0..16).collect());
    let rows = d.render();
    assert_eq!(rows.len(), 1);
    assert_eq!(rows[0].offset, 0x0110);
}

#[test]
fn rows_carry_their_bytes_and_a_short_last_row() {
    let d = pane(3, 20);
    let rows = d.render();
    assert_eq!(rows.len(), 2);
    assert_eq!(rows[0].segment, SEG);
    assert_eq!(rows[0].bytes, (0..16).collect::<Vec<u8>>());
    assert_eq!(rows[1].offset, 0x0110);
    assert_eq!(rows[1].bytes, (16..20).collect::<Vec<u8>>());
}

#[test]
fn selection_follows_the_cursor() {
    let mut d = pane(2, 32);
    assert_eq!(d.update(Message::Enter), Effect::Render(true));
    assert!(d.render()[0].is_selected);
    assert_eq!(d.update(Message::Down), Effect::Render(true));
    assert!(d.render()[1].is_selected);
    assert_eq!(d.update(Message::Escape), Effect::Render(true));
    assert!(!d.render()[0].is_selected);
}
