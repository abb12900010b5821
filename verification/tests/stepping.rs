//! The step controller, driven over concrete instruction images.

use debugbox::x86::Address;
use debugbox::x86::step::{StepAction, StepOver};

const SEG: u16 = 0x2000;

fn start(offset: u32) -> StepOver {
    StepOver::new(Address { segment: SEG, offset })
}

#[test]
fn plain_instruction_takes_one_step_and_no_writes() {
    let mut m = start(0x0300);
    assert_eq!(m.action(), Some(StepAction::Read { offset: 0x0300, length: 30 }));
    m.feed_read(vec![0x90, 0x90]);
    assert_eq!(m.action(), Some(StepAction::StepIn));
    m.feed_ack();
    assert_eq!(m.action(), None);
    assert!(!m.had_error());
}

#[test]
fn call_near_patches_runs_and_restores_in_order() {
    // call near, then a 2-byte return-site instruction
    let mut m = start(0x0200);
    let mut actions = Vec::new();

    actions.push(m.action().unwrap());
    m.feed_read(vec![0xE8, 0x10, 0x00, 0x89, 0xD8]);

    actions.push(m.action().unwrap());
    m.feed_write(0xAA);
    actions.push(m.action().unwrap());
    m.feed_write(0xBB);

    actions.push(m.action().unwrap());
    m.feed_ack();

    actions.push(m.action().unwrap());
    m.feed_write(0xCC);
    actions.push(m.action().unwrap());
    m.feed_write(0xCC);

    assert_eq!(m.action(), None);
    assert!(!m.had_error());
    assert_eq!(actions, vec![
        StepAction::Read { offset: 0x0200, length: 30 },
        StepAction::Write { offset: 0x0203, value: 0xCC },
        StepAction::Write { offset: 0x0204, value: 0xCC },
        StepAction::Run,
        StepAction::Write { offset: 0x0203, value: 0xAA },
        StepAction::Write { offset: 0x0204, value: 0xBB },
    ]);
}

#[test]
fn interrupt_is_stepped_over() {
    // int 21h, then a 1-byte return site
    let mut m = start(0x0400);
    m.feed_read(vec![0xCD, 0x21, 0x90]);
    assert_eq!(m.action(), Some(StepAction::Write { offset: 0x0402, value: 0xCC }));
}

#[test]
fn rep_prefix_is_stepped_over() {
    // rep movsb, then a 1-byte return site
    let mut m = start(0x0500);
    m.feed_read(vec![0xF3, 0xA4, 0x90]);
    assert_eq!(m.action(), Some(StepAction::Write { offset: 0x0502, value: 0xCC }));
}

#[test]
fn loop_is_stepped_over() {
    let mut m = start(0x0600);
    m.feed_read(vec![0xE2, 0xFE, 0x90]);
    assert_eq!(m.action(), Some(StepAction::Write { offset: 0x0602, value: 0xCC }));
}

#[test]
fn undecodable_return_site_is_a_no_op() {
    // call near with nothing decodable after it
    let mut m = start(0x0700);
    m.feed_read(vec![0xE8, 0x10, 0x00]);
    assert_eq!(m.action(), None);
    assert!(!m.had_error());
}

#[test]
fn undecodable_instruction_takes_a_plain_step() {
    let mut m = start(0x0800);
    m.feed_read(vec![0xB8]);
    assert_eq!(m.action(), Some(StepAction::StepIn));
}

#[test]
fn failed_run_still_restores_every_byte() {
    let mut m = start(0x0200);
    m.feed_read(vec![0xE8, 0x10, 0x00, 0x89, 0xD8]);
    m.feed_write(0x11);
    m.feed_write(0x22);
    assert_eq!(m.action(), Some(StepAction::Run));
    m.fail();
    assert_eq!(m.action(), Some(StepAction::Write { offset: 0x0203, value: 0x11 }));
    m.feed_write(0xCC);
    assert_eq!(m.action(), Some(StepAction::Write { offset: 0x0204, value: 0x22 }));
    m.feed_write(0xCC);
    assert_eq!(m.action(), None);
    assert!(m.had_error());
}

#[test]
fn failed_patch_restores_what_was_patched() {
    let mut m = start(0x0200);
    m.feed_read(vec![0xE8, 0x10, 0x00, 0x89, 0xD8]);
    m.feed_write(0x11);
    // the second breakpoint write failed: only the first byte is restored
    m.fail();
    assert_eq!(m.action(), Some(StepAction::Write { offset: 0x0203, value: 0x11 }));
    m.feed_write(0xCC);
    assert_eq!(m.action(), None);
    assert!(m.had_error());
}

#[test]
fn failed_read_stops_at_once() {
    let mut m = start(0x0200);
    m.fail();
    assert_eq!(m.action(), None);
    assert!(m.had_error());
}
