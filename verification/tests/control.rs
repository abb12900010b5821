//! The control machine, the register pane, and the status bar.

use debugbox::bus::Regs;
use debugbox::tui::debugbox::{Action, DebugBox, Message, Pane};
use debugbox::tui::registers::{first_diff, hex_digits, Registers};
use debugbox::tui::status_bar::{Status, StatusBar};
use debugbox::x86::Address;

fn live_regs() -> Regs {
    let mut r = Regs::new_zeroed();
    r.cs = 0x1000;
    r.eip = 0x0100;
    r.ds = 0x2000;
    r
}

#[test]
fn attach_and_reload() {
    let mut b = DebugBox::new(Some(live_regs()), None);
    assert!(b.attached());
    let (changed, action) = b.update_impl(Message::Reload);
    assert!(!changed);
    assert_eq!(action, Some(Action::FetchRegs));
    let mut r2 = live_regs();
    r2.eip = 0x0105;
    b.regs_loaded(r2);
    assert!(b.attached());
    assert!(b.pane_status(Pane::Code).reload);
    assert_eq!(b.code_addr(), Address { segment: 0x1000, offset: 0x0105 });
    assert_eq!(b.data_addr(), Address { segment: 0x2000, offset: 0 });
}

#[test]
fn failed_attach_is_detached_with_a_message() {
    let b = DebugBox::new(None, Some(String::from("Connection timed out")));
    assert!(!b.attached());
    match b.status() {
        Status::Detached(Some(m)) => assert_eq!(m, "Connection timed out"),
        _ => panic!("expected a detached status with a message"),
    }
}

#[test]
fn run_detaches_until_the_next_reload() {
    let mut b = DebugBox::new(Some(live_regs()), None);
    let (_, action) = b.update_impl(Message::Run);
    assert_eq!(action, Some(Action::Run));
    b.run_started();
    assert!(!b.attached());
    // while detached, CPU commands do nothing
    assert_eq!(b.update_impl(Message::Run), (false, None));
    assert_eq!(b.update_impl(Message::StepIn), (false, None));
    assert_eq!(b.update_impl(Message::StepOver), (false, None));
}

#[test]
fn step_commands_carry_the_instruction_pointer() {
    let mut b = DebugBox::new(Some(live_regs()), None);
    let (_, action) = b.update_impl(Message::StepOver);
    assert_eq!(
        action,
        Some(Action::StepOver(Address { segment: 0x1000, offset: 0x0100 }))
    );
    let (_, action) = b.update_impl(Message::StepIn);
    assert_eq!(action, Some(Action::StepIn));
    let mut r2 = live_regs();
    r2.eip = 0x0102;
    b.stepped(r2);
    assert!(b.pane_status(Pane::Code).reload);
    assert_eq!(b.code_addr().offset, 0x0102);
}

#[test]
fn io_failure_detaches_with_the_message() {
    let mut b = DebugBox::new(Some(live_regs()), None);
    b.io_failed(Some(String::from("Call failed")));
    assert!(!b.attached());
}

#[test]
fn pane_focus_follows_pane_changes() {
    let mut b = DebugBox::new(Some(live_regs()), None);
    assert!(b.pane_status(Pane::Code).focused);
    let (changed, action) = b.update_impl(Message::ChangePane(Pane::Data));
    assert!(changed);
    assert_eq!(action, None);
    assert!(!b.pane_status(Pane::Code).focused);
    assert!(b.pane_status(Pane::Data).focused);
    // the reload flag holds for one command only
    b.regs_loaded(live_regs());
    assert!(b.pane_status(Pane::Data).reload);
    b.update_impl(Message::ChangePane(Pane::Registers));
    assert!(!b.pane_status(Pane::Registers).reload);
}

#[test]
fn hex_digits_render_fixed_width_uppercase() {
    assert_eq!(hex_digits(0x12AB, 4), b"12AB".to_vec());
    assert_eq!(hex_digits(0xDEADBEEF, 8), b"DEADBEEF".to_vec());
    assert_eq!(hex_digits(0, 4), b"0000".to_vec());
    assert_eq!(hex_digits(0x0105, 8), b"00000105".to_vec());
}

#[test]
fn first_diff_finds_the_first_changed_digit() {
    assert_eq!(first_diff(&b"12AB".to_vec(), &b"12AB".to_vec()), None);
    assert_eq!(first_diff(&b"12AB".to_vec(), &b"12CB".to_vec()), Some(2));
    assert_eq!(first_diff(&b"0000".to_vec(), &b"8000".to_vec()), Some(0));
}

#[test]
fn register_pane_tracks_the_previous_snapshot() {
    let mut p = Registers::new(live_regs());
    assert!(!p.change(live_regs()));
    let mut r2 = live_regs();
    r2.eax = 7;
    assert!(p.change(r2));
}

#[test]
fn status_bar_redraws_only_on_a_different_status() {
    let mut bar = StatusBar::new(Status::Attached);
    assert!(!bar.change(Status::Attached));
    assert!(bar.change(Status::Detached(None)));
    assert!(bar.change(Status::Detached(Some(String::from("gone")))));
    assert!(!bar.change(Status::Detached(Some(String::from("gone")))));
    assert!(bar.change(Status::Detached(Some(String::from("other")))));
}
