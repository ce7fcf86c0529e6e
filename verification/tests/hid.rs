//! Tests of the HID class state machine: descriptor service, GetReport,
//! the control-OUT command channel, and endpoint backpressure.

use keykey::hid::{
    ctrl_report_descriptor, key_report_descriptor, ControlInAction, ControlRequest,
    DescriptorChunk, Keykey, Recipient, RequestType, UsbDirection, CTRL_INTERFACE,
    KEYBOARD_INTERFACE,
};
use keykey::flash::{ConfigWriter, FlashPage};
use keykey::matrix::{BtnState, Matrix};
use keykey::packets::AppCommand;
use keykey::scan::{handle_command, scan_report};
use keykey::KeyCode;

const EP_ADDR: u8 = 0x81;

fn get_descriptor_request(interface: u8, length: u16) -> ControlRequest {
    ControlRequest {
        direction: UsbDirection::In,
        request_type: RequestType::Standard,
        recipient: Recipient::Interface,
        request: 6,
        value: 0x2200 | interface as u16,
        index: interface as u16,
        length,
    }
}

fn get_report_request(interface: u8, report_type: u8, length: u16) -> ControlRequest {
    ControlRequest {
        direction: UsbDirection::In,
        request_type: RequestType::Class,
        recipient: Recipient::Interface,
        request: 0x01,
        value: (report_type as u16) << 8,
        index: interface as u16,
        length,
    }
}

fn set_report_request(data_len: u16) -> ControlRequest {
    ControlRequest {
        direction: UsbDirection::Out,
        request_type: RequestType::Class,
        recipient: Recipient::Interface,
        request: 0x09,
        value: 0x0300,
        index: CTRL_INTERFACE as u16,
        length: data_len,
    }
}

#[test]
fn report_descriptor_served_whole() {
    let keykey = Keykey::new(EP_ADDR);
    match keykey.control_in(&get_descriptor_request(KEYBOARD_INTERFACE, 256)) {
        ControlInAction::SendBytes(v) => assert_eq!(v, key_report_descriptor()),
        other => panic!("expected bytes, got {:?}", other),
    }
    match keykey.control_in(&get_descriptor_request(CTRL_INTERFACE, 256)) {
        ControlInAction::SendBytes(v) => assert_eq!(v, ctrl_report_descriptor()),
        other => panic!("expected bytes, got {:?}", other),
    }
}

#[test]
fn report_descriptor_clipped_to_request() {
    let keykey = Keykey::new(EP_ADDR);
    match keykey.control_in(&get_descriptor_request(KEYBOARD_INTERFACE, 10)) {
        ControlInAction::SendBytes(v) => {
            assert_eq!(v, key_report_descriptor()[..10].to_vec());
        }
        other => panic!("expected bytes, got {:?}", other),
    }
}

#[test]
fn descriptor_for_unknown_interface_ignored() {
    let keykey = Keykey::new(EP_ADDR);
    assert!(matches!(
        keykey.control_in(&get_descriptor_request(7, 256)),
        ControlInAction::Ignore
    ));
}

#[test]
fn get_report_returns_last_keyboard_report() {
    let mut keykey = Keykey::new(EP_ADDR);
    let matrix = Matrix::new();
    let report = matrix.update(&vec![
        BtnState::Repeat,
        BtnState::UnPressed,
        BtnState::UnPressed,
    ]);
    assert!(keykey.set_keyboard_report(report));
    // Input report type.
    match keykey.control_in(&get_report_request(KEYBOARD_INTERFACE, 1, 8)) {
        ControlInAction::SendBytes(v) => assert_eq!(v, vec![0, 0, 0x04, 0, 0, 0, 0, 0]),
        other => panic!("expected bytes, got {:?}", other),
    }
    // Feature report type.
    match keykey.control_in(&get_report_request(KEYBOARD_INTERFACE, 3, 64)) {
        ControlInAction::SendBytes(v) => assert_eq!(v, vec![0, 0, 0x04, 0, 0, 0, 0, 0]),
        other => panic!("expected bytes, got {:?}", other),
    }
}

#[test]
fn get_report_on_control_interface_is_zeroes() {
    let keykey = Keykey::new(EP_ADDR);
    match keykey.control_in(&get_report_request(CTRL_INTERFACE, 1, 8)) {
        ControlInAction::SendBytes(v) => assert_eq!(v, vec![0; 8]),
        other => panic!("expected bytes, got {:?}", other),
    }
}

#[test]
fn get_report_with_short_length_rejected() {
    // A 7-byte budget cannot carry the 8-byte report.
    let keykey = Keykey::new(EP_ADDR);
    assert!(matches!(
        keykey.control_in(&get_report_request(KEYBOARD_INTERFACE, 1, 7)),
        ControlInAction::Reject
    ));
}

#[test]
fn get_report_output_type_rejected() {
    let keykey = Keykey::new(EP_ADDR);
    assert!(matches!(
        keykey.control_in(&get_report_request(KEYBOARD_INTERFACE, 2, 8)),
        ControlInAction::Reject
    ));
    assert!(matches!(
        keykey.control_in(&get_report_request(KEYBOARD_INTERFACE, 0, 8)),
        ControlInAction::Reject
    ));
}

#[test]
fn control_out_queues_remap_command() {
    let mut keykey = Keykey::new(EP_ADDR);
    let accepted = keykey.control_out(&set_report_request(2), &vec![1, 0x2C]);
    assert!(accepted);
    assert_eq!(
        keykey.dequeue_command(),
        Some(AppCommand::Set1(KeyCode { code: 0x2C }))
    );
    assert_eq!(keykey.dequeue_command(), None);
}

#[test]
fn control_out_queues_save_command() {
    let mut keykey = Keykey::new(EP_ADDR);
    assert!(keykey.control_out(&set_report_request(2), &vec![4, 0]));
    assert_eq!(keykey.dequeue_command(), Some(AppCommand::Save));
}

#[test]
fn control_out_wrong_payload_length_ignored() {
    // Anything but exactly two data bytes is turned away.
    let mut keykey = Keykey::new(EP_ADDR);
    assert!(!keykey.control_out(&set_report_request(3), &vec![1, 0x2C, 0]));
    assert!(!keykey.control_out(&set_report_request(1), &vec![1]));
    assert!(!keykey.control_out(&set_report_request(0), &vec![]));
    assert_eq!(keykey.dequeue_command(), None);
}

#[test]
fn control_out_invalid_command_or_code_ignored() {
    let mut keykey = Keykey::new(EP_ADDR);
    // Command byte outside the vendor set.
    assert!(!keykey.control_out(&set_report_request(2), &vec![0, 0x2C]));
    assert!(!keykey.control_out(&set_report_request(2), &vec![5, 0x2C]));
    // Remap to a code in the reserved gap.
    assert!(!keykey.control_out(&set_report_request(2), &vec![1, 0xA5]));
    assert_eq!(keykey.dequeue_command(), None);
}

#[test]
fn control_out_for_keyboard_interface_ignored() {
    let mut keykey = Keykey::new(EP_ADDR);
    let mut req = set_report_request(2);
    req.index = KEYBOARD_INTERFACE as u16;
    assert!(!keykey.control_out(&req, &vec![1, 0x2C]));
}

#[test]
fn command_queue_is_fifo_and_bounded() {
    let mut keykey = Keykey::new(EP_ADDR);
    for i in 0..8u8 {
        let accepted = keykey.control_out(&set_report_request(2), &vec![1 + (i % 3), 0x04 + i]);
        assert!(accepted, "enqueue {} should fit", i);
    }
    // The ninth command finds the queue full and the transfer is refused.
    assert!(!keykey.control_out(&set_report_request(2), &vec![1, 0x2C]));
    // Commands come back out in arrival order.
    for i in 0..8u8 {
        let expected = KeyCode { code: 0x04 + i };
        let cmd = keykey.dequeue_command().expect("queued command");
        match (i % 3, cmd) {
            (0, AppCommand::Set1(k)) => assert_eq!(k, expected),
            (1, AppCommand::Set2(k)) => assert_eq!(k, expected),
            (2, AppCommand::Set3(k)) => assert_eq!(k, expected),
            (_, other) => panic!("unexpected command {:?}", other),
        }
    }
    assert_eq!(keykey.dequeue_command(), None);
}

#[test]
fn write_guard_applies_backpressure() {
    let mut keykey = Keykey::new(EP_ADDR);
    // First full-size write goes through and arms the flag.
    assert!(keykey.write(8));
    // While the transfer is in flight nothing else is written.
    assert!(!keykey.write(8));
    // A completion on another endpoint changes nothing.
    keykey.endpoint_in_complete(0x82);
    assert!(!keykey.write(8));
    // The matching completion clears the flag.
    keykey.endpoint_in_complete(EP_ADDR);
    assert!(keykey.write(8));
    // A bus reset clears it as well.
    keykey.reset();
    assert!(keykey.write(8));
}

#[test]
fn short_write_does_not_arm_backpressure() {
    let mut keykey = Keykey::new(EP_ADDR);
    assert!(keykey.write(4));
    assert!(keykey.write(8));
    assert!(!keykey.write(8));
}

#[test]
fn press_and_hold_emits_single_report() {
    // A held button produces exactly one distinct report; later ticks with
    // the same state write nothing more.
    let mut keykey = Keykey::new(EP_ADDR);
    let matrix = Matrix::new();
    let held = vec![BtnState::Repeat, BtnState::UnPressed, BtnState::UnPressed];
    let pressed = vec![
        BtnState::ChangedToPressed,
        BtnState::UnPressed,
        BtnState::UnPressed,
    ];
    let first = scan_report(&mut keykey, &matrix, &pressed).expect("first tick writes");
    assert_eq!(first, vec![0, 0, 0x04, 0, 0, 0, 0, 0]);
    for _ in 0..10 {
        assert!(scan_report(&mut keykey, &matrix, &held).is_none());
    }
    // Release after the transfer completed: one more report, all zero.
    keykey.endpoint_in_complete(EP_ADDR);
    let released = vec![
        BtnState::ChangedToUnpressed,
        BtnState::UnPressed,
        BtnState::UnPressed,
    ];
    let second = scan_report(&mut keykey, &matrix, &released).expect("release writes");
    assert_eq!(second, vec![0; 8]);
}

#[test]
fn scan_report_blocked_while_transfer_in_flight() {
    let mut keykey = Keykey::new(EP_ADDR);
    let matrix = Matrix::new();
    let press0 = vec![BtnState::Repeat, BtnState::UnPressed, BtnState::UnPressed];
    let press1 = vec![BtnState::UnPressed, BtnState::Repeat, BtnState::UnPressed];
    assert!(scan_report(&mut keykey, &matrix, &press0).is_some());
    // The report changes while the first transfer is in flight: the new
    // report is stored but nothing is written.
    assert!(scan_report(&mut keykey, &matrix, &press1).is_none());
    keykey.endpoint_in_complete(EP_ADDR);
    // Unchanged since the stored report: still nothing to write.
    assert!(scan_report(&mut keykey, &matrix, &press1).is_none());
    // A further change after completion is written again.
    let out = scan_report(&mut keykey, &matrix, &press0).expect("retransmit");
    assert_eq!(out, vec![0, 0, 0x04, 0, 0, 0, 0, 0]);
}

#[test]
fn configuration_descriptor_plan_order() {
    let keykey = Keykey::new(EP_ADDR);
    let plan = keykey.get_configuration_descriptors();
    assert_eq!(plan.len(), 6);
    match &plan[0] {
        DescriptorChunk::Interface {
            number,
            class,
            subclass,
            protocol,
        } => {
            assert_eq!((*number, *class, *subclass, *protocol), (0, 3, 0, 1));
        }
        other => panic!("unexpected chunk {:?}", other),
    }
    match &plan[1] {
        DescriptorChunk::Class {
            descriptor_type,
            payload,
        } => {
            assert_eq!(*descriptor_type, 0x21);
            assert_eq!(payload, &vec![0x11, 0x01, 0x00, 0x01, 0x22, 46, 0]);
        }
        other => panic!("unexpected chunk {:?}", other),
    }
    assert!(matches!(plan[2], DescriptorChunk::KeyboardEndpoint));
    match &plan[3] {
        DescriptorChunk::Interface {
            number,
            class,
            subclass,
            protocol,
        } => {
            assert_eq!((*number, *class, *subclass, *protocol), (1, 3, 0, 0));
        }
        other => panic!("unexpected chunk {:?}", other),
    }
    match &plan[4] {
        DescriptorChunk::Class {
            descriptor_type,
            payload,
        } => {
            assert_eq!(*descriptor_type, 0x21);
            assert_eq!(payload, &vec![0x11, 0x01, 0x00, 0x01, 0x22, 21, 0]);
        }
        other => panic!("unexpected chunk {:?}", other),
    }
    assert!(matches!(plan[5], DescriptorChunk::DummyEndpoint));
}

#[test]
fn report_descriptors_byte_exact() {
    let key = key_report_descriptor();
    assert_eq!(key.len(), 46);
    assert_eq!(&key[..6], &[0x05, 0x01, 0x09, 0x06, 0xA1, 0x01]);
    assert_eq!(key[key.len() - 1], 0xC0);
    let ctrl = ctrl_report_descriptor();
    assert_eq!(
        ctrl,
        vec![
            0x06, 0x00, 0xFF, 0x09, 0x01, 0xA1, 0x01, 0x09, 0x01, 0x15, 0x00, 0x26, 0xFF, 0x00,
            0x75, 0x08, 0x95, 0x02, 0xB1, 0x02, 0xC0,
        ]
    );
}

#[test]
fn save_after_remaps_persists_all_of_them() {
    // Commands drain in arrival order, so a save queued after remaps
    // persists the mapping that includes them all.
    let mut keykey = Keykey::new(EP_ADDR);
    assert!(keykey.control_out(&set_report_request(2), &vec![1, 0x2C]));
    assert!(keykey.control_out(&set_report_request(2), &vec![2, 0xE0]));
    assert!(keykey.control_out(&set_report_request(2), &vec![4, 0]));

    let mut writer = ConfigWriter::new(FlashPage::new_erased()).expect("open");
    let mut matrix = writer.get_config().expect("default config");
    while let Some(cmd) = keykey.dequeue_command() {
        handle_command(&mut matrix, &mut writer, cmd).expect("apply");
    }
    let stored = writer.get_config().expect("saved config");
    assert_eq!(stored.to_bytes(), vec![0x2C, 0xE0, 0x06]);
}
