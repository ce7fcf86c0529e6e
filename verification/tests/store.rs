//! Tests of the wear-leveled flash configuration store.

use keykey::flash::{ConfigWriter, FlashError, FlashPage, CONFIGS_IN_PAGE, PAGE_SIZE};
use keykey::matrix::Matrix;
use keykey::packets::AppCommand;
use keykey::scan::handle_command;
use keykey::KeyCode;

fn page_bytes(w: &ConfigWriter) -> Vec<u8> {
    w.page().read(0, PAGE_SIZE).expect("page read")
}

fn reopened(w: &ConfigWriter) -> ConfigWriter {
    ConfigWriter::new(FlashPage::from_bytes(page_bytes(w))).expect("reopen")
}

#[test]
fn factory_boot_writes_default() {
    // A fully erased page gets the factory default entry at slot 0.
    let writer = ConfigWriter::new(FlashPage::new_erased()).expect("open");
    assert_eq!(writer.last_valid_index(), 0);
    let page = writer.page();
    assert_eq!(page.read_byte(0), 0x55);
    assert_eq!(page.read_byte(1), 0x04);
    assert_eq!(page.read_byte(2), 0x05);
    assert_eq!(page.read_byte(3), 0x06);
    assert_eq!(page.read_byte(4), 0xFF);
    let m = writer.get_config().expect("default config");
    assert_eq!(m.to_bytes(), vec![0x04, 0x05, 0x06]);
}

#[test]
fn remap_and_persist_survives_power_cycle() {
    // Remap slot 0 to Space, save, and reboot: the new mapping loads and
    // the entry sits in slot 1.
    let mut writer = ConfigWriter::new(FlashPage::new_erased()).expect("open");
    let mut matrix = writer.get_config().expect("default config");
    handle_command(
        &mut matrix,
        &mut writer,
        AppCommand::Set1(KeyCode { code: 0x2C }),
    )
    .expect("remap");
    handle_command(&mut matrix, &mut writer, AppCommand::Save).expect("save");
    assert_eq!(writer.last_valid_index(), 1);

    let rebooted = reopened(&writer);
    assert_eq!(rebooted.last_valid_index(), 1);
    let m = rebooted.get_config().expect("saved config");
    assert_eq!(m.to_bytes(), vec![0x2C, 0x05, 0x06]);
}

#[test]
fn page_wrap_after_full_page() {
    // Slots fill one by one; once the last slot is committed, the next
    // store erases the page and lands in slot 0.
    let mut writer = ConfigWriter::new(FlashPage::new_erased()).expect("open");
    let matrix = Matrix::new();
    assert_eq!(CONFIGS_IN_PAGE, 256);
    for expected in 1..CONFIGS_IN_PAGE {
        writer.write_config(&matrix).expect("store");
        assert_eq!(writer.last_valid_index(), expected);
    }
    assert_eq!(writer.last_valid_index(), CONFIGS_IN_PAGE - 1);
    writer.write_config(&matrix).expect("wrapping store");
    assert_eq!(writer.last_valid_index(), 0);
    assert_eq!(writer.page().read_byte(0), 0x55);
    // The slot after the wrapped entry is erased again.
    assert_eq!(writer.page().read_byte(4), 0xFF);
    let m = writer.get_config().expect("config after wrap");
    assert_eq!(m.to_bytes(), vec![0x04, 0x05, 0x06]);
}

#[test]
fn store_then_load_returns_mapping() {
    // The committed configuration is exactly the mapping stored, at any
    // reachable index.
    let mut writer = ConfigWriter::new(FlashPage::new_erased()).expect("open");
    let bytes = vec![0xE0u8, 0x2C, 0xA4];
    let matrix = Matrix::from_bytes(&bytes).expect("valid mapping");
    for _ in 0..5 {
        writer.write_config(&matrix).expect("store");
        let m = writer.get_config().expect("load");
        assert_eq!(m.to_bytes(), bytes);
    }
}

#[test]
fn corrupted_payload_loads_nothing() {
    // Slot 0 carries the magic marker but a payload byte reads as erased:
    // the load yields nothing and the page is left alone.
    let mut bytes = vec![0xFFu8; PAGE_SIZE];
    bytes[0] = 0x55;
    bytes[1] = 0xFF;
    bytes[2] = 0x05;
    bytes[3] = 0x06;
    let writer = ConfigWriter::new(FlashPage::from_bytes(bytes)).expect("open");
    assert_eq!(writer.last_valid_index(), 0);
    assert!(writer.get_config().is_none());
    // The caller falls back to the factory default without rewriting.
    let fallback = writer.get_config().unwrap_or_else(Matrix::new);
    assert_eq!(fallback.to_bytes(), vec![0x04, 0x05, 0x06]);
    assert_eq!(writer.page().read_byte(1), 0xFF);
}

#[test]
fn open_scans_to_last_committed_slot() {
    // Three committed slots, then an erased one: the scan stops there.
    let mut bytes = vec![0xFFu8; PAGE_SIZE];
    for slot in 0..3 {
        bytes[slot * 4] = 0x55;
        bytes[slot * 4 + 1] = 0x04;
        bytes[slot * 4 + 2] = 0x05;
        bytes[slot * 4 + 3] = 0x06;
    }
    let writer = ConfigWriter::new(FlashPage::from_bytes(bytes)).expect("open");
    assert_eq!(writer.last_valid_index(), 2);
}

#[test]
fn append_to_dirty_slot_fails_not_erased() {
    let mut bytes = vec![0xFFu8; PAGE_SIZE];
    bytes[0] = 0x55;
    bytes[1] = 0x04;
    bytes[2] = 0x05;
    bytes[3] = 0x06;
    // Slot 1 starts with garbage instead of erased flash.
    bytes[4] = 0x00;
    let mut writer = ConfigWriter::new(FlashPage::from_bytes(bytes)).expect("open");
    assert_eq!(writer.last_valid_index(), 0);
    let matrix = Matrix::new();
    match writer.write_config(&matrix) {
        Err(FlashError::FlashNotErased) => {}
        other => panic!("expected FlashNotErased, got {:?}", other),
    }
    // The store is untouched by the failed append.
    assert_eq!(writer.last_valid_index(), 0);
    assert_eq!(writer.page().read_byte(4), 0x00);
}

#[test]
fn not_erased_recovers_through_default_reset() {
    // The scan task's recovery: a dirty append slot forces a factory
    // reset, and the retried save then lands in slot 1.
    let mut bytes = vec![0xFFu8; PAGE_SIZE];
    bytes[0] = 0x55;
    bytes[1] = 0x04;
    bytes[2] = 0x05;
    bytes[3] = 0x06;
    bytes[4] = 0x00;
    let mut writer = ConfigWriter::new(FlashPage::from_bytes(bytes)).expect("open");
    let mut matrix = Matrix::from_bytes(&vec![0x2C, 0x2C, 0x2C]).expect("valid mapping");
    handle_command(&mut matrix, &mut writer, AppCommand::Save).expect("recovered save");
    assert_eq!(writer.last_valid_index(), 1);
    let m = writer.get_config().expect("saved config");
    assert_eq!(m.to_bytes(), vec![0x2C, 0x2C, 0x2C]);
}

#[test]
fn program_rejects_bad_ranges() {
    let mut page = FlashPage::new_erased();
    // An odd byte count cannot be programmed in half-words.
    match page.program(0, &vec![0x55, 0x04, 0x05]) {
        Err(FlashError::WrongRange) => {}
        other => panic!("expected WrongRange, got {:?}", other),
    }
    // A destination past the page end is rejected.
    match page.program(PAGE_SIZE - 2, &vec![1, 2, 3, 4]) {
        Err(FlashError::WrongRange) => {}
        other => panic!("expected WrongRange, got {:?}", other),
    }
    // The page is untouched by either rejection.
    assert_eq!(page.read_byte(0), 0xFF);
    assert_eq!(page.read_byte(PAGE_SIZE - 1), 0xFF);
}

#[test]
fn program_over_dirty_flash_fails() {
    let mut page = FlashPage::new_erased();
    page.program(0, &vec![0x55, 0x04]).expect("first write");
    match page.program(0, &vec![0x11, 0x22]) {
        Err(FlashError::ProgrammingError) => {}
        other => panic!("expected ProgrammingError, got {:?}", other),
    }
    // The earlier contents survive.
    assert_eq!(page.read_byte(0), 0x55);
    assert_eq!(page.read_byte(1), 0x04);
}

#[test]
fn erase_clears_whole_page() {
    let mut page = FlashPage::new_erased();
    page.program(100, &vec![0xAA, 0xBB]).expect("write");
    page.erase();
    let all = page.read(0, PAGE_SIZE).expect("read");
    assert!(all.iter().all(|&b| b == 0xFF));
}
