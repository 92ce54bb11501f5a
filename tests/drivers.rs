use hydroxide::ansi::{Ansi, AnsiEscape};
use hydroxide::bga::{BochsGraphicsAdapter, TerminalDriver, VideoDevice, VideoMode};
use hydroxide::cmos::{POSTData, POSTResult, CMOS};
use hydroxide::heap::{find_heap_space, MemoryRegion, HEAP_OFFSET};
use hydroxide::hal::{Device, DeviceError, DeviceManager, DeviceType};
use hydroxide::keyboard::{encode_utf8, key_text, Key};
use hydroxide::ps2kbd::{PS2Keyboard, Reply};
use hydroxide::serial::{SerialDevice, SerialPort};
use hydroxide::pci::{BarProbe, PCIDevice, PCIDeviceAddress, PCIDeviceID, PCIDeviceType, PCIFind, PCIBAR};
use hydroxide::vgaterm::{TerminalDevice, VGA_SIZE, VGA_WIDTH};

fn chars(s: &str) -> Vec<char> {
    s.chars().collect()
}

#[test]
fn ansi_single_foreground() {
    let (codes, skip) = Ansi::parse(&chars("32m rest"));
    assert_eq!(codes, vec![Some(AnsiEscape::Foreground(2))]);
    assert_eq!(skip, 2);
}

#[test]
fn ansi_light_colors_and_background() {
    let (codes, skip) = Ansi::parse(&chars("1;37;44m"));
    assert_eq!(codes, vec![None, Some(AnsiEscape::Foreground(15)), Some(AnsiEscape::Background(12))]);
    assert_eq!(skip, 7);
}

#[test]
fn ansi_reset_and_ignored_codes() {
    let (codes, skip) = Ansi::parse(&chars("0;5;+44;99m"));
    assert_eq!(codes, vec![Some(AnsiEscape::Reset), None, Some(AnsiEscape::Background(4)), None]);
    assert_eq!(skip, 10);
}

#[test]
fn ansi_malformed_is_refused() {
    assert!(Ansi::parse_at(&chars("32"), 0).is_none());
    assert!(Ansi::parse_at(&chars(";m"), 0).is_none());
    assert!(Ansi::parse_at(&chars("256m"), 0).is_none());
    assert!(Ansi::parse_at(&chars("3x2m"), 0).is_none());
    assert_eq!(Ansi::parse_at(&chars("xx31m"), 2).unwrap().1, 4);
}

#[test]
fn pci_config_address() {
    let a = PCIDeviceAddress::new(1, 2, 3);
    assert_eq!(a.config_address(), 0x8001_1300);
    assert_eq!(PCIDeviceAddress::new(0, 0, 0).config_address(), 0x8000_0000);
    assert_eq!(PCIDeviceAddress::new(255, 31, 7).config_address(), 0x80FF_FF00);
}

#[test]
fn pci_find_matches() {
    let find = PCIFind::new(0x1234, 0x1111);
    let ty = PCIDeviceType { class_id: 3, subclass_id: 0, prog_if: 0, rev_id: 2 };
    assert!(find.matches(&PCIDeviceID { vendor_id: 0x1234, device_id: 0x1111 }, &ty));
    assert!(!find.matches(&PCIDeviceID { vendor_id: 0x1234, device_id: 0x1112 }, &ty));
    let any = PCIFind::new(0xFFFF, 0xFFFF);
    assert!(any.matches(&PCIDeviceID { vendor_id: 1, device_id: 2 }, &ty));
    assert!(!any.matches(&PCIDeviceID { vendor_id: 0xFFFF, device_id: 0xFFFF }, &ty));
    assert!(!PCIDeviceID { vendor_id: 0xFFFF, device_id: 0xFFFF }.is_valid());
}

fn device(bus: u8, slot: u8, vendor: u16, dev: u16) -> PCIDevice {
    PCIDevice {
        address: PCIDeviceAddress::new(bus, slot, 0),
        id: PCIDeviceID { vendor_id: vendor, device_id: dev },
        dev_type: PCIDeviceType { class_id: 3, subclass_id: 0, prog_if: 0, rev_id: 0 },
    }
}

#[test]
fn pci_search_next_after_last() {
    let devs = vec![device(0, 5, 0x1234, 0x1111), device(0, 2, 0x8086, 1), device(0, 3, 0x1234, 0x1111)];
    let find = PCIFind::new(0x1234, 0x1111);
    let first = PCIDevice::search(&find, None, &devs).unwrap();
    assert_eq!(first.address.slot, 3);
    let second = PCIDevice::search(&find, Some(first.address.config_address()), &devs).unwrap();
    assert_eq!(second.address.slot, 5);
    assert!(PCIDevice::search(&find, Some(second.address.config_address()), &devs).is_none());
    let m = PCIDevice::matches_pattern(&devs[1].address, devs[1].id, devs[1].dev_type, &find);
    assert!(m.is_none());
}

#[test]
fn pci_bar_32bit_memory() {
    let dev = device(0, 1, 1, 1);
    let bar = dev.get_bar(BarProbe { lo: 0xFEBF_0000, hi: 0, size_lo: 0xFFFF_F000, size_hi: 0 });
    assert!(bar.is_32bit() && bar.is_mmio() && !bar.is_iospace());
    assert_eq!(bar.addr(), 0xFEBF_0000);
    assert_eq!(bar.size(), 0x1000);
    assert_eq!(bar.identity_map(), Ok((0xFEBF_0000, 0xFEBF_1000)));
    assert_eq!(PCIDevice::bar_register(2), 0x18);
}

#[test]
fn pci_bar_io_space() {
    let dev = device(0, 1, 1, 1);
    let bar = dev.get_bar(BarProbe { lo: 0xC001, hi: 0, size_lo: 0xFFFF_FFE1, size_hi: 0 });
    assert!(bar.is_iospace() && !bar.is_mmio());
    assert_eq!(bar.get_type(), 1);
    assert_eq!(bar.addr(), 0xC000);
    assert_eq!(bar.size(), 0x20);
    assert!(bar.identity_map().is_err());
}

#[test]
fn pci_bar_64bit_memory() {
    let dev = device(0, 1, 1, 1);
    let bar = dev.get_bar(BarProbe { lo: 0xE000_000C, hi: 0x1, size_lo: 0xF000_000C, size_hi: 0xFFFF_FFFF });
    assert!(bar.is_64bit() && bar.is_mmio());
    assert_eq!(bar.addr(), 0x1_E000_0000);
    assert_eq!(bar.size(), 0x1000_0000);
    let b16 = PCIBAR::new(0x2, 0);
    assert!(b16.is_16bit());
}

#[test]
fn cmos_bcd_and_date() {
    assert_eq!(CMOS::bcd_to_dec(0x59), 59);
    assert_eq!(CMOS::bcd_to_dec(0x00), 0);
    let dt = CMOS::decode_date_time(0x30, 0x45, 0x12, 0x03, 0x18, 0x10, 0x26, 0x20);
    assert_eq!(dt.second, 30);
    assert_eq!(dt.minute, 45);
    assert_eq!(dt.hour, 12);
    assert_eq!(dt.year, 2026);
    assert_eq!(dt.century, 20);
    let d = dt.as_date();
    assert_eq!((d.day_of_month, d.month, d.year), (18, 10, 2026));
    let t = dt.as_time();
    assert_eq!((t.hour, t.minute, t.second), (12, 45, 30));
    assert_eq!(CMOS::select(0x80, 0x0E), 0x8E);
    assert_eq!(CMOS::select(0x7F, 0x8E), 0x0E);
}

#[test]
fn cmos_post_status_bits() {
    let p = POSTData::from_bits(0b1000_0001).unwrap();
    assert_eq!(p.power_supply_status(), POSTResult::Fail);
    assert_eq!(p.adapter_status(), POSTResult::Fail);
    assert_eq!(p.time_status(), POSTResult::Pass);
    assert_eq!(p.memory_match_status(), POSTResult::Yes);
    let q = POSTData::from_bits(0b0011_0000).unwrap();
    assert_eq!(q.memory_match_status(), POSTResult::No);
    assert_eq!(q.configuration_match_status(), POSTResult::No);
    assert_eq!(q.drive_status(), POSTResult::Pass);
    assert_eq!(q.cmos_checksum_status(), POSTResult::Pass);
    assert_eq!(q.adapter_init_status(), POSTResult::Pass);
    assert_eq!(POSTResult::Fail.as_str(), "FAIL");
    assert_eq!(POSTResult::Pass.as_str(), "OK");
}

#[test]
fn bga_modes() {
    let dev = device(0, 2, 0x1234, 0x1111);
    let a = BochsGraphicsAdapter::new(&dev, PCIBAR::new(0xE000_0000, 0x100_0000), PCIBAR::new(0xFEBF_0000, 0x1000));
    assert!(a.get_default_mode().is_none());
    let mut a = a.init(32, 1600, 1200);
    assert_eq!(a.addr(), 0x8000_1000);
    let m = a.get_default_mode().unwrap();
    assert_eq!((m.width, m.height, m.bpp), (1280, 720, 32));
    assert!(!a.supports_resolution(VideoMode { width: 1920, height: 1080, bpp: 32 }));
    let writes = a.set_video_mode(&m, true);
    assert_eq!(writes, vec![(4, 0), (1, 1280), (2, 720), (3, 32), (4, 65)]);
    let writes = a.set_video_mode(&m, false);
    assert_eq!(writes[4], (4, 193));
}

#[test]
fn bga_detect() {
    let devs = vec![device(0, 1, 0x8086, 0x1237), device(0, 2, 0x1234, 0x1111)];
    assert_eq!(BochsGraphicsAdapter::detect(&devs).unwrap().address.slot, 2);
    assert!(BochsGraphicsAdapter::detect(&devs[..1].to_vec()).is_err());
}

fn font() -> Vec<u8> {
    // Glyphs for the first 128 code points; 'A' has its top row full.
    let mut f = vec![0u8; 128 * 16];
    f[16 * 65] = 0xFF;
    f[16 * 65 + 1] = 0x81;
    f
}

fn palette() -> Vec<u32> {
    (0..16u32).map(|i| 0x0010_0000 * i + i).collect()
}

#[test]
fn video_device_draws_glyph() {
    let mode = VideoMode { width: 16, height: 32, bpp: 32 };
    let mut term = TerminalDriver::new(VideoDevice::new(&mode, font()), palette());
    term.write_car('A');
    assert_eq!(term.cursor(), (1, 0));
    let buf = &term.provider.buffer;
    let fg = palette()[7];
    let bg = palette()[0];
    assert!(buf[0..8].iter().all(|p| *p == fg));
    assert_eq!(buf[16], fg);
    assert_eq!(buf[17], bg);
    assert_eq!(buf[23], fg);
    assert_eq!(buf[8], 0);
    let mut fb = vec![0u32; 16 * 32];
    term.provider.flush(&mut fb);
    assert_eq!(fb, term.provider.buffer);
}

#[test]
fn terminal_wraps_and_stays_on_last_line() {
    let mode = VideoMode { width: 16, height: 32, bpp: 32 };
    let mut term = TerminalDriver::new(VideoDevice::new(&mode, font()), palette());
    term.write_car('a');
    term.write_car('b');
    term.write_car('c');
    assert_eq!(term.cursor(), (1, 1));
    term.new_line();
    assert_eq!(term.cursor(), (0, 1));
    term.write_car('\n');
    assert_eq!(term.cursor(), (0, 1));
}

#[test]
fn terminal_escapes_change_colors_then_reset() {
    let mode = VideoMode { width: 64, height: 32, bpp: 32 };
    let mut term = TerminalDriver::new(VideoDevice::new(&mode, font()), palette());
    term.write_str("\x1b[31mA");
    assert_eq!(term.cursor(), (1, 0));
    assert_eq!(term.provider.buffer[0], palette()[1]);
    assert_eq!(term.colors(), (palette()[7], palette()[0]));
    term.set_fg(5);
    term.set_bg(6);
    term.reset();
    assert_eq!(term.colors(), (5, 6));
}

#[test]
fn terminal_stops_at_bad_escape() {
    let mode = VideoMode { width: 64, height: 32, bpp: 32 };
    let mut term = TerminalDriver::new(VideoDevice::new(&mode, font()), palette());
    term.write_str("ab\x1bxcd");
    assert_eq!(term.cursor(), (2, 0));
    term.write_str("\x1b[1;44mz\n");
    assert_eq!(term.cursor(), (0, 1));
}

#[test]
fn vga_text_writes_and_controls() {
    let mut t = TerminalDevice::init();
    assert!(t.buffer().iter().all(|w| *w == 0x0720));
    t.write_bytes(b"ab");
    assert_eq!(t.buffer()[0], 0x0761);
    assert_eq!(t.buffer()[1], 0x0762);
    assert_eq!(t.cursor_offset(), 2);
    t.write_u8(0x08);
    assert_eq!(t.buffer()[1], 0x0720);
    assert_eq!(t.cursor_offset(), 1);
    t.write_u8(b'\t');
    assert_eq!(t.cursor_offset(), 2);
    t.write_u8(b'\t');
    assert_eq!(t.cursor_offset(), 4);
    t.write_u8(b'\r');
    assert_eq!(t.cursor_offset(), 0);
    t.write_u8(b'\n');
    assert_eq!(t.cursor_offset(), VGA_WIDTH);
    t.write_u8(0x08);
    assert_eq!(t.cursor_offset(), VGA_WIDTH - 1);
}

#[test]
fn vga_text_scrolls_at_bottom() {
    let mut t = TerminalDevice::init();
    t.write_u8(b'x');
    for _ in 0..25 {
        t.write_u8(b'\n');
    }
    assert_eq!(t.buffer()[0], 0x0720);
    assert_eq!(t.buffer().len(), VGA_SIZE);
    assert_eq!(t.cursor_offset(), 24 * VGA_WIDTH);
    t.clear();
    assert_eq!(t.cursor_offset(), 0);
    t.new_line();
    assert_eq!(t.cursor_offset(), VGA_WIDTH);
}

#[test]
fn heap_takes_largest_usable_region() {
    let regions = vec![
        MemoryRegion { start_addr: 0, end_addr: 0x9_F000, usable: true },
        MemoryRegion { start_addr: 0x10_0000, end_addr: 0x800_0000, usable: true },
        MemoryRegion { start_addr: 0x900_0000, end_addr: 0x2000_0000, usable: false },
        MemoryRegion { start_addr: 0x1000_0000, end_addr: 0x1700_0000, usable: true },
    ];
    assert_eq!(find_heap_space(&regions), Some((0x10_0000 + HEAP_OFFSET, 0x800_0000)));
    assert_eq!(find_heap_space(&regions[2..3].to_vec()), None);
}

#[test]
fn bar_range_overflow_is_refused() {
    let bar = PCIBAR::new(0xFFFF_FFFF_FFFF_F000, 0x2000);
    assert!(bar.is_32bit());
    assert!(bar.identity_map().is_err());
}

#[test]
fn heap_offset_past_address_space() {
    let regions = vec![MemoryRegion { start_addr: u64::MAX - 10, end_addr: u64::MAX, usable: true }];
    assert_eq!(find_heap_space(&regions), None);
    let ties = vec![
        MemoryRegion { start_addr: 0, end_addr: 0x1000, usable: true },
        MemoryRegion { start_addr: 0x2000, end_addr: 0x3000, usable: true },
    ];
    assert_eq!(find_heap_space(&ties), Some((HEAP_OFFSET, 0x1000)));
}

#[test]
fn keys_echo_to_terminal() {
    assert_eq!(encode_utf8('a'), vec![0x61]);
    assert_eq!(encode_utf8('é'), vec![0xC3, 0xA9]);
    assert_eq!(encode_utf8('€'), vec![0xE2, 0x82, 0xAC]);
    assert_eq!(encode_utf8('😀'), vec![0xF0, 0x9F, 0x98, 0x80]);
    assert_eq!(key_text(&Some(Key::Raw(b"F1".to_vec()))), b"F1".to_vec());
    assert_eq!(key_text(&None), Vec::<u8>::new());
    let mut m = DeviceManager::new();
    assert_eq!(m.register_device("tty0", Device::Terminal(TerminalDevice::init())), Ok(()));
    assert!(m.write_to_terminal("tty0", &key_text(&Some(Key::Unicode('a')))));
    assert!(m.write_to_terminal("tty0", &key_text(&None)));
    assert!(m.write_to_terminal("tty0", &key_text(&Some(Key::Raw(b"F1".to_vec())))));
    match m.get_device("tty0") {
        Some(Device::Terminal(t)) => {
            assert_eq!(t.cursor_offset(), 3);
            assert_eq!(t.buffer()[0], 0x0761);
            assert_eq!(t.buffer()[1], 0x0746);
            assert_eq!(t.buffer()[2], 0x0731);
        }
        _ => panic!("tty0 is not a terminal"),
    }
}

#[test]
fn device_names_are_unique() {
    let mut m = DeviceManager::new();
    assert_eq!(m.register_device("com1", Device::Serial(SerialDevice::new(SerialPort::COM1))), Ok(()));
    assert_eq!(m.register_device("tty0", Device::Terminal(TerminalDevice::init())), Ok(()));
    assert_eq!(
        m.register_device("com1", Device::Serial(SerialDevice::new(SerialPort::COM2))),
        Err(DeviceError::AlreadyRegistered)
    );
    match m.get_device("com1") {
        Some(Device::Serial(d)) => assert_eq!(d.base, 0x3F8),
        _ => panic!("com1 is not the first serial port"),
    }
    assert!(m.get_device("tty1").is_none());
    assert!(!m.write_to_terminal("com1", b"x"));
    assert!(!m.write_to_terminal("tty1", b"x"));
    assert_eq!(m.get_device("tty0").unwrap().get_type(), DeviceType::CharDevice);
}

#[test]
fn keyboard_replies() {
    assert_eq!(PS2Keyboard::self_test_reply(0xAA, false), Reply::Done);
    assert_eq!(PS2Keyboard::self_test_reply(0xFC, false), Reply::Failed);
    assert_eq!(PS2Keyboard::self_test_reply(0xFE, false), Reply::Retry);
    assert_eq!(PS2Keyboard::self_test_reply(0xFE, true), Reply::GaveUp);
    assert_eq!(PS2Keyboard::ack_reply(0xFA, true), Reply::Done);
    assert_eq!(PS2Keyboard::ack_reply(0x12, false), Reply::Invalid(0x12));
    assert_eq!(PS2Keyboard::scan_table(0x41), Some(2));
    assert_eq!(PS2Keyboard::scan_table(0x00), None);
}

#[test]
fn serial_setup() {
    let d = SerialDevice::new(SerialPort::COM2);
    assert_eq!(d.base, 0x2F8);
    let w = d.init_bus();
    assert_eq!(w[0], (0x2F9, 0x00));
    assert_eq!(w[1], (0x2FB, 0x80));
    assert_eq!(w[6], (0x2FC, 0x0B));
    assert_eq!(w.len(), 7);
    assert!(SerialDevice::is_empty(0x60));
    assert!(!SerialDevice::is_empty(0x01));
    assert!(SerialDevice::has_received(0x01));
    assert_eq!(SerialPort::COM4.base_port(), 0x2E8);
}
