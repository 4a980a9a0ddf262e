use tray_guardian::startup::{install, startup_entry, startup_mode, Mode, WATCHDOG_DELAY_SECS};
use tray_guardian::text::{battery_text, unit_bytes, wide, PowerStatus};

const SAMPLES: [&str; 7] = [
    "",
    "C:\\Tools\\guardian.exe",
    "Gr\u{fc}\u{df}e",
    "\u{ffff}\u{d7ff}\u{e000}",
    "\u{10000}\u{10ffff}",
    "a\u{1f600}b",
    "nul\0inside",
];

#[test]
fn wide_agrees_with_the_standard_encoding() {
    for text in SAMPLES {
        let expected: Vec<u16> = text.encode_utf16().chain(std::iter::once(0)).collect();
        assert_eq!(wide(text), expected, "{:?}", text);
    }
}

#[test]
fn wide_decodes_to_the_same_text() {
    for text in SAMPLES {
        let units = wide(text);
        let decoded = String::from_utf16(&units[..units.len() - 1]).unwrap();
        assert_eq!(decoded, text);
    }
}

#[test]
fn wide_examples() {
    assert_eq!(wide(""), vec![0]);
    assert_eq!(wide("A\u{1f600}"), vec![0x41, 0xd83d, 0xde00, 0]);
}

#[test]
fn only_the_terminator_is_zero() {
    for text in &SAMPLES[..6] {
        let units = wide(text);
        assert_eq!(units.iter().filter(|u| **u == 0).count(), 1);
        assert_eq!(units.last(), Some(&0));
    }
}

#[test]
fn units_are_stored_low_byte_first() {
    assert_eq!(unit_bytes(&vec![0x0041, 0xd83d, 0]), vec![0x41, 0x00, 0x3d, 0xd8, 0, 0]);
    assert!(unit_bytes(&vec![]).is_empty());
}

fn battery(percent: u8, ac_line: u8) -> String {
    battery_text(Some(PowerStatus { battery_percent: percent, ac_line }))
}

#[test]
fn battery_lines() {
    assert_eq!(battery(57, 1), "Battery: 57% (charging)");
    assert_eq!(battery(57, 0), "Battery: 57% ");
    assert_eq!(battery(57, 255), "Battery: 57% ");
    assert_eq!(battery(0, 0), "Battery: 0% ");
    assert_eq!(battery(9, 1), "Battery: 9% (charging)");
    assert_eq!(battery(10, 0), "Battery: 10% ");
    assert_eq!(battery(100, 1), "Battery: 100% (charging)");
    assert_eq!(battery(254, 0), "Battery: 254% ");
    assert_eq!(battery(255, 1), "No battery");
    assert_eq!(battery_text(None), "Battery: unknown");
}

#[test]
fn battery_lines_agree_with_formatting() {
    for percent in 0..255u8 {
        assert_eq!(battery(percent, 1), format!("Battery: {}% {}", percent, "(charging)"));
    }
}

fn mode(args: &[&str]) -> Mode {
    startup_mode(&args.iter().map(|a| a.to_string()).collect())
}

#[test]
fn command_lines() {
    assert_eq!(mode(&[]), Mode::Run);
    assert_eq!(mode(&["guardian"]), Mode::Run);
    assert_eq!(mode(&["--install"]), Mode::Run);
    assert_eq!(mode(&["guardian", "--install"]), Mode::Install);
    assert_eq!(mode(&["guardian", "--install", "more"]), Mode::Install);
    assert_eq!(mode(&["guardian", "more", "--install"]), Mode::Run);
    assert_eq!(mode(&["guardian", "--Install"]), Mode::Run);
}

#[test]
fn start_entry() {
    assert_eq!(startup_entry("C:"), vec![0x43, 0, 0x3a, 0, 0, 0]);
    assert_ne!(startup_entry("a"), startup_entry("b"));
}

#[test]
fn installation_that_succeeds() {
    let installation = install(true, "C:\\g.exe");
    assert_eq!(installation.data, Some(startup_entry("C:\\g.exe")));
    assert_eq!(installation.message, "Installed startup entry: C:\\g.exe");
}

#[test]
fn installation_that_fails() {
    let installation = install(false, "C:\\g.exe");
    assert_eq!(installation.data, None);
    assert_eq!(installation.message, "Failed to write registry Run key");
}

#[test]
fn watchdog_waits_for_the_shell() {
    assert_eq!(WATCHDOG_DELAY_SECS, 18);
}
