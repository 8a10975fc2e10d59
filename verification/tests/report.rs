use suomipeli_core::report::{alive_report, banner, edge_report};
use suomipeli_core::state::Shared;

#[test]
fn greeting() {
    let text = banner("0.1.0");
    assert_eq!(text, "\r\n\r\n*** Starting up Suomipeli\r\n\x20   firmware v0.1.0\r\n\r\n");
    assert_eq!(text.len(), 54);
    assert_eq!(banner(&"9".repeat(31)).len(), 80);
}

#[test]
fn sign_of_life() {
    assert_eq!(alive_report(0, 0, false), "0: irqc = 0, swpin = 0\r\n");
    assert_eq!(alive_report(1205, 37, true), "1205: irqc = 37, swpin = 1\r\n");
    let longest = alive_report(u64::MAX, u32::MAX, true);
    assert_eq!(longest, format!("{}: irqc = {}, swpin = 1\r\n", u64::MAX, u32::MAX));
    assert!(longest.len() <= 64);
}

#[test]
fn edges() {
    assert_eq!(
        edge_report(false, 3, 12, 100, "Map05_Turku"),
        "Falling edge: c3 b12 c100 Map05_Turku\r\n\r\n"
    );
    assert_eq!(
        edge_report(true, 7, 0, u32::MAX, "Mode01"),
        "Rising edge: c7 b0 c4294967295 Mode01\r\n\r\n"
    );
    let name = "x".repeat(43);
    assert_eq!(edge_report(false, 7, 15, u32::MAX, &name).len(), 80);
}

#[test]
fn inputs() {
    let mut s = Shared::new([0xFFFF, 1, 2, 4, 8, 16, 32, 0x8000]);
    s.fall[1] = 0x00F0;
    s.rise[6] = 0x5555;
    let row = |words: &[u16]| {
        let mut text = String::new();
        for word in words {
            text += &format!(" {:016b}", word);
        }
        text
    };
    let text = s.io_debug();
    let mut wanted = format!("bits0: {}\r\nfall0: {}", row(&s.bits[..4]), row(&s.fall[..4]));
    wanted += &format!("\r\nrise0: {}\r\n\r\n", row(&s.rise[..4]));
    wanted += &format!("bits1: {}\r\nfall1: {}", row(&s.bits[4..]), row(&s.fall[4..]));
    wanted += &format!("\r\nrise1: {}\r\n\r\n", row(&s.rise[4..]));
    assert_eq!(text, wanted);
    assert!(text.len() <= 512);
}
