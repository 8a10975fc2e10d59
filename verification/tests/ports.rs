use suomipeli_core::lamps::{drive_one, drive_table, Drive, PortWrite};
use suomipeli_core::pins::MyPin;
use suomipeli_core::ports::{first_edge, which_bit};
use suomipeli_core::state::Shared;
use suomipeli_core::tasks::{now, Features, Task};

fn features(io_debug: bool) -> Features {
    Features { test_output: false, io_irq: true, io_noirq: false, io_debug }
}

#[test]
fn pin_parts() {
    let pin = MyPin { code: 0x0713 };
    assert_eq!((pin.chip(), pin.bit()), (7, 0x13));
    assert!(!pin.is_drivable());
    assert!(MyPin { code: 0x070F }.is_drivable());
    assert!(!MyPin { code: 0x0800 }.is_drivable());
    // only the two lower bytes say where the pin is
    let pin = MyPin { code: 0xABCD_0102 };
    assert_eq!((pin.chip(), pin.bit()), (1, 2));
    assert!(pin.is_drivable());
}

#[test]
fn which_bit_of_nothing() {
    assert_eq!(which_bit(&[0; 8]), (0, 0));
    assert_eq!(first_edge(&[0; 8]), None);
}

#[test]
fn which_bit_is_the_first() {
    assert_eq!(which_bit(&[0, 0, 0x8100, 0x0001, 0, 0, 0, 0]), (2, 8));
    assert_eq!(which_bit(&[0, 0, 0, 0, 0, 0, 0, 0x8000]), (7, 15));
    assert_eq!(first_edge(&[1, 0, 0, 0, 0, 0, 0, 0]), Some((0, 0)));
    assert_eq!(first_edge(&[0, 0, 0, 0, 0, 0, 0x0030, 1]), Some((6, 4)));
}

#[test]
fn poll_marks_edges() {
    let mut s = Shared::new([0xFFFF; 8]);
    let mut reading = [0xFFFF; 8];
    reading[3] = 0xFFEF;
    assert_eq!(s.io_poll(&reading, &features(false)), vec![now(Task::InputEventFall)]);
    assert_eq!(s.fall, [0, 0, 0, 0x0010, 0, 0, 0, 0]);
    assert_eq!(s.rise, [0; 8]);
    assert_eq!(s.bits, reading);

    reading[3] = 0xFFFF;
    reading[0] = 0x7FFF;
    assert_eq!(
        s.io_poll(&reading, &features(true)),
        vec![now(Task::InputEventFall), now(Task::InputEventRise), now(Task::IoDebug)]
    );
    assert_eq!(s.fall, [0x8000, 0, 0, 0, 0, 0, 0, 0]);
    assert_eq!(s.rise, [0, 0, 0, 0x0010, 0, 0, 0, 0]);

    reading[0] = 0xFFFF;
    assert_eq!(s.io_poll(&reading, &features(false)), vec![now(Task::InputEventRise)]);
}

#[test]
fn poll_without_change_is_quiet() {
    let mut s = Shared::new([0x1234; 8]);
    s.rise = [7; 8];
    s.fall = [7; 8];
    assert_eq!(s.io_poll(&[0x1234; 8], &features(true)), vec![]);
    assert_eq!((s.rise, s.fall), ([0; 8], [0; 8]));
}

#[test]
fn edges_lead_from_before_to_after() {
    let mut s = Shared::new([0x0F0F; 8]);
    s.io_poll(&[0x3355; 8], &features(false));
    for i in 0..8 {
        assert_eq!((0x0F0F | s.rise[i]) & !s.fall[i], 0x3355);
        assert_eq!(s.rise[i] & s.fall[i], 0);
    }
    assert_eq!(s.rise[0], 0x3050);
    assert_eq!(s.fall[0], 0x0C0A);
}

#[test]
fn drive_one_pin() {
    let mut out = [0u16; 8];
    let pin = MyPin { code: 0x0205 };
    assert_eq!(drive_one(&mut out, pin, Drive::High), PortWrite { chip: 2, value: 0x0020 });
    assert_eq!(drive_one(&mut out, pin, Drive::High), PortWrite { chip: 2, value: 0x0020 });
    assert_eq!(drive_one(&mut out, pin, Drive::Flip), PortWrite { chip: 2, value: 0 });
    assert_eq!(drive_one(&mut out, pin, Drive::Flip), PortWrite { chip: 2, value: 0x0020 });
    assert_eq!(drive_one(&mut out, pin, Drive::Low), PortWrite { chip: 2, value: 0 });
    assert_eq!(out, [0; 8]);
}

#[test]
fn drive_a_table() {
    let mut out = [0x8000u16; 8];
    let mut pins = [MyPin { code: 0x0100 }; 24];
    pins[1] = MyPin { code: 0x0101 };
    pins[23] = MyPin { code: 0x070E };
    let writes = drive_table(&mut out, &pins, Drive::High);
    assert_eq!(writes.len(), 24);
    assert_eq!(writes[0], PortWrite { chip: 1, value: 0x8001 });
    assert_eq!(writes[1], PortWrite { chip: 1, value: 0x8003 });
    assert_eq!(writes[23], PortWrite { chip: 7, value: 0xC000 });
    assert_eq!(out[1], 0x8003);
    drive_table(&mut out, &pins, Drive::Low);
    assert_eq!(out, [0x8000; 8]);
}
