use led5011as::generic_driver::GenericLED5011AS;
use led5011as::interface::LED5011ASDriver;
use led5011as::recording::LineFault;
use led5011as::recording::RecordingLine;
use led5011as::simple_driver::LED5011AS as UniformLED5011AS;
use led5011as::LED5011AS;

/// The digit table from the datasheet: bit 0 = a .. bit 6 = g, dp clear.
const DIGITS: [u8; 10] = [
    0b0111111, 0b0000110, 0b1011011, 0b1001111, 0b1100110, 0b1101101, 0b1111101, 0b0000111,
    0b1111111, 0b1101111,
];

fn bit(data: u8, i: usize) -> bool {
    (data >> i) & 1 == 1
}

fn uniform() -> UniformLED5011AS<RecordingLine> {
    UniformLED5011AS::new(
        RecordingLine::new(false),
        RecordingLine::new(false),
        RecordingLine::new(false),
        RecordingLine::new(false),
        RecordingLine::new(false),
        RecordingLine::new(false),
        RecordingLine::new(false),
        RecordingLine::new(false),
    )
}

fn levels_of(d: &UniformLED5011AS<RecordingLine>) -> [bool; 8] {
    let s = d.segments();
    [
        s[0].level(),
        s[1].level(),
        s[2].level(),
        s[3].level(),
        s[4].level(),
        s[5].level(),
        s[6].level(),
        s[7].level(),
    ]
}

#[test]
fn write_byte_displays_one() {
    let mut d = uniform();
    d.write_byte(0b00000110).unwrap();
    // segments b and c on, all others off: the display shows '1'
    assert_eq!(
        levels_of(&d),
        [false, true, true, false, false, false, false, false]
    );
}

#[test]
fn write_byte_displays_a() {
    let mut d = uniform();
    d.write_byte(0b01110111).unwrap();
    // segments a, b, c, e, f, g on, d off: the display shows 'A'
    assert_eq!(
        levels_of(&d),
        [true, true, true, false, true, true, true, false]
    );
}

#[test]
fn set_digit_five_with_dot() {
    let mut d = uniform();
    d.set_digit(5, true).unwrap();
    let expected = 0b11101101u8;
    let got = levels_of(&d);
    for i in 0..8 {
        assert_eq!(got[i], bit(expected, i));
    }
    assert!(got[7], "dot point must be on");
}

#[test]
fn write_byte_all_patterns() {
    for pattern in 0..=255u8 {
        let mut d = uniform();
        d.write_byte(pattern).unwrap();
        let got = levels_of(&d);
        let s = d.segments();
        for i in 0..8 {
            assert_eq!(got[i], bit(pattern, i), "pattern {pattern:#010b}, line {i}");
            // exactly one write per line, at the level of bit i
            assert_eq!(s[i].history().as_slice(), &[bit(pattern, i)]);
        }
    }
}

#[test]
fn set_digit_all_digits() {
    for digit in 0..=9u8 {
        for dot_point in [false, true] {
            let mut d = uniform();
            d.set_digit(digit, dot_point).unwrap();
            let expected = DIGITS[digit as usize] | if dot_point { 0x80 } else { 0 };
            let got = levels_of(&d);
            let s = d.segments();
            for i in 0..8 {
                assert_eq!(got[i], bit(expected, i), "digit {digit}, line {i}");
                assert_eq!(s[i].history().as_slice(), &[bit(expected, i)]);
            }
        }
    }
}

#[test]
fn clear_drives_all_off() {
    let mut d = UniformLED5011AS::new(
        RecordingLine::new(true),
        RecordingLine::new(true),
        RecordingLine::new(true),
        RecordingLine::new(true),
        RecordingLine::new(true),
        RecordingLine::new(true),
        RecordingLine::new(true),
        RecordingLine::new(true),
    );
    d.clear().unwrap();
    // eight calls, all at level off: the same trace write_byte(0) issues
    assert_eq!(levels_of(&d), [false; 8]);
    let s = d.segments();
    for i in 0..8 {
        assert_eq!(s[i].history().as_slice(), &[false]);
    }
}

#[test]
fn clear_equals_write_byte_zero() {
    let mut cleared = uniform();
    cleared.set_digit(8, true).unwrap();
    cleared.clear().unwrap();
    let mut written = uniform();
    written.set_digit(8, true).unwrap();
    written.write_byte(0).unwrap();
    assert_eq!(levels_of(&cleared), levels_of(&written));
    let sc = cleared.segments();
    let sw = written.segments();
    for i in 0..8 {
        assert_eq!(sc[i].history(), sw[i].history());
    }
}

#[test]
fn overwrite_leaves_no_residue() {
    let mut d = uniform();
    d.set_digit(3, false).unwrap();
    d.set_digit(7, false).unwrap();
    // final levels equal those of write_byte(DIGITS[7]): nothing of the '3' stays
    let mut fresh = uniform();
    fresh.write_byte(DIGITS[7]).unwrap();
    assert_eq!(levels_of(&d), levels_of(&fresh));
    let s = d.segments();
    for i in 0..8 {
        // every line was written by both digit writes
        assert_eq!(s[i].history().len(), 2);
    }
}

#[test]
fn fault_stops_the_write() {
    for k in 0..8usize {
        let mut lines: Vec<RecordingLine> = (0..8)
            .map(|i| {
                if i == k {
                    RecordingLine::failing(false)
                } else {
                    RecordingLine::new(false)
                }
            })
            .collect();
        let mut d = UniformLED5011AS::new(
            lines.remove(0),
            lines.remove(0),
            lines.remove(0),
            lines.remove(0),
            lines.remove(0),
            lines.remove(0),
            lines.remove(0),
            lines.remove(0),
        );
        assert_eq!(d.write_byte(0b11111111), Err(LineFault));
        let s = d.segments();
        for i in 0..8 {
            if i < k {
                // already written before the failure, not undone
                assert!(s[i].level());
                assert_eq!(s[i].history().as_slice(), &[true]);
            } else {
                // the failing line and the lines after it were never driven
                assert!(!s[i].level());
                assert!(s[i].history().is_empty());
            }
        }
    }
}

#[test]
fn variants_produce_identical_traces() {
    let mut u = uniform();
    let mut g = GenericLED5011AS::new(
        RecordingLine::new(false),
        RecordingLine::new(false),
        RecordingLine::new(false),
        RecordingLine::new(false),
        RecordingLine::new(false),
        RecordingLine::new(false),
        RecordingLine::new(false),
        RecordingLine::new(false),
    );
    let mut s = LED5011AS::new(
        RecordingLine::new(false),
        RecordingLine::new(false),
        RecordingLine::new(false),
        RecordingLine::new(false),
        RecordingLine::new(false),
        RecordingLine::new(false),
        RecordingLine::new(false),
        RecordingLine::new(false),
    );

    u.set_digit(3, false).unwrap();
    u.write_byte(0b10100101).unwrap();
    u.clear().unwrap();
    u.set_digit(9, true).unwrap();

    g.set_digit(3, false).unwrap();
    g.write_byte(0b10100101).unwrap();
    g.clear().unwrap();
    g.set_digit(9, true).unwrap();

    s.set_digit(3, false).unwrap();
    s.write_byte(0b10100101).unwrap();
    s.clear().unwrap();
    s.set_digit(9, true).unwrap();

    let gl = g.into_lines();
    let sl = s.into_lines();
    let g_lines = [
        gl.0, gl.1, gl.2, gl.3, gl.4, gl.5, gl.6, gl.7,
    ];
    let s_lines = [
        sl.0, sl.1, sl.2, sl.3, sl.4, sl.5, sl.6, sl.7,
    ];
    let ul = u.segments();
    for i in 0..8 {
        assert_eq!(ul[i].level(), g_lines[i].level(), "line {i}");
        assert_eq!(ul[i].level(), s_lines[i].level(), "line {i}");
        assert_eq!(ul[i].history(), g_lines[i].history(), "line {i}");
        assert_eq!(ul[i].history(), s_lines[i].history(), "line {i}");
    }
}

#[test]
fn digit_table_matches_datasheet() {
    for digit in 0..=9u8 {
        let mut d = uniform();
        d.set_digit(digit, false).unwrap();
        let got = levels_of(&d);
        for i in 0..7 {
            assert_eq!(got[i], bit(DIGITS[digit as usize], i), "digit {digit}, bar {i}");
        }
        assert!(!got[7], "digit {digit}: dp must stay off");
    }
}
