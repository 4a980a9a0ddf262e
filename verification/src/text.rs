//! Text as the system wants it: UTF-16 with a terminator, and the panel's battery line.
use vstd::prelude::*;
use vstd::string::*;

verus! {

/// The UTF-16 code units of one character: itself below 2^16, else a surrogate pair.
pub open spec fn utf16_units(c: char) -> Seq<u16> {
    let v = c as int;
    if v < 0x10000 {
        seq![v as u16]
    } else {
        seq![
            (0xd800 + (v - 0x10000) / 0x400) as u16,
            (0xdc00 + (v - 0x10000) % 0x400) as u16,
        ]
    }
}

/// The UTF-16 encoding of a text.
pub open spec fn utf16(text: Seq<char>) -> Seq<u16>
    decreases text.len(),
{
    if text.len() == 0 {
        seq![]
    } else {
        utf16(text.drop_last()) + utf16_units(text.last())
    }
}

/// Appends the code units of one character.
fn push_units(units: &mut Vec<u16>, c: char)
    ensures
        final(units)@ == old(units)@ + utf16_units(c),
{
    let v: u32 = c as u32;
    if v < 0x10000 {
        units.push(v as u16);
    } else {
        let w: u32 = v - 0x10000;
        units.push((0xd800 + w / 0x400) as u16);
        units.push((0xdc00 + w % 0x400) as u16);
    }
    proof {
        assert(units@ =~= old(units)@ + utf16_units(c));
    }
}

/// The UTF-16 encoding of a text, with a terminating zero.
pub fn wide(s: &str) -> (units: Vec<u16>)
    ensures
        units@ == utf16(s@).push(0),
{
    let mut units: Vec<u16> = Vec::new();
    for c in it: s.chars()
        invariant
            it.seq() == s@,
            units@ == utf16(s@.take(it.index() as int)),
    {
        push_units(&mut units, c);
        proof {
            let now = s@.take(it.index() + 1);
            assert(now.drop_last() =~= s@.take(it.index() as int));
            assert(units@ =~= utf16(now));
        }
    }
    proof {
        assert(s@.take(s@.len() as int) =~= s@);
    }
    units.push(0);
    units
}

/// A unit that closes a surrogate pair.
pub open spec fn is_low_surrogate(unit: u16) -> bool {
    0xdc00 <= unit < 0xe000
}

/// The text that a sequence of UTF-16 code units stands for, read from its end.
pub open spec fn decode(units: Seq<u16>) -> Seq<char>
    decreases units.len(),
{
    if units.len() == 0 {
        seq![]
    } else if is_low_surrogate(units.last()) && units.len() >= 2 {
        let high = units[units.len() - 2];
        decode(units.drop_last().drop_last()).push(
            (0x10000 + (high - 0xd800) * 0x400 + (units.last() - 0xdc00)) as char,
        )
    } else {
        decode(units.drop_last()).push(units.last() as char)
    }
}

proof fn lemma_units_of_one(c: char)
    ensures
        c as int >= 0x10000 ==> {
            let units = utf16_units(c);
            &&& units.len() == 2
            &&& 0xd800 <= units[0] < 0xdc00
            &&& is_low_surrogate(units[1])
            &&& (0x10000 + (units[0] - 0xd800) * 0x400 + (units[1] - 0xdc00)) as char == c
        },
        (c as int) < 0x10000 ==> utf16_units(c).len() == 1 && !is_low_surrogate(utf16_units(c)[0])
            && utf16_units(c)[0] as int == c as int && utf16_units(c)[0] as char == c,
{
}

/// Nothing is lost in the encoding: it decodes to the text it was made of.
pub proof fn lemma_utf16_round_trip(text: Seq<char>)
    ensures
        decode(utf16(text)) == text,
    decreases text.len(),
{
    if text.len() > 0 {
        let front = text.drop_last();
        lemma_utf16_round_trip(front);
        let c = text.last();
        let units = utf16(text);
        lemma_units_of_one(c);
        if (c as int) < 0x10000 {
            assert(units.drop_last() =~= utf16(front));
            assert(!is_low_surrogate(units.last()));
        } else {
            assert(units.drop_last().drop_last() =~= utf16(front));
            assert(is_low_surrogate(units.last()));
        }
        assert(decode(units) =~= front.push(c));
        assert(text =~= front.push(c));
    }
}

/// Two texts with the same encoding are the same text.
pub proof fn lemma_utf16_is_injective(a: Seq<char>, b: Seq<char>)
    requires
        utf16(a).push(0) == utf16(b).push(0),
    ensures
        a == b,
{
    assert(utf16(a).push(0).drop_last() =~= utf16(a));
    assert(utf16(b).push(0).drop_last() =~= utf16(b));
    lemma_utf16_round_trip(a);
    lemma_utf16_round_trip(b);
}

/// In the encoding of a text without a zero character, the terminator is the only
/// zero: the system reads the whole text.
pub proof fn lemma_only_terminator_is_zero(text: Seq<char>, i: int)
    requires
        forall|k: int| 0 <= k < text.len() ==> #[trigger] text[k] as int != 0,
        0 <= i < utf16(text).len(),
    ensures
        utf16(text)[i] != 0,
    decreases text.len(),
{
    if text.len() > 0 {
        let front = text.drop_last();
        assert(text.last() as int != 0);
        lemma_units_of_one(text.last());
        if i < utf16(front).len() {
            assert forall|k: int| 0 <= k < front.len() implies #[trigger] front[k] as int != 0 by {
                assert(front[k] == text[k]);
            }
            lemma_only_terminator_is_zero(front, i);
        }
    }
}

/// The bytes of a sequence of code units, low byte first.
pub open spec fn little_endian(units: Seq<u16>) -> Seq<u8> {
    Seq::new(
        2 * units.len(),
        |i: int|
            if i % 2 == 0 {
                (units[i / 2] % 256) as u8
            } else {
                (units[i / 2] / 256) as u8
            },
    )
}

/// The bytes of a sequence of code units, low byte first.
pub fn unit_bytes(units: &Vec<u16>) -> (bytes: Vec<u8>)
    ensures
        bytes@ == little_endian(units@),
{
    let mut bytes: Vec<u8> = Vec::new();
    let mut i: usize = 0;
    while i < units.len()
        invariant
            i <= units@.len(),
            bytes@.len() == 2 * i,
            forall|k: int| 0 <= k < 2 * i ==> #[trigger] bytes@[k] == little_endian(units@)[k],
        decreases units@.len() - i,
    {
        let unit: u16 = units[i];
        bytes.push((unit % 256) as u8);
        bytes.push((unit / 256) as u8);
        i += 1;
    }
    bytes
}

proof fn lemma_unit_from_bytes(unit: u16)
    ensures
        unit == ((unit % 256) as u8) + 256 * ((unit / 256) as u8),
{
}

/// The units are all in their bytes.
pub proof fn lemma_little_endian_is_injective(a: Seq<u16>, b: Seq<u16>)
    requires
        little_endian(a) == little_endian(b),
    ensures
        a == b,
{
    assert(little_endian(a).len() == 2 * a.len());
    assert(little_endian(b).len() == 2 * b.len());
    assert forall|i: int| 0 <= i < a.len() implies #[trigger] a[i] == b[i] by {
        lemma_unit_from_bytes(a[i]);
        lemma_unit_from_bytes(b[i]);
        assert((2 * i) / 2 == i && (2 * i + 1) / 2 == i);
        assert(little_endian(a)[2 * i] == (a[i] % 256) as u8);
        assert(little_endian(b)[2 * i] == (b[i] % 256) as u8);
        assert(little_endian(a)[2 * i + 1] == (a[i] / 256) as u8);
        assert(little_endian(b)[2 * i + 1] == (b[i] / 256) as u8);
    }
    assert(a =~= b);
}

/// The power supply as the system reports it.
#[derive(Clone, Copy, PartialEq, Eq, Structural, Debug)]
pub struct PowerStatus {
    /// What is left of the battery, in percent; 255 where there is no battery.
    pub battery_percent: u8,
    /// 1 while the computer runs on line power.
    pub ac_line: u8,
}

/// A decimal digit.
pub open spec fn digit(d: int) -> char {
    (48 + d) as char
}

/// A number in decimal.
pub open spec fn decimal(n: nat) -> Seq<char>
    decreases n,
{
    if n < 10 {
        seq![digit(n as int)]
    } else {
        decimal(n / 10).push(digit((n % 10) as int))
    }
}

/// The battery line of the panel.
pub open spec fn battery_line(status: Option<PowerStatus>) -> Seq<char> {
    match status {
        None => "Battery: unknown"@,
        Some(s) => if s.battery_percent == 255 {
            "No battery"@
        } else {
            "Battery: "@ + decimal(s.battery_percent as nat) + "% "@ + (if s.ac_line == 1 {
                "(charging)"@
            } else {
                ""@
            })
        },
    }
}

fn digit_text(d: u8) -> (t: &'static str)
    requires
        d < 10,
    ensures
        t@ == seq![digit(d as int)],
{
    proof {
        reveal_strlit("0");
        reveal_strlit("1");
        reveal_strlit("2");
        reveal_strlit("3");
        reveal_strlit("4");
        reveal_strlit("5");
        reveal_strlit("6");
        reveal_strlit("7");
        reveal_strlit("8");
        reveal_strlit("9");
    }
    let t: &'static str = match d {
        0 => "0",
        1 => "1",
        2 => "2",
        3 => "3",
        4 => "4",
        5 => "5",
        6 => "6",
        7 => "7",
        8 => "8",
        _ => "9",
    };
    proof {
        assert(t@ =~= seq![digit(d as int)]);
    }
    t
}

fn append_decimal(text: &mut String, n: u8)
    ensures
        final(text)@ == old(text)@ + decimal(n as nat),
    decreases n,
{
    if n >= 10 {
        append_decimal(text, n / 10);
    }
    text.append(digit_text(n % 10));
    proof {
        assert(text@ =~= old(text)@ + decimal(n as nat));
    }
}

/// The battery line of the panel, from what the system reports, if it reports.
pub fn battery_text(status: Option<PowerStatus>) -> (text: String)
    ensures
        text@ == battery_line(status),
{
    match status {
        None => "Battery: unknown".to_owned(),
        Some(s) => {
            if s.battery_percent == 255 {
                return "No battery".to_owned();
            }
            let mut text: String = "Battery: ".to_owned();
            append_decimal(&mut text, s.battery_percent);
            text.append("% ");
            if s.ac_line == 1 {
                text.append("(charging)");
            }
            proof {
                reveal_strlit("");
                assert(text@ =~= battery_line(status));
            }
            text
        },
    }
}

/// The encoding of a text is that of its characters in turn. A character below 2^16 is its
/// own unit; any other is a pair of units, first one of the 1024 from 0xd800 on with the
/// upper ten of its bits above 2^16, then one of the 1024 from 0xdc00 on with the lower ten.
pub proof fn lemma_utf16_of_a_character(text: Seq<char>, c: char)
    ensures
        utf16(seq![]) == Seq::<u16>::empty(),
        (c as int) < 0x1_0000 ==> utf16(text.push(c)).len() == utf16(text).len() + 1 && utf16(
            text.push(c),
        ).last() as int == c as int,
        c as int >= 0x1_0000 ==> {
            let units = utf16(text.push(c));
            let high = units[units.len() - 2];
            let low = units[units.len() - 1];
            &&& units.len() == utf16(text).len() + 2
            &&& 0xd800 <= high < 0xdc00 && 0xdc00 <= low < 0xe000
            &&& 0x1_0000 + 0x400 * (high - 0xd800) + (low - 0xdc00) == c as int
        },
        utf16(text).is_prefix_of(utf16(text.push(c))),
{
    assert(text.push(c).drop_last() =~= text);
    assert(utf16(text.push(c)) == utf16(text) + utf16_units(c));
}

/// Each unit is its first byte and 256 times its second, and there are no other bytes.
pub proof fn lemma_units_from_bytes(units: Seq<u16>, i: int)
    requires
        0 <= i < units.len(),
    ensures
        little_endian(units).len() == 2 * units.len(),
        little_endian(units)[2 * i] + 256 * little_endian(units)[2 * i + 1] == units[i],
{
    assert((2 * i) / 2 == i && (2 * i + 1) / 2 == i);
    assert((2 * i) % 2 == 0 && (2 * i + 1) % 2 == 1);
    lemma_unit_from_bytes(units[i]);
}

/// The number that a row of decimal digits stands for.
pub open spec fn value(digits: Seq<char>) -> int
    decreases digits.len(),
{
    if digits.len() == 0 {
        0
    } else {
        10 * value(digits.drop_last()) + (digits.last() as int - '0' as int)
    }
}

/// The decimal form of a number is made of digits, stands for that number, and does not
/// start with a zero unless it is that digit alone.
pub proof fn lemma_decimal(n: nat, i: int)
    requires
        0 <= i < decimal(n).len(),
    ensures
        value(decimal(n)) == n,
        '0' as int <= decimal(n)[i] as int <= '9' as int,
        decimal(n)[0] as int == '0' as int ==> n == 0 && decimal(n).len() == 1,
    decreases n,
{
    reveal_with_fuel(value, 2);
    if n >= 10 {
        let front = decimal(n / 10);
        assert(front.len() >= 1) by {
            reveal_with_fuel(decimal, 2);
        }
        lemma_decimal(n / 10, 0);
        if i < front.len() {
            lemma_decimal(n / 10, i);
        }
        assert(decimal(n).drop_last() =~= front);
        assert(decimal(n)[0] == front[0]);
    } else {
        assert(decimal(n).drop_last() =~= seq![]);
    }
}

/// What the battery line reads as: the percentage between two fixed texts, and one more
/// text exactly on line power. Other states of the line make no difference to it. Without
/// a battery, the line does not depend on the power supply at all.
pub proof fn lemma_battery_line(s: PowerStatus, other: PowerStatus)
    requires
        other.battery_percent == s.battery_percent,
        s.ac_line != 1,
    ensures
        s.battery_percent == 255 ==> battery_line(Some(s)) == "No battery"@ && battery_line(
            Some(other),
        ) == "No battery"@,
        s.battery_percent != 255 ==> {
            let line = battery_line(Some(s));
            let digits = line.subrange("Battery: "@.len() as int, line.len() - "% "@.len());
            &&& "Battery: "@.len() + "% "@.len() < line.len()
            &&& line == "Battery: "@ + digits + "% "@
            &&& value(digits) == s.battery_percent
            &&& forall|i: int|
                0 <= i < digits.len() ==> '0' as int <= #[trigger] digits[i] as int <= '9' as int
            &&& digits[0] as int == '0' as int ==> digits.len() == 1
            &&& other.ac_line != 1 ==> battery_line(Some(other)) == line
            &&& other.ac_line == 1 ==> battery_line(Some(other)) == line + "(charging)"@
        },
        battery_line(None) == "Battery: unknown"@,
{
    reveal_strlit("");
    if s.battery_percent != 255 {
        let line = battery_line(Some(s));
        let d = decimal(s.battery_percent as nat);
        reveal_with_fuel(decimal, 2);
        assert(d.len() >= 1);
        lemma_decimal(s.battery_percent as nat, 0);
        let digits = line.subrange("Battery: "@.len() as int, line.len() - "% "@.len());
        assert(line =~= "Battery: "@ + d + "% "@);
        assert(digits =~= d);
        assert forall|i: int| 0 <= i < digits.len() implies '0' as int <= #[trigger] digits[i]
            as int <= '9' as int by {
            lemma_decimal(s.battery_percent as nat, i);
        }
        if other.ac_line == 1 {
            assert(battery_line(Some(other)) =~= line + "(charging)"@);
        }
    }
}

} // verus!
