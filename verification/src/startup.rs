//! The command line and the entry that starts the program with Windows.
use vstd::prelude::*;
use vstd::string::*;

use crate::text::{
    lemma_little_endian_is_injective, lemma_units_from_bytes, lemma_utf16_is_injective,
    little_endian, unit_bytes, utf16, wide,
};

verus! {

/// What the program was started for.
#[derive(Clone, Copy, PartialEq, Eq, Structural, Debug)]
pub enum Mode {
    Install,
    Run,
}

/// The mode that the command line asks for: installing if the first argument after
/// the program's name is `--install`, running otherwise.
pub fn startup_mode(args: &Vec<String>) -> (mode: Mode)
    ensures
        mode == (if args@.len() > 1 && args@[1]@ == "--install"@ {
            Mode::Install
        } else {
            Mode::Run
        }),
{
    let flag: String = "--install".to_owned();
    if args.len() > 1 && args[1] == flag {
        Mode::Install
    } else {
        Mode::Run
    }
}

/// How long the watchdog waits after the start, so that the shell can come up.
pub const WATCHDOG_DELAY_SECS: u64 = 18;

/// What an installation writes and reports.
pub struct Installation {
    /// The value of the start entry, if the key could be opened.
    pub data: Option<Vec<u8>>,
    pub message: String,
}

/// The value of the start entry: the program's path in UTF-16 with a terminator, low
/// bytes first.
pub open spec fn entry_data(exe: Seq<char>) -> Seq<u8> {
    little_endian(utf16(exe).push(0))
}

/// The value of the start entry for a program.
pub fn startup_entry(exe: &str) -> (data: Vec<u8>)
    ensures
        data@ == entry_data(exe@),
{
    let units: Vec<u16> = wide(exe);
    unit_bytes(&units)
}

/// The start entry names one program only.
pub proof fn lemma_entry_names_one_program(a: Seq<char>, b: Seq<char>)
    requires
        entry_data(a) == entry_data(b),
    ensures
        a == b,
{
    lemma_little_endian_is_injective(utf16(a).push(0), utf16(b).push(0));
    lemma_utf16_is_injective(a, b);
}

/// Settles an installation once the system has opened the key of the start entries, or
/// has refused to: what to write there, and what to report.
pub fn install(opened: bool, exe: &str) -> (installation: Installation)
    ensures
        opened ==> installation.data is Some && installation.data->0@ == entry_data(exe@)
            && installation.message@ == "Installed startup entry: "@ + exe@,
        !opened ==> installation.data is None && installation.message@
            == "Failed to write registry Run key"@,
{
    if opened {
        let mut message: String = "Installed startup entry: ".to_owned();
        message.append(exe);
        Installation { data: Some(startup_entry(exe)), message }
    } else {
        Installation { data: None, message: "Failed to write registry Run key".to_owned() }
    }
}

/// The start entry is two bytes for every code unit of the path, low byte first, and two
/// zero bytes at the end.
pub proof fn lemma_entry_spells_the_path(exe: Seq<char>, i: int)
    requires
        0 <= i < utf16(exe).len(),
    ensures
        entry_data(exe).len() == 2 * utf16(exe).len() + 2,
        entry_data(exe)[2 * i] + 256 * entry_data(exe)[2 * i + 1] == utf16(exe)[i],
        entry_data(exe)[2 * utf16(exe).len() as int] == 0,
        entry_data(exe).last() == 0,
{
    let units = utf16(exe).push(0);
    lemma_units_from_bytes(units, i);
    lemma_units_from_bytes(units, utf16(exe).len() as int);
}

} // verus!
