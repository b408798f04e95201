//! Which PassThru driver is loaded, and whether it can be.

use vstd::prelude::*;

use crate::bytes::{le16, le32_at, matches_at, read_u16_le, read_u32_le};
use crate::text::{join, joined, str_eq, strings};

verus! {

/// The processor a library was built for.
#[derive(Debug, Clone, Copy, PartialEq, Eq, Structural)]
pub enum DllMachine {
    X86,
    X64,
    Arm64,
    Other(u16),
}

/// Why a file does not tell what it was built for.
#[derive(Debug, Clone, Copy, PartialEq, Eq, Structural)]
pub enum PeFault {
    /// It ends too early.
    Short,
    /// not a PE file (no MZ header)
    NoMzHeader,
    /// not a valid PE file (bad PE signature)
    BadSignature,
}

/// The processor a code stands for.
pub open spec fn machine_of(code: int) -> DllMachine {
    if code == 0x014C {
        DllMachine::X86
    } else if code == 0x8664 {
        DllMachine::X64
    } else if code == 0xAA64 {
        DllMachine::Arm64
    } else {
        DllMachine::Other(code as u16)
    }
}

/// The processor a library was built for, by its header: the file starts with
/// `MZ`, holds the place of its PE header at 0x3C, and there `PE\0\0` and the
/// processor's code.
pub open spec fn machine_in(file: Seq<u8>) -> Result<DllMachine, PeFault> {
    if file.len() < 2 {
        Err(PeFault::Short)
    } else if !(file[0] == 0x4D && file[1] == 0x5A) {
        Err(PeFault::NoMzHeader)
    } else if file.len() < 0x40 {
        Err(PeFault::Short)
    } else {
        let pe = le32_at(file, 0x3C);
        if pe + 4 > file.len() {
            Err(PeFault::Short)
        } else if file.subrange(pe, pe + 4) != seq![0x50u8, 0x45u8, 0u8, 0u8] {
            Err(PeFault::BadSignature)
        } else if pe + 6 > file.len() {
            Err(PeFault::Short)
        } else {
            Ok(machine_of(le16(file[pe + 4], file[pe + 5])))
        }
    }
}

/// The processor a library was built for.
pub fn dll_machine(file: &[u8]) -> (r: Result<DllMachine, PeFault>)
    ensures
        r == machine_in(file@),
{
    let n: usize = file.len();
    if n < 2 {
        return Err(PeFault::Short);
    }
    if !(file[0] == 0x4D && file[1] == 0x5A) {
        return Err(PeFault::NoMzHeader);
    }
    if n < 0x40 {
        return Err(PeFault::Short);
    }
    let pe: usize = read_u32_le(file, 0x3C) as usize;
    if pe > n || n - pe < 4 {
        return Err(PeFault::Short);
    }
    let signature: [u8; 4] = [0x50, 0x45, 0, 0];
    assert(signature@ == seq![0x50u8, 0x45u8, 0u8, 0u8]);
    if !matches_at(file, pe, signature.as_slice()) {
        return Err(PeFault::BadSignature);
    }
    if n - pe < 6 {
        return Err(PeFault::Short);
    }
    let code: u16 = read_u16_le(file, pe + 4);
    Ok(
        if code == 0x014C {
            DllMachine::X86
        } else if code == 0x8664 {
            DllMachine::X64
        } else if code == 0xAA64 {
            DllMachine::Arm64
        } else {
            DllMachine::Other(code)
        },
    )
}

/// What this process was built for.
#[derive(Debug, Clone, Copy, PartialEq, Eq, Structural)]
pub enum Process {
    X86,
    X64,
    Other,
}

/// What is said of a library that cannot be loaded.
pub open spec fn mismatch(path: Seq<char>, process: Process, machine: DllMachine) -> Option<
    Seq<char>,
> {
    if process == Process::X64 && machine == DllMachine::X86 {
        Some(
            "J2534 DLL '"@ + path
                + "' is 32-bit (IMAGE_FILE_MACHINE_I386) and cannot be loaded by this 64-bit process.\nOptions:\n  1. Install 64-bit drivers for your device.\n  2. Use mqb-flash-x86.exe instead (32-bit build)."@,
        )
    } else if process == Process::X86 && machine == DllMachine::X64 {
        Some(
            "J2534 DLL '"@ + path
                + "' is 64-bit (IMAGE_FILE_MACHINE_AMD64) and cannot be loaded by this 32-bit process.\nOptions:\n  1. Install 32-bit drivers for your device.\n  2. Use mqb-flash-x64.exe instead (64-bit build)."@,
        )
    } else {
        None
    }
}

/// Whether a library can be loaded by this process. One whose header could not be
/// read is let through: loading it will tell.
pub fn check_dll_architecture(
    path: &str,
    process: Process,
    machine: Result<DllMachine, PeFault>,
) -> (r: Result<(), String>)
    ensures
        match machine {
            Err(_) => r is Ok,
            Ok(m) => match r {
                Ok(_) => mismatch(path@, process, m) is None,
                Err(e) => mismatch(path@, process, m) == Some(e@),
            },
        },
{
    let machine = match machine {
        Ok(m) => m,
        Err(_) => {
            return Ok(());
        },
    };
    let mut s: String = "J2534 DLL '".to_owned();
    s.push_str(path);
    if process == Process::X64 && machine == DllMachine::X86 {
        s.push_str(
            "' is 32-bit (IMAGE_FILE_MACHINE_I386) and cannot be loaded by this 64-bit process.\nOptions:\n  1. Install 64-bit drivers for your device.\n  2. Use mqb-flash-x86.exe instead (32-bit build).",
        );
        Err(s)
    } else if process == Process::X86 && machine == DllMachine::X64 {
        s.push_str(
            "' is 64-bit (IMAGE_FILE_MACHINE_AMD64) and cannot be loaded by this 32-bit process.\nOptions:\n  1. Install 32-bit drivers for your device.\n  2. Use mqb-flash-x64.exe instead (64-bit build).",
        );
        Err(s)
    } else {
        Ok(())
    }
}

/// The drivers of the second list that the first does not have.
pub open spec fn others(native: Seq<Seq<char>>, wow32: Seq<Seq<char>>) -> Seq<Seq<char>>
    decreases wow32.len(),
{
    if wow32.len() == 0 {
        Seq::empty()
    } else {
        let fewer = others(native, wow32.drop_last());
        if native.contains(wow32.last()) {
            fewer
        } else {
            fewer.push(wow32.last())
        }
    }
}

fn lists(v: &Vec<String>, x: &str) -> (r: bool)
    ensures
        r == strings(v@).contains(x@),
{
    let ghost all = strings(v@);
    let mut i: usize = 0;
    while i < v.len()
        invariant
            i <= v@.len(),
            all == strings(v@),
            forall|j: int| 0 <= j < i ==> #[trigger] all[j] != x@,
        decreases v@.len() - i,
    {
        assert(all[i as int] == v@[i as int]@);
        if str_eq(v[i].as_str(), x) {
            assert(all.contains(x@));
            return true;
        }
        i = i + 1;
    }
    assert(!all.contains(x@));
    false
}

/// The drivers registered for 32-bit programs only.
pub fn only_32bit(native: &Vec<String>, wow32: &Vec<String>) -> (v: Vec<String>)
    ensures
        strings(v@) == others(strings(native@), strings(wow32@)),
{
    let ghost all = strings(wow32@);
    let mut v: Vec<String> = Vec::new();
    let mut i: usize = 0;
    assert(all.take(0) == Seq::<Seq<char>>::empty());
    assert(strings(v@) == Seq::<Seq<char>>::empty());
    while i < wow32.len()
        invariant
            i <= wow32@.len(),
            all == strings(wow32@),
            strings(v@) == others(strings(native@), all.take(i as int)),
        decreases wow32@.len() - i,
    {
        assert(all.take(i + 1).drop_last() == all.take(i as int));
        assert(all[i as int] == wow32@[i as int]@);
        if !lists(native, wow32[i].as_str()) {
            let s = wow32[i].clone();
            let ghost before = strings(v@);
            v.push(s);
            assert(strings(v@) == before.push(s@));
        }
        i = i + 1;
    }
    assert(all.take(i as int) == all);
    v
}

/// What is said where no driver is registered.
pub const NO_DRIVERS: &'static str =
    "No J2534 PassThru drivers found in HKLM\\SOFTWARE\\PassThruSupport.04.04";

/// What is said where there are only 32-bit drivers.
pub open spec fn only_32bit_text(drivers: Seq<Seq<char>>) -> Seq<char> {
    "No 64-bit J2534 drivers found. The following device(s) have 32-bit-only drivers registered under HKLM\\SOFTWARE\\WOW6432Node\\PassThruSupport.04.04, which cannot be loaded by this 64-bit process:\n  "@
        + joined(drivers, "\n  "@)
        + "\nOptions:\n  1. Install 64-bit drivers for your device (check manufacturer's website).\n  2. Use `j2534:<path>` to specify a 64-bit DLL explicitly.\n  3. Use mqb-flash-x86.exe instead (32-bit build)."@
}

/// The driver that is loaded: the one that was asked for, else the first that is
/// registered for this process.
pub open spec fn driver_of(
    asked: Option<Seq<char>>,
    native: Seq<Seq<char>>,
    wow32: Seq<Seq<char>>,
) -> Result<Seq<char>, Seq<char>> {
    match asked {
        Some(path) => Ok(path),
        None => if native.len() > 0 {
            Ok(native[0])
        } else if others(native, wow32).len() == 0 {
            Err(NO_DRIVERS@)
        } else {
            Err(only_32bit_text(others(native, wow32)))
        },
    }
}

/// Choose the driver that is loaded. `native` and `wow32` are the libraries that
/// are registered for programs of this kind and for 32-bit programs.
pub fn resolve_dll_path(
    dll_path: Option<&str>,
    native: &Vec<String>,
    wow32: &Vec<String>,
) -> (r: Result<String, String>)
    ensures
        ({
            let asked = match dll_path {
                Some(p) => Some(p@),
                None => None,
            };
            match r {
                Ok(path) => driver_of(asked, strings(native@), strings(wow32@)) == Ok::<_, Seq<char>>(
                    path@,
                ),
                Err(e) => driver_of(asked, strings(native@), strings(wow32@)) == Err::<Seq<char>, _>(
                    e@,
                ),
            }
        }),
{
    if let Some(p) = dll_path {
        return Ok(p.to_owned());
    }
    assert(strings(native@).len() == native@.len());
    if native.len() > 0 {
        assert(strings(native@)[0] == native@[0]@);
        return Ok(native[0].clone());
    }
    let rest = only_32bit(native, wow32);
    assert(strings(rest@).len() == rest@.len());
    if rest.len() == 0 {
        return Err(NO_DRIVERS.to_owned());
    }
    let mut s: String =
        "No 64-bit J2534 drivers found. The following device(s) have 32-bit-only drivers registered under HKLM\\SOFTWARE\\WOW6432Node\\PassThruSupport.04.04, which cannot be loaded by this 64-bit process:\n  ".to_owned();
    s.push_str(join(&rest, "\n  ").as_str());
    s.push_str(
        "\nOptions:\n  1. Install 64-bit drivers for your device (check manufacturer's website).\n  2. Use `j2534:<path>` to specify a 64-bit DLL explicitly.\n  3. Use mqb-flash-x86.exe instead (32-bit build).",
    );
    Err(s)
}

/// A driver that was asked for is loaded whatever is registered, and without one
/// a registered driver is taken whenever there is one.
pub proof fn law_an_explicit_driver_wins(
    path: Seq<char>,
    native: Seq<Seq<char>>,
    wow32: Seq<Seq<char>>,
)
    ensures
        driver_of(Some(path), native, wow32) == Ok::<_, Seq<char>>(path),
        driver_of(None, native, wow32) is Ok <==> native.len() > 0,
{
}

} // verus!
