//! What the command line takes and gives.

use vstd::prelude::*;

use crate::a2l::table::with_row;
use crate::binfile::Block;
use crate::cli::{colon, files_below, image_below};
use crate::fixup::block_pass;
use crate::interface::{last_place, parsed, Iface};
use crate::j2534::driver::{machine_in, mismatch, others, DllMachine, Process};
use crate::logging::{is_wanted, Level};
use crate::module::{row_of, ChecksumState, FlashInfo};
use crate::text::starts_with;
use crate::workshop::{code_bytes, date_of, FlashDate};

verus! {

/// Where the corrected bytes of a block go in an image, if it had to be corrected.
pub open spec fn corrected_from(
    flash_info: FlashInfo,
    simos: Seq<(u8, (ChecksumState, Vec<u8>))>,
    b: Block,
) -> Option<int> {
    if block_pass(flash_info, b.bytes, b.number, simos).0 == ChecksumState::Fixed {
        match row_of(flash_info.binfile_offsets@, b.number) {
            Some(from) => Some(from as int),
            None => None,
        }
    } else {
        None
    }
}

/// A byte of an image belongs to the corrected bytes of a block.
pub open spec fn covers(
    flash_info: FlashInfo,
    simos: Seq<(u8, (ChecksumState, Vec<u8>))>,
    b: Block,
    k: int,
) -> bool {
    corrected_from(flash_info, simos, b) matches Some(from) && from <= k < from + block_pass(
        flash_info,
        b.bytes,
        b.number,
        simos,
    ).1.len()
}

/// Correcting an image writes the blocks that had to be corrected to their places, and
/// nothing else.
pub proof fn law_what_a_correction_writes(
    flash_info: FlashInfo,
    simos: Seq<(u8, (ChecksumState, Vec<u8>))>,
    data: Seq<u8>,
    blocks: Seq<Block>,
    n: nat,
    j: int,
    k: int,
)
    requires
        n <= blocks.len(),
        0 <= k < data.len(),
    ensures
        ({
            let out = image_below(flash_info, simos, data, blocks, n).data;
            &&& out.len() == data.len()
            &&& (forall|l: int|
                0 <= l < n ==> !covers(flash_info, simos, #[trigger] blocks[l], k)) ==> out[k]
                == data[k]
            &&& 0 <= j < n && covers(flash_info, simos, blocks[j], k) && (forall|l: int|
                j < l < n ==> !covers(flash_info, simos, #[trigger] blocks[l], k)) ==> out[k]
                == block_pass(flash_info, blocks[j].bytes, blocks[j].number, simos).1[k
                - corrected_from(flash_info, simos, blocks[j])->0]
        }),
    decreases n,
{
    if n > 0 {
        law_what_a_correction_writes(flash_info, simos, data, blocks, (n - 1) as nat, j, k);
        let before = image_below(flash_info, simos, data, blocks, (n - 1) as nat).data;
        let out = image_below(flash_info, simos, data, blocks, n).data;
        let b = blocks[n - 1];
        if !covers(flash_info, simos, b, k) {
            assert(out[k] == before[k]);
        }
    }
}

/// A correction fails where a block is left invalid or could not be checked, and one line
/// is told of each block.
pub proof fn law_when_a_correction_fails(
    flash_info: FlashInfo,
    simos: Seq<(u8, (ChecksumState, Vec<u8>))>,
    data: Seq<u8>,
    blocks: Seq<Block>,
    n: nat,
)
    requires
        n <= blocks.len(),
    ensures
        image_below(flash_info, simos, data, blocks, n).lines.len() == n,
        image_below(flash_info, simos, data, blocks, n).failed <==> exists|j: int|
            0 <= j < n && {
                let s = block_pass(
                    flash_info,
                    (#[trigger] blocks[j]).bytes,
                    blocks[j].number,
                    simos,
                ).0;
                !(s is Valid) && !(s is Fixed)
            },
    decreases n,
{
    if n > 0 {
        law_when_a_correction_fails(flash_info, simos, data, blocks, (n - 1) as nat);
        let before = image_below(flash_info, simos, data, blocks, (n - 1) as nat);
        if before.failed {
            let j = choose|j: int|
                0 <= j < n - 1 && {
                    let s = block_pass(
                        flash_info,
                        (#[trigger] blocks[j]).bytes,
                        blocks[j].number,
                        simos,
                    ).0;
                    !(s is Valid) && !(s is Fixed)
                };
            assert(blocks[j].bytes == blocks[j].bytes);
        }
        let s = block_pass(flash_info, blocks[n - 1].bytes, blocks[n - 1].number, simos).0;
        if !(s is Valid) && !(s is Fixed) {
            assert(blocks[n - 1].bytes == blocks[n - 1].bytes);
        }
    }
}

proof fn lemma_colon(front: Seq<char>, back: Seq<char>)
    requires
        !front.contains(':'),
    ensures
        colon(front + seq![':'] + back) == Some(front.len() as int),
        colon(front) is None,
    decreases front.len(),
{
    let s = front + seq![':'] + back;
    if front.len() == 0 {
        assert(s[0] == ':');
    } else {
        assert(front[0] != ':') by {
            if front[0] == ':' {
                assert(front.contains(':'));
            }
        }
        let rest = front.skip(1);
        assert(!rest.contains(':')) by {
            if rest.contains(':') {
                let k = choose|k: int| 0 <= k < rest.len() && rest[k] == ':';
                assert(front[k + 1] == ':');
            }
        }
        lemma_colon(rest, back);
        assert(s.skip(1) =~= rest + seq![':'] + back);
        assert(s[0] == front[0]);
    }
}

/// An argument names a block in front of its first colon and a file behind it; one without
/// a colon is refused.
pub proof fn law_what_an_argument_names(
    args: Seq<Seq<char>>,
    name: Seq<char>,
    path: Seq<char>,
)
    requires
        !name.contains(':'),
        files_below(args, args.len()) is Ok,
    ensures
        files_below(args.push(name + seq![':'] + path), (args.len() + 1) as nat) == Ok::<
            _,
            Seq<char>,
        >(with_row(files_below(args, args.len())->Ok_0, name, path)),
        files_below(args.push(name), (args.len() + 1) as nat) == Err::<
            Seq<(Seq<char>, Seq<char>)>,
            _,
        >(name),
{
    let whole = name + seq![':'] + path;
    lemma_colon(name, path);
    lemma_same_files(args, args.push(whole), args.len());
    lemma_same_files(args, args.push(name), args.len());
    assert(args.push(whole)[args.len() as int] == whole);
    assert(args.push(name)[args.len() as int] == name);
    assert(whole.take(name.len() as int) =~= name);
    assert(whole.skip(name.len() as int + 1) =~= path);
}

proof fn lemma_same_files(a: Seq<Seq<char>>, b: Seq<Seq<char>>, n: nat)
    requires
        n <= a.len() <= b.len(),
        forall|i: int| 0 <= i < a.len() ==> a[i] == b[i],
    ensures
        files_below(a, n) == files_below(b, n),
    decreases n,
{
    if n > 0 {
        lemma_same_files(a, b, (n - 1) as nat);
    }
}

proof fn lemma_no_last_place(s: Seq<char>, c: char)
    requires
        !s.contains(c),
    ensures
        last_place(s, c) == -1,
    decreases s.len(),
{
    if s.len() > 0 {
        let shorter = s.drop_last();
        assert(s[s.len() - 1] != c);
        assert(!shorter.contains(c)) by {
            if shorter.contains(c) {
                let k = choose|k: int| 0 <= k < shorter.len() && shorter[k] == c;
                assert(s[k] == c);
            }
        }
        lemma_no_last_place(shorter, c);
    }
}

/// What an interface is called: the name of a network interface or of a fixture behind its
/// kind; a PassThru device alone or with its driver, at 500 kbit/s.
pub proof fn law_what_interfaces_are_called(name: Seq<char>)
    ensures
        parsed("socketcan:"@ + name) == Ok::<_, Seq<char>>(Iface::SocketCan(name)),
        parsed("fake:"@ + name) == Ok::<_, Seq<char>>(Iface::Fake(name)),
        parsed("panda"@) == Ok::<_, Seq<char>>(Iface::Panda),
        parsed("j2534"@) == Ok::<_, Seq<char>>(
            Iface::J2534 { dll: None, bitrate: 500_000, native_isotp: false },
        ),
        parsed("j2534-isotp"@) == Ok::<_, Seq<char>>(
            Iface::J2534 { dll: None, bitrate: 500_000, native_isotp: true },
        ),
        name.len() > 0 && !name.contains(':') ==> parsed("j2534:"@ + name) == Ok::<_, Seq<char>>(
            Iface::J2534 { dll: Some(name), bitrate: 500_000, native_isotp: false },
        ) && parsed("j2534-isotp:"@ + name) == Ok::<_, Seq<char>>(
            Iface::J2534 { dll: Some(name), bitrate: 500_000, native_isotp: true },
        ),
{
    reveal_strlit("socketcan:");
    reveal_strlit("fake:");
    reveal_strlit("panda");
    reveal_strlit("j2534");
    reveal_strlit("j2534-isotp");
    reveal_strlit("j2534:");
    reveal_strlit("j2534-isotp:");
    let a = "socketcan:"@ + name;
    assert(a.take(10) =~= "socketcan:"@);
    assert(a.skip(10) =~= name);
    let b = "fake:"@ + name;
    assert(b.take(5) =~= "fake:"@);
    assert(b.skip(5) =~= name);
    assert(b[0] == 'f');
    if starts_with(b, "socketcan:"@) {
        assert(b.take(10)[0] == 's');
    }
    lemma_no_other_kind("panda"@, 'p');
    lemma_no_other_kind("j2534"@, 'j');
    lemma_no_other_kind("j2534-isotp"@, 'j');
    assert("j2534"@.take(5) =~= "j2534"@);
    assert("j2534"@.skip(5) =~= Seq::<char>::empty());
    assert("j2534-isotp"@.take(11) =~= "j2534-isotp"@);
    assert("j2534-isotp"@.skip(11) =~= Seq::<char>::empty());
    if starts_with("panda"@, "j2534"@) {
        assert("panda"@.take(5)[0] == 'j');
    }
    let d = "j2534:"@ + name;
    let e = "j2534-isotp:"@ + name;
    lemma_no_other_kind(d, 'j');
    lemma_no_other_kind(e, 'j');
    assert(d.take(5) =~= "j2534"@);
    assert(e.take(11) =~= "j2534-isotp"@);
    assert(d[5] == ':');
    if starts_with(d, "j2534-isotp"@) {
        assert(d.take(11)[5] == '-');
    }
    assert(d.skip(5)[0] == ':' && e.skip(11)[0] == ':');
    assert(d.skip(5).skip(1) =~= name);
    assert(e.skip(11).skip(1) =~= name);
    if !name.contains(':') {
        lemma_no_last_place(name, ':');
    }
}

proof fn lemma_no_other_kind(s: Seq<char>, c: char)
    requires
        s.len() > 0,
        s[0] == c,
        c != 's',
        c != 'f',
    ensures
        !starts_with(s, "socketcan:"@),
        !starts_with(s, "fake:"@),
{
    reveal_strlit("socketcan:");
    reveal_strlit("fake:");
    if starts_with(s, "socketcan:"@) {
        assert(s.take(10)[0] == 's');
    }
    if starts_with(s, "fake:"@) {
        assert(s.take(5)[0] == 'f');
    }
}

/// A byte holds a number below a hundred as two decimal digits.
pub open spec fn two_digits(b: u8, n: int) -> bool {
    b as int % 16 < 10 && (b as int / 16) * 10 + b as int % 16 == n
}

proof fn lemma_two_digits(n: int)
    requires
        0 <= n <= 99,
    ensures
        two_digits(crate::workshop::bcd(n), n),
{
    let high = n / 10;
    let low = n % 10;
    assert(high % 16 == high);
    assert(crate::workshop::bcd(n) as int == high * 16 + low);
}

/// The nine bytes of a workshop code: year, month and day as two decimal digits each, the
/// checksum of the software, the four letters of the calibration, and a checksum.
pub proof fn law_the_bytes_of_a_workshop_code(d: FlashDate, asw: u8, cal: Seq<u8>)
    requires
        cal.len() == 4,
        d.month <= 99,
        d.day <= 99,
    ensures
        ({
            let b = code_bytes(Some(d), asw, cal);
            &&& b.len() == 9
            &&& two_digits(b[0], d.year as int % 100)
            &&& two_digits(b[1], d.month as int)
            &&& two_digits(b[2], d.day as int)
            &&& b[3] == asw
            &&& b.subrange(4, 8) == cal
        }),
        ({
            let b = code_bytes(None, asw, cal);
            b.len() == 9 && b[0] == 0 && b[1] == 0 && b[2] == 0 && b[3] == asw && b.subrange(4, 8)
                == cal
        }),
{
    lemma_two_digits(d.year as int % 100);
    lemma_two_digits(d.month as int);
    lemma_two_digits(d.day as int);
    let b = code_bytes(Some(d), asw, cal);
    assert(b.len() == 9);
    assert(b[0] == crate::workshop::bcd(d.year as int % 100));
    assert(b[1] == crate::workshop::bcd(d.month as int));
    assert(b[2] == crate::workshop::bcd(d.day as int));
    assert(b.subrange(4, 8) =~= cal);
    assert(code_bytes(None, asw, cal).subrange(4, 8) =~= cal);
}

/// A date is read only where its digits are decimal and its month and day can be; the year
/// is one of this century.
pub proof fn law_which_dates_are_read(b: Seq<u8>)
    requires
        b.len() >= 3,
    ensures
        ({
            let digits = b[0] / 16 < 10 && b[0] % 16 < 10 && b[1] / 16 < 10 && b[1] % 16 < 10 && b[2]
                / 16 < 10 && b[2] % 16 < 10;
            let month = (b[1] / 16) * 10 + b[1] % 16;
            let day = (b[2] / 16) * 10 + b[2] % 16;
            &&& date_of(b) is Some <==> digits && 1 <= month <= 12 && 1 <= day <= 31
            &&& date_of(b) matches Some(d) ==> d.year == 2000 + (b[0] / 16) * 10 + b[0] % 16
                && d.month == month && d.day == day
        }),
{
}

/// Where the four letters of a calibration stand in its block, and what stands for them
/// where there are none.
pub proof fn law_the_letters_of_a_calibration()
    ensures
        crate::workshop::SIMOS_FINGERPRINT_START == 0x7A,
        crate::workshop::SIMOS_FINGERPRINT_END == 0x7E,
        crate::workshop::CAL_ID_NONE@ == seq!['N' as u8, 'O' as u8, 'N' as u8, 'E' as u8],
        crate::workshop::CAL_ID_UNKNOWN@ == seq!['U' as u8, 'N' as u8, 'K' as u8, 'N' as u8],
{
    assert('N' as u8 == 0x4E && 'O' as u8 == 0x4F && 'E' as u8 == 0x45 && 'U' as u8 == 0x55
        && 'K' as u8 == 0x4B);
    assert(crate::workshop::CAL_ID_NONE@ =~= seq!['N' as u8, 'O' as u8, 'N' as u8, 'E' as u8]);
    assert(crate::workshop::CAL_ID_UNKNOWN@ =~= seq!['U' as u8, 'N' as u8, 'K' as u8, 'N' as u8]);
}

/// A library says in its header what it was built for: the header is marked, lies where the
/// file says, and holds the number of the processor, low byte first.
pub proof fn law_what_a_library_was_built_for(file: Seq<u8>, pe: int, low: u8, high: u8)
    requires
        0x40 <= file.len(),
        file[0] == 'M' as u8,
        file[1] == 'Z' as u8,
        pe == crate::laws::checksums::low_first(file, 0x3C),
        pe + 6 <= file.len(),
        file[pe] == 'P' as u8,
        file[pe + 1] == 'E' as u8,
        file[pe + 2] == 0,
        file[pe + 3] == 0,
        file[pe + 4] == low,
        file[pe + 5] == high,
    ensures
        low == 0x4C && high == 0x01 ==> machine_in(file) == Ok::<_, crate::j2534::driver::PeFault>(
            DllMachine::X86,
        ),
        low == 0x64 && high == 0x86 ==> machine_in(file) == Ok::<_, crate::j2534::driver::PeFault>(
            DllMachine::X64,
        ),
        low == 0x64 && high == 0xAA ==> machine_in(file) == Ok::<_, crate::j2534::driver::PeFault>(
            DllMachine::Arm64,
        ),
{
    assert('M' as u8 == 0x4D && 'Z' as u8 == 0x5A && 'P' as u8 == 0x50 && 'E' as u8 == 0x45);
    assert(file.subrange(pe, pe + 4) =~= seq![0x50u8, 0x45u8, 0u8, 0u8]);
}

/// The drivers for older programs alone are those of the one list that the other lacks.
pub proof fn law_which_drivers_are_left(
    native: Seq<Seq<char>>,
    wow32: Seq<Seq<char>>,
    name: Seq<char>,
)
    ensures
        others(native, wow32).contains(name) == (wow32.contains(name) && !native.contains(name)),
    decreases wow32.len(),
{
    if wow32.len() > 0 {
        let shorter = wow32.drop_last();
        law_which_drivers_are_left(native, shorter, name);
        let before = others(native, shorter);
        let now = others(native, wow32);
        let last = wow32[wow32.len() - 1];
        if shorter.contains(name) {
            let k = choose|k: int| 0 <= k < shorter.len() && shorter[k] == name;
            assert(wow32[k] == name);
        }
        if wow32.contains(name) && last != name {
            let k = choose|k: int| 0 <= k < wow32.len() && wow32[k] == name;
            assert(shorter[k] == name);
        }
        if before.contains(name) {
            let k = choose|k: int| 0 <= k < before.len() && before[k] == name;
            assert(now[k] == name);
        }
        if now.contains(name) {
            let k = choose|k: int| 0 <= k < now.len() && now[k] == name;
            if k < before.len() {
                assert(before[k] == name);
            }
        }
        if last == name && !native.contains(name) {
            assert(now[now.len() - 1] == name);
        }
    }
}

/// A library is refused where it was built for the other width than this process; any
/// other is tried.
pub proof fn law_which_libraries_are_refused(path: Seq<char>, process: Process, m: DllMachine)
    ensures
        mismatch(path, process, m) is Some <==> (process is X64 && m is X86) || (process is X86
            && m is X64),
{
}

/// The log keeps what this tool and its transport say, without their finest detail.
pub proof fn law_what_the_log_keeps(rest: Seq<char>, target: Seq<char>, level: Level)
    ensures
        is_wanted("mqb_"@ + rest, level) == !(level is Trace),
        is_wanted("automotive"@ + rest, level) == !(level is Trace),
        target.len() > 0 && target[0] != 'm' && target[0] != 'a' ==> !is_wanted(target, level),
{
    reveal_strlit("mqb_");
    reveal_strlit("automotive");
    assert(("mqb_"@ + rest).take(4) =~= "mqb_"@);
    assert(("automotive"@ + rest).take(10) =~= "automotive"@);
    if starts_with(target, "mqb_"@) {
        assert(target.take(4)[0] == 'm');
    }
    if starts_with(target, "automotive"@) {
        assert(target.take(10)[0] == 'a');
    }
}

} // verus!
