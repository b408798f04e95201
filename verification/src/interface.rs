//! Transport interface selection.

use vstd::prelude::*;

use crate::text::{
    chars_eq, chars_of, copy_chars, dec, has_prefix, lemma_dec_round_trip, parse_unsigned, push_dec,
    starts_with, string_of, unsigned_value,
};

verus! {

/// Which physical interface to use for CAN/ISO-TP communication.
#[derive(Debug, Clone)]
pub enum Interface {
    /// Linux SocketCAN interface (e.g. `can0`).
    SocketCan(String),
    /// comma.ai Panda USB dongle.
    Panda,
    /// SAE J2534 PassThru device.
    J2534 {
        /// Path of the PassThru library, or `None` to discover one.
        dll: Option<String>,
        /// CAN bus bitrate in bits per second.
        bitrate: u32,
        /// Whether the adapter firmware does the ISO-TP framing.
        native_isotp: bool,
    },
    /// Fixture-driven fake interface; holds the path of the fixture.
    Fake(String),
}

/// An interface as a value.
pub enum Iface {
    SocketCan(Seq<char>),
    Panda,
    J2534 { dll: Option<Seq<char>>, bitrate: u32, native_isotp: bool },
    Fake(Seq<char>),
}

impl View for Interface {
    type V = Iface;

    open spec fn view(&self) -> Iface {
        match self {
            Interface::SocketCan(name) => Iface::SocketCan(name@),
            Interface::Panda => Iface::Panda,
            Interface::J2534 { dll, bitrate, native_isotp } => Iface::J2534 {
                dll: match dll {
                    Some(path) => Some(path@),
                    None => None,
                },
                bitrate: *bitrate,
                native_isotp: *native_isotp,
            },
            Interface::Fake(path) => Iface::Fake(path@),
        }
    }
}

/// The bitrate that need not be written down.
pub const DEFAULT_BITRATE: u32 = 500_000;

/// How a PassThru interface is introduced.
pub open spec fn j2534_prefix(native_isotp: bool) -> Seq<char> {
    if native_isotp {
        "j2534-isotp"@
    } else {
        "j2534"@
    }
}

impl Iface {
    /// How an interface is written on a command line.
    pub open spec fn text(self) -> Seq<char> {
        match self {
            Iface::SocketCan(name) => "socketcan:"@ + name,
            Iface::Panda => "panda"@,
            Iface::J2534 { dll, bitrate, native_isotp } => j2534_prefix(native_isotp) + match dll {
                None => if bitrate == DEFAULT_BITRATE {
                    Seq::empty()
                } else {
                    "::"@ + dec(bitrate as nat)
                },
                Some(path) => if bitrate == DEFAULT_BITRATE {
                    ":"@ + path
                } else {
                    ":"@ + path + ":"@ + dec(bitrate as nat)
                },
            },
            Iface::Fake(path) => "fake:"@ + path,
        }
    }

    /// Whether the interface carries raw CAN frames.
    pub open spec fn raw_can(self) -> bool {
        !(self matches Iface::J2534 { native_isotp, .. } && native_isotp)
    }
}

/// What follows a prefix.
pub open spec fn after(s: Seq<char>, prefix: Seq<char>) -> Seq<char> {
    s.skip(prefix.len() as int)
}

/// The place of the last `c` in `s`, or -1.
pub open spec fn last_place(s: Seq<char>, c: char) -> int
    decreases s.len(),
{
    if s.len() == 0 {
        -1
    } else if s.last() == c {
        s.len() - 1
    } else {
        last_place(s.drop_last(), c)
    }
}

/// The bitrate after the last colon, if a bitrate is what stands there.
pub open spec fn trailing_rate(s: Seq<char>) -> Option<u32> {
    let at = last_place(s, ':');
    if at < 0 {
        None
    } else {
        match unsigned_value(s.skip(at + 1)) {
            Some(n) => if n <= u32::MAX {
                Some(n as u32)
            } else {
                None
            },
            None => None,
        }
    }
}

/// What the part after `j2534` or `j2534-isotp` selects: nothing, `:<dll>`,
/// `::<bitrate>` or `:<dll>:<bitrate>`.
pub open spec fn parsed_j2534(rest: Seq<char>, native_isotp: bool) -> Result<Iface, Seq<char>> {
    if rest.len() == 0 {
        Ok(Iface::J2534 { dll: None, bitrate: DEFAULT_BITRATE, native_isotp })
    } else if rest[0] != ':' {
        Err(
            "j2534 interface must be 'j2534[:<dll>][:<bitrate>]' or 'j2534-isotp[:<dll>][:<bitrate>]'"@,
        )
    } else {
        let body = rest.skip(1);
        if body.len() == 0 {
            Ok(Iface::J2534 { dll: None, bitrate: DEFAULT_BITRATE, native_isotp })
        } else {
            match trailing_rate(body) {
                Some(bitrate) => {
                    let dll = body.take(last_place(body, ':'));
                    Ok(
                        Iface::J2534 {
                            dll: if dll.len() == 0 {
                                None
                            } else {
                                Some(dll)
                            },
                            bitrate,
                            native_isotp,
                        },
                    )
                },
                None => Ok(
                    Iface::J2534 { dll: Some(body), bitrate: DEFAULT_BITRATE, native_isotp },
                ),
            }
        }
    }
}

/// What a text selects.
pub open spec fn parsed(s: Seq<char>) -> Result<Iface, Seq<char>> {
    if starts_with(s, "socketcan:"@) {
        Ok(Iface::SocketCan(after(s, "socketcan:"@)))
    } else if starts_with(s, "fake:"@) {
        Ok(Iface::Fake(after(s, "fake:"@)))
    } else if starts_with(s, "j2534-isotp"@) {
        parsed_j2534(after(s, "j2534-isotp"@), true)
    } else if starts_with(s, "j2534"@) {
        parsed_j2534(after(s, "j2534"@), false)
    } else if s == "panda"@ {
        Ok(Iface::Panda)
    } else {
        Err(
            "Unknown interface: '"@ + s
                + "'. Use 'socketcan:<ifname>', 'panda', 'j2534[:<dll>][:<bitrate>]' (software ISO-TP), 'j2534-isotp[:<dll>][:<bitrate>]' (hardware ISO 15765), or 'fake:<fixture.can>'"@,
        )
    }
}

/// The result of a parse as a value.
pub open spec fn outcome(r: Result<Interface, String>) -> Result<Iface, Seq<char>> {
    match r {
        Ok(i) => Ok(i@),
        Err(e) => Err(e@),
    }
}

fn find_last(s: &Vec<char>, c: char) -> (r: Option<usize>)
    ensures
        r == (if last_place(s@, c) < 0 {
            None
        } else {
            Some(last_place(s@, c) as usize)
        }),
        r matches Some(i) ==> i < s@.len() && i == last_place(s@, c),
{
    let mut n: usize = s.len();
    assert(s@.take(n as int) == s@);
    while n > 0
        invariant
            n <= s@.len(),
            last_place(s@, c) == last_place(s@.take(n as int), c),
        decreases n,
    {
        assert(s@.take(n as int).drop_last() == s@.take(n - 1));
        if s[n - 1] == c {
            return Some(n - 1);
        }
        n = n - 1;
    }
    None
}

fn parse_j2534(rest: &Vec<char>, native_isotp: bool) -> (r: Result<Interface, String>)
    ensures
        outcome(r) == parsed_j2534(rest@, native_isotp),
{
    if rest.len() == 0 {
        return Ok(Interface::J2534 { dll: None, bitrate: DEFAULT_BITRATE, native_isotp });
    }
    if rest[0] != ':' {
        return Err(
            "j2534 interface must be 'j2534[:<dll>][:<bitrate>]' or 'j2534-isotp[:<dll>][:<bitrate>]'".to_owned(),
        );
    }
    let body = copy_chars(rest, 1, rest.len());
    assert(body@ == rest@.skip(1));
    if body.len() == 0 {
        return Ok(Interface::J2534 { dll: None, bitrate: DEFAULT_BITRATE, native_isotp });
    }
    if let Some(at) = find_last(&body, ':') {
        let tail = copy_chars(&body, at + 1, body.len());
        assert(tail@ == body@.skip(at + 1));
        if let Some(rate) = parse_unsigned(&tail, u32::MAX as u64) {
            let path = copy_chars(&body, 0, at);
            assert(path@ == body@.take(at as int));
            let dll = if path.len() == 0 {
                None
            } else {
                Some(string_of(&path))
            };
            return Ok(Interface::J2534 { dll, bitrate: rate as u32, native_isotp });
        }
    }
    Ok(Interface::J2534 { dll: Some(string_of(&body)), bitrate: DEFAULT_BITRATE, native_isotp })
}

impl Interface {
    /// How the interface is written on a command line.
    pub fn to_text(&self) -> (s: String)
        ensures
            s@ == self@.text(),
    {
        match self {
            Interface::SocketCan(name) => {
                let mut s = "socketcan:".to_owned();
                s.push_str(name.as_str());
                s
            },
            Interface::Panda => "panda".to_owned(),
            Interface::J2534 { dll, bitrate, native_isotp } => {
                let mut s = if *native_isotp {
                    "j2534-isotp".to_owned()
                } else {
                    "j2534".to_owned()
                };
                let ghost prefix = s@;
                match dll {
                    None => {
                        if *bitrate != DEFAULT_BITRATE {
                            s.push_str("::");
                            push_dec(&mut s, *bitrate as u64);
                        }
                        assert(s@ == self@.text());
                    },
                    Some(path) => {
                        s.push_str(":");
                        s.push_str(path.as_str());
                        if *bitrate != DEFAULT_BITRATE {
                            s.push_str(":");
                            push_dec(&mut s, *bitrate as u64);
                        }
                        assert(s@ == self@.text());
                    },
                }
                s
            },
            Interface::Fake(path) => {
                let mut s = "fake:".to_owned();
                s.push_str(path.as_str());
                s
            },
        }
    }

    /// Read an interface as it is written on a command line.
    pub fn from_str(s: &str) -> (r: Result<Interface, String>)
        ensures
            outcome(r) == parsed(s@),
    {
        let chars = chars_of(s);
        if has_prefix(&chars, "socketcan:") {
            return Ok(Interface::SocketCan(rest_of(&chars, "socketcan:")));
        }
        if has_prefix(&chars, "fake:") {
            return Ok(Interface::Fake(rest_of(&chars, "fake:")));
        }
        if has_prefix(&chars, "j2534-isotp") {
            let rest = chars_of(rest_of(&chars, "j2534-isotp").as_str());
            return parse_j2534(&rest, true);
        }
        if has_prefix(&chars, "j2534") {
            let rest = chars_of(rest_of(&chars, "j2534").as_str());
            return parse_j2534(&rest, false);
        }
        if chars_eq(&chars, &chars_of("panda")) {
            return Ok(Interface::Panda);
        }
        let mut e = "Unknown interface: '".to_owned();
        e.push_str(s);
        e.push_str(
            "'. Use 'socketcan:<ifname>', 'panda', 'j2534[:<dll>][:<bitrate>]' (software ISO-TP), 'j2534-isotp[:<dll>][:<bitrate>]' (hardware ISO 15765), or 'fake:<fixture.can>'",
        );
        Err(e)
    }
}

fn rest_of(s: &Vec<char>, prefix: &str) -> (r: String)
    requires
        starts_with(s@, prefix@),
    ensures
        r@ == after(s@, prefix@),
{
    let n: usize = chars_of(prefix).len();
    let tail = copy_chars(s, n, s.len());
    assert(tail@ == s@.skip(n as int));
    string_of(&tail)
}

/// Whether the interface carries raw CAN frames. A hardware ISO 15765 channel
/// does not: the firmware owns the framing.
pub fn supports_raw_can(interface: &Interface) -> (r: bool)
    ensures
        r == interface@.raw_can(),
{
    match interface {
        Interface::J2534 { native_isotp, .. } => !*native_isotp,
        _ => true,
    }
}

proof fn lemma_last_place(s: Seq<char>, c: char, tail: Seq<char>)
    requires
        forall|i: int| 0 <= i < tail.len() ==> tail[i] != c,
    ensures
        last_place(s.push(c) + tail, c) == s.len(),
    decreases tail.len(),
{
    let whole = s.push(c) + tail;
    if tail.len() == 0 {
        assert(whole == s.push(c));
    } else {
        assert(whole.drop_last() == s.push(c) + tail.drop_last());
        lemma_last_place(s, c, tail.drop_last());
    }
}

proof fn lemma_rate_is_found(path: Seq<char>, bitrate: u32)
    ensures
        ({
            let body = path + ":"@ + dec(bitrate as nat);
            &&& trailing_rate(body) == Some(bitrate)
            &&& last_place(body, ':') == path.len()
            &&& body.take(path.len() as int) == path
            &&& body.len() > 0
        }),
{
    reveal_strlit(":");
    let digits = dec(bitrate as nat);
    lemma_dec_round_trip(bitrate as nat);
    let body = path + ":"@ + digits;
    assert(body == path.push(':') + digits);
    lemma_last_place(path, ':', digits);
    assert(body.skip(path.len() as int + 1) == digits);
    assert(body.take(path.len() as int) == path);
}

/// An interface that is written down reads back as itself. Left out are paths
/// that say nothing, and, where no bitrate is written, paths that end in what
/// reads as one.
pub proof fn law_text_reads_back(i: Iface)
    requires
        i matches Iface::J2534 { dll: Some(path), bitrate, .. } ==> path.len() > 0 && (bitrate
            == DEFAULT_BITRATE ==> trailing_rate(path) is None),
    ensures
        parsed(i.text()) == Ok::<Iface, Seq<char>>(i),
{
    reveal_strlit("socketcan:");
    reveal_strlit("fake:");
    reveal_strlit("j2534-isotp");
    reveal_strlit("j2534");
    reveal_strlit("panda");
    reveal_strlit(":");
    reveal_strlit("::");
    let s = i.text();
    match i {
        Iface::SocketCan(name) => {
            assert(s.take(10) == "socketcan:"@);
            assert(s.skip(10) == name);
        },
        Iface::Panda => {
            assert(s[0] == 'p');
            assert(s.take(5)[0] == 'p');
        },
        Iface::Fake(path) => {
            assert(s[0] == 'f');
            assert(!starts_with(s, "socketcan:"@)) by {
                assert("socketcan:"@[0] == 's');
                if s.len() >= 10 {
                    assert(s.take(10)[0] == 'f');
                }
            }
            assert(s.take(5) == "fake:"@);
            assert(s.skip(5) == path);
        },
        Iface::J2534 { dll, bitrate, native_isotp } => {
            let prefix = j2534_prefix(native_isotp);
            let rest = s.skip(prefix.len() as int);
            let tail = match dll {
                None => if bitrate == DEFAULT_BITRATE {
                    Seq::empty()
                } else {
                    "::"@ + dec(bitrate as nat)
                },
                Some(path) => if bitrate == DEFAULT_BITRATE {
                    ":"@ + path
                } else {
                    ":"@ + path + ":"@ + dec(bitrate as nat)
                },
            };
            assert(s == prefix + tail);
            assert(rest == tail);
            assert(s[0] == 'j');
            assert(!starts_with(s, "socketcan:"@)) by {
                if s.len() >= 10 {
                    assert(s.take(10)[0] == 'j');
                }
            }
            assert(!starts_with(s, "fake:"@)) by {
                assert(s.take(5)[0] == 'j');
            }
            assert(s.take(prefix.len() as int) == prefix);
            if !native_isotp {
                assert(!starts_with(s, "j2534-isotp"@)) by {
                    if s.len() >= 11 {
                        assert(s.take(11)[5] == tail[0]);
                        assert("j2534-isotp"@[5] == '-');
                    }
                }
            }
            match dll {
                None => {
                    if bitrate != DEFAULT_BITRATE {
                        let body = tail.skip(1);
                        lemma_rate_is_found(Seq::empty(), bitrate);
                        assert(body == Seq::<char>::empty() + ":"@ + dec(bitrate as nat));
                    }
                },
                Some(path) => {
                    let body = tail.skip(1);
                    if bitrate == DEFAULT_BITRATE {
                        assert(body == path);
                    } else {
                        lemma_rate_is_found(path, bitrate);
                        assert(body == path + ":"@ + dec(bitrate as nat));
                    }
                },
            }
        },
    }
}

} // verus!
