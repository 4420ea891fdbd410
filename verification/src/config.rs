//! Program configuration: the mode, the address and the port to use.
use vstd::prelude::*;

use crate::text::{all_digits, digit_value, digits_value, is_digit};

verus! {

/// Whether the program serves or joins a session.
#[derive(Debug, Clone, Copy, PartialEq, Eq, Structural)]
pub enum ProgramMode {
    Server,
    Client,
}

/// The name a mode is shown under.
pub open spec fn mode_name(mode: ProgramMode) -> Seq<char> {
    match mode {
        ProgramMode::Client => "ClientMode"@,
        ProgramMode::Server => "ServerMode"@,
    }
}

impl ProgramMode {
    /// The name the mode is shown under: `ServerMode` or `ClientMode`.
    pub fn describe(&self) -> (s: String)
        ensures
            s@ == mode_name(*self),
    {
        match self {
            ProgramMode::Client => String::from_str("ClientMode"),
            ProgramMode::Server => String::from_str("ServerMode"),
        }
    }
}

/// The mode a word names: exactly `server` or `client`.
pub open spec fn mode_of(text: Seq<char>) -> Option<ProgramMode> {
    if text == "server"@ {
        Some(ProgramMode::Server)
    } else if text == "client"@ {
        Some(ProgramMode::Client)
    } else {
        None
    }
}

/// The digits of a port number: the text after one leading `+`, if any.
pub open spec fn port_digits(text: Seq<char>) -> Seq<char> {
    if text.len() > 0 && text[0] == '+' {
        text.drop_first()
    } else {
        text
    }
}

/// Whether a run of characters cannot be the start of the digits of a port:
/// it holds a non-digit, or its digits already exceed the largest port.
pub open spec fn bad_port_prefix(d: Seq<char>) -> bool {
    !(all_digits(d) && digits_value(d) <= 65535)
}

/// The port a text denotes, as `u16`'s `FromStr` reads it: an optional `+`,
/// then at least one ASCII decimal digit and nothing else, at most 65535.
pub open spec fn port_of(text: Seq<char>) -> Option<u16> {
    let d = port_digits(text);
    if d.len() > 0 && !bad_port_prefix(d) {
        Some(digits_value(d) as u16)
    } else {
        None
    }
}

/// The message of a mode that is not understood.
pub open spec fn invalid_mode_message() -> Seq<char> {
    "Invalid mode!"@
}

/// The message of a port that is not understood.
pub open spec fn invalid_port_message() -> Seq<char> {
    "Invalid inputed port."@
}

/// Once a run of characters cannot start the digits of a port, no longer run can.
pub proof fn lemma_bad_prefix_stays_bad(d: Seq<char>, j: int)
    requires
        0 <= j <= d.len(),
        bad_port_prefix(d.subrange(0, j)),
    ensures
        bad_port_prefix(d),
    decreases d.len() - j,
{
    if j < d.len() {
        let e = d.subrange(0, j + 1);
        assert(e.drop_last() =~= d.subrange(0, j));
        if all_digits(e) {
            assert(all_digits(d.subrange(0, j))) by {
                assert forall|i: int| 0 <= i < j implies #[trigger] is_digit(d.subrange(0, j)[i]) by {
                    assert(d.subrange(0, j)[i] == e[i]);
                }
            }
        }
        assert(bad_port_prefix(e));
        lemma_bad_prefix_stays_bad(d, j + 1);
    } else {
        assert(d.subrange(0, j) =~= d);
    }
}

/// A program configuration. `Ip` is the caller's type of network address:
/// the library carries it and never looks inside.
pub struct ProgramConfig<Ip> {
    pub mode: ProgramMode,
    pub ip: Ip,
    pub port: u16,
}

impl<Ip> ProgramConfig<Ip> {
    /// A configuration of the given parts.
    pub fn new(mode: ProgramMode, ip: Ip, port: u16) -> (c: ProgramConfig<Ip>)
        ensures
            c.mode == mode,
            c.ip == ip,
            c.port == port,
    {
        ProgramConfig { mode, ip, port }
    }

    /// Reads a mode: `server` or `client`, exactly; anything else is refused
    /// with the message `Invalid mode!`.
    pub fn parse_mode(mode: &str) -> (r: Result<ProgramMode, String>)
        ensures
            match r {
                Ok(m) => mode_of(mode@) == Some(m),
                Err(e) => mode_of(mode@) is None && e@ == invalid_mode_message(),
            },
    {
        let text = String::from_str(mode);
        if text == String::from_str("server") {
            Ok(ProgramMode::Server)
        } else if text == String::from_str("client") {
            Ok(ProgramMode::Client)
        } else {
            Err(String::from_str("Invalid mode!"))
        }
    }

    /// Reads a port number as `u16`'s `FromStr` does; a text that is not one
    /// is refused with the message `Invalid inputed port.`.
    pub fn parse_port(port: &str) -> (r: Result<u16, String>)
        ensures
            match r {
                Ok(p) => port_of(port@) == Some(p),
                Err(e) => port_of(port@) is None && e@ == invalid_port_message(),
            },
    {
        let ghost s = port@;
        let mut value: u32 = 0;
        let mut ok = true;
        let mut at_start = true;
        let mut skipped_plus = false;
        let mut seen_digit = false;
        for c in it: port.chars()
            invariant
                it.seq() == s,
                0 <= it.index() <= s.len(),
                at_start <==> it.index() == 0,
                skipped_plus <==> (it.index() > 0 && s[0] == '+'),
                ({
                    let st: int = if skipped_plus { 1 } else { 0 };
                    let k = it.index() as int;
                    &&& st <= k
                    &&& seen_digit <==> k > st
                    &&& ok ==> !bad_port_prefix(s.subrange(st, k)) && value == digits_value(
                        s.subrange(st, k),
                    )
                    &&& !ok ==> bad_port_prefix(s.subrange(st, k))
                }),
        {
            let ghost k = it.index() as int;
            let ghost st: int = if skipped_plus { 1 } else { 0 };
            if at_start && c == '+' {
                at_start = false;
                skipped_plus = true;
                proof {
                    assert(s.subrange(1, 1) =~= Seq::<char>::empty());
                }
            } else {
                at_start = false;
                let ghost st2: int = if skipped_plus { 1 } else { 0 };
                proof {
                    assert(st2 == st);
                }
                let ghost next = s.subrange(st, k + 1);
                proof {
                    assert(next.drop_last() =~= s.subrange(st, k));
                    assert(next.last() == c);
                }
                if ok {
                    if '0' <= c && c <= '9' {
                        let digit: u32 = (c as u32) - 48;
                        let candidate: u32 = value * 10 + digit;
                        proof {
                            assert(digit_value(c) == digit);
                            assert(digits_value(next) == candidate);
                        }
                        if candidate > 65535 {
                            ok = false;
                        } else {
                            value = candidate;
                            proof {
                                assert forall|i: int| 0 <= i < next.len() implies #[trigger] is_digit(
                                    next[i],
                                ) by {
                                    if i < next.len() - 1 {
                                        assert(next[i] == s.subrange(st, k)[i]);
                                    }
                                }
                            }
                        }
                        seen_digit = true;
                    } else {
                        ok = false;
                        seen_digit = true;
                        proof {
                            assert(!is_digit(next[next.len() - 1]));
                        }
                    }
                } else {
                    seen_digit = true;
                    proof {
                        let d = s.subrange(st, s.len() as int);
                        assert(d.subrange(0, k - st) =~= s.subrange(st, k));
                        assert(d.subrange(0, k + 1 - st) =~= next);
                        lemma_bad_prefix_stays_bad(d.subrange(0, k + 1 - st), k - st);
                        assert(d.subrange(0, k + 1 - st).subrange(0, k - st) =~= s.subrange(st, k));
                    }
                }
            }
        }
        proof {
            let st: int = if skipped_plus { 1 } else { 0 };
            assert(s.subrange(st, s.len() as int) =~= port_digits(s));
        }
        if ok && seen_digit {
            Ok(value as u16)
        } else {
            Err(String::from_str("Invalid inputed port."))
        }
    }

    /// A configuration from a mode word, an address and a port number; the
    /// mode word is read as `parse_mode` reads it.
    pub fn from_mode_ip_port(mode: &str, ip: Ip, port: u16) -> (r: Result<ProgramConfig<Ip>, String>)
        ensures
            match r {
                Ok(c) => mode_of(mode@) == Some(c.mode) && c.ip == ip && c.port == port,
                Err(e) => mode_of(mode@) is None && e@ == invalid_mode_message(),
            },
    {
        let mode = Self::parse_mode(mode)?;
        Ok(Self::new(mode, ip, port))
    }

    /// A configuration from a mode word, the outcome of reading an address,
    /// and a port number. The mode is checked first, then the address.
    pub fn from_text_and_port(mode: &str, ip: Result<Ip, String>, port: u16) -> (r: Result<
        ProgramConfig<Ip>,
        String,
    >)
        ensures
            mode_of(mode@) is None ==> (r matches Err(e) && e@ == invalid_mode_message()),
            mode_of(mode@) is Some && ip is Err ==> r == Err::<ProgramConfig<Ip>, String>(
                ip->Err_0,
            ),
            mode_of(mode@) is Some && ip is Ok ==> (r matches Ok(c) && Some(c.mode) == mode_of(
                mode@,
            ) && c.ip == ip->Ok_0 && c.port == port),
    {
        let mode = Self::parse_mode(mode)?;
        let ip = ip?;
        Ok(Self::new(mode, ip, port))
    }

    /// A configuration from a mode word, the outcome of reading an address,
    /// and a port text. The mode is checked first, then the address, then the
    /// port.
    pub fn from_text(mode: &str, ip: Result<Ip, String>, port: &str) -> (r: Result<
        ProgramConfig<Ip>,
        String,
    >)
        ensures
            mode_of(mode@) is None ==> (r matches Err(e) && e@ == invalid_mode_message()),
            mode_of(mode@) is Some && ip is Err ==> r == Err::<ProgramConfig<Ip>, String>(
                ip->Err_0,
            ),
            mode_of(mode@) is Some && ip is Ok && port_of(port@) is None ==> (r matches Err(e)
                && e@ == invalid_port_message()),
            mode_of(mode@) is Some && ip is Ok && port_of(port@) is Some ==> (r matches Ok(c)
                && Some(c.mode) == mode_of(mode@) && c.ip == ip->Ok_0 && Some(c.port) == port_of(
                port@,
            )),
    {
        let mode = Self::parse_mode(mode)?;
        let ip = ip?;
        let port = Self::parse_port(port)?;
        Ok(Self::new(mode, ip, port))
    }
}

} // verus!

verus! {

/// A port written in decimal reads back as the same port.
pub proof fn lemma_port_decimal_roundtrip(port: u16)
    ensures
        port_of(crate::text::decimal(port as nat)) == Some(port),
{
    let t = crate::text::decimal(port as nat);
    crate::text::lemma_decimal_digits(port as nat);
    assert(is_digit(t[0]));
    assert(port_digits(t) == t);
}

} // verus!
