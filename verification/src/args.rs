//! Start-up configuration read from text: the simulator's command line and
//! the firmware's build-time radio frequency.

use vstd::prelude::*;

use crate::text::{all_digits, digits_value, chars_of, string_of, slice_chars, find_char_from,
    lemma_find_from_bounds, find_from};

verus! {

/// `str::parse` for an unsigned integer type whose largest value is `max`:
/// an optional `+` followed by at least one decimal digit, with a value not
/// above `max`.
pub open spec fn parse_unsigned_spec(s: Seq<char>, max: nat) -> Option<nat> {
    let d = if s.len() > 0 && s[0] == '+' {
        s.drop_first()
    } else {
        s
    };
    if d.len() == 0 || !all_digits(d) {
        None
    } else if digits_value(d) <= max {
        Some(digits_value(d))
    } else {
        None
    }
}

/// Extending a run of digits never lowers its value.
proof fn lemma_prefix_value(d: Seq<char>, k: int)
    requires
        0 <= k <= d.len(),
        all_digits(d),
    ensures
        digits_value(d.subrange(0, k)) <= digits_value(d),
{
    crate::text::lemma_digits_value_prefix(d, k);
}

/// Parses an unsigned decimal number not above `max` (see
/// [`parse_unsigned_spec`]).
pub fn parse_unsigned(s: &str, max: u64) -> (r: Option<u64>)
    ensures
        match r {
            Some(v) => parse_unsigned_spec(s@, max as nat) == Some(v as nat),
            None => parse_unsigned_spec(s@, max as nat) is None,
        },
{
    let v = chars_of(s);
    let start: usize = if v.len() > 0 && v[0] == '+' {
        1
    } else {
        0
    };
    let ghost d = v@.subrange(start as int, v@.len() as int);
    assert(d == if v@.len() > 0 && v@[0] == '+' {
        v@.drop_first()
    } else {
        v@
    });
    if start == v.len() {
        return None;
    }
    let mut value: u64 = 0;
    let mut i: usize = start;
    while i < v.len()
        invariant
            start <= i <= v.len(),
            v@ == s@,
            d == v@.subrange(start as int, v@.len() as int),
            d == if v@.len() > 0 && v@[0] == '+' {
                v@.drop_first()
            } else {
                v@
            },
            all_digits(v@.subrange(start as int, i as int)),
            value as nat == digits_value(v@.subrange(start as int, i as int)),
            value <= max,
        decreases v.len() - i,
    {
        let c = v[i];
        assert(v@.subrange(start as int, i + 1).drop_last() =~= v@.subrange(start as int, i as int));
        if !('0' <= c && c <= '9') {
            assert(d[i - start] == c);
            assert(!crate::text::is_digit(d[i - start]));
            return None;
        }
        let dig: u64 = ((c as u32) - 48) as u64;
        if dig > max || value > (max - dig) / 10 {
            proof {
                if dig <= max {
                    assert(value * 10 + dig > max) by (nonlinear_arith)
                        requires
                            value > (max - dig) / 10,
                            dig <= max,
                    ;
                }
                assert(v@.subrange(start as int, i + 1) =~= d.subrange(0, i + 1 - start));
                if all_digits(d) {
                    lemma_prefix_value(d, i + 1 - start);
                }
            }
            return None;
        }
        proof {
            assert(value * 10 + dig <= max) by (nonlinear_arith)
                requires
                    value <= (max - dig) / 10,
                    dig <= max,
            ;
        }
        value = value * 10 + dig;
        i += 1;
        assert(all_digits(v@.subrange(start as int, i as int)));
    }
    assert(v@.subrange(start as int, i as int) == d);
    Some(value)
}

/// A carrier frequency in Hz given at build time.
pub fn parse_freq_hz(s: &str) -> (r: Option<u64>)
    ensures
        match r {
            Some(v) => parse_unsigned_spec(s@, u64::MAX as nat) == Some(v as nat),
            None => parse_unsigned_spec(s@, u64::MAX as nat) is None,
        },
{
    parse_unsigned(s, u64::MAX)
}

/// The simulator's command-line options.
#[derive(Debug, Default, Clone)]
pub struct SimArgs {
    /// `--identity <path>`: identity key file.
    pub identity_path: Option<String>,
    /// `--name <name>`: display name announced to peers.
    pub name: Option<String>,
    /// `--udp-bind <addr:port>`: UDP bind address.
    pub udp_bind: Option<String>,
    /// `--udp-forward <addr:port>`: remote UDP node to peer with.
    pub udp_forward: Option<String>,
    /// `--tcp-peer <addr:port>`: Reticulum TCP server to connect to.
    pub tcp_peer: Option<String>,
    /// `--size <WxH>`: simulated framebuffer size.
    pub size: Option<(u32, u32)>,
    /// `--help` or `-h` was given: show the usage and stop.
    pub help: bool,
}

/// Abstract value of [`SimArgs`].
pub struct ArgsModel {
    pub identity_path: Option<Seq<char>>,
    pub name: Option<Seq<char>>,
    pub udp_bind: Option<Seq<char>>,
    pub udp_forward: Option<Seq<char>>,
    pub tcp_peer: Option<Seq<char>>,
    pub size: Option<(u32, u32)>,
    pub help: bool,
}

/// An optional string taken by its characters.
pub open spec fn opt_chars(o: Option<String>) -> Option<Seq<char>> {
    match o {
        Some(s) => Some(s@),
        None => None,
    }
}

impl View for SimArgs {
    type V = ArgsModel;

    open spec fn view(&self) -> ArgsModel {
        ArgsModel {
            identity_path: opt_chars(self.identity_path),
            name: opt_chars(self.name),
            udp_bind: opt_chars(self.udp_bind),
            udp_forward: opt_chars(self.udp_forward),
            tcp_peer: opt_chars(self.tcp_peer),
            size: self.size,
            help: self.help,
        }
    }
}

/// The argument after position `i`, if there is one.
pub open spec fn next_arg(args: Seq<Seq<char>>, i: int) -> Option<Seq<char>> {
    if i + 1 < args.len() {
        Some(args[i + 1])
    } else {
        None
    }
}

/// A `WxH` size: two `u32` numbers around the first `x`.
pub open spec fn size_spec(s: Seq<char>) -> Option<(u32, u32)> {
    let p = find_from(s, 0, 'x');
    if p < s.len() {
        match (
            parse_unsigned_spec(s.subrange(0, p), u32::MAX as nat),
            parse_unsigned_spec(s.subrange(p + 1, s.len() as int), u32::MAX as nat),
        ) {
            (Some(w), Some(h)) => Some((w as u32, h as u32)),
            _ => None,
        }
    } else {
        None
    }
}

/// The options read from `args[i..]` on top of `a`. Options that take a
/// value read the next argument (none when it is missing); `--size` keeps
/// the previous size unless its value is a valid `WxH`; `--help` stops
/// reading; other arguments are ignored.
pub open spec fn parse_from(args: Seq<Seq<char>>, i: nat, a: ArgsModel) -> ArgsModel
    decreases args.len() - i,
{
    if i >= args.len() {
        a
    } else {
        let arg = args[i as int];
        let nxt = next_arg(args, i as int);
        let step: nat = if nxt is Some {
            2
        } else {
            1
        };
        if arg == "--identity"@ {
            parse_from(args, i + step, ArgsModel { identity_path: nxt, ..a })
        } else if arg == "--name"@ {
            parse_from(args, i + step, ArgsModel { name: nxt, ..a })
        } else if arg == "--udp-bind"@ {
            parse_from(args, i + step, ArgsModel { udp_bind: nxt, ..a })
        } else if arg == "--udp-forward"@ {
            parse_from(args, i + step, ArgsModel { udp_forward: nxt, ..a })
        } else if arg == "--tcp-peer"@ {
            parse_from(args, i + step, ArgsModel { tcp_peer: nxt, ..a })
        } else if arg == "--size"@ {
            let size = match nxt {
                Some(s) => match size_spec(s) {
                    Some(wh) => Some(wh),
                    None => a.size,
                },
                None => a.size,
            };
            parse_from(args, i + step, ArgsModel { size, ..a })
        } else if arg == "--help"@ || arg == "-h"@ {
            ArgsModel { help: true, ..a }
        } else {
            parse_from(args, i + 1, a)
        }
    }
}

/// The options given by no argument at all.
pub open spec fn no_args() -> ArgsModel {
    ArgsModel {
        identity_path: None,
        name: None,
        udp_bind: None,
        udp_forward: None,
        tcp_peer: None,
        size: None,
        help: false,
    }
}

/// The strings of `v`, taken by their characters.
pub open spec fn args_view(v: Seq<String>) -> Seq<Seq<char>> {
    v.map_values(|s: String| s@)
}

/// Whether `a` spells exactly `lit`.
fn is_arg(a: &str, lit: &str) -> (r: bool)
    ensures
        r == (a@ == lit@),
{
    let x = chars_of(a);
    let y = chars_of(lit);
    if x.len() != y.len() {
        return false;
    }
    let mut i: usize = 0;
    while i < x.len()
        invariant
            i <= x@.len(),
            x@ == a@,
            y@ == lit@,
            x@.len() == y@.len(),
            forall|k: int| 0 <= k < i ==> x@[k] == y@[k],
        decreases x@.len() - i,
    {
        if x[i] != y[i] {
            assert(x@[i as int] != y@[i as int]);
            return false;
        }
        i += 1;
    }
    assert(x@ =~= y@);
    true
}

/// A `WxH` size (see [`size_spec`]).
pub fn parse_size(s: &str) -> (r: Option<(u32, u32)>)
    ensures
        r == size_spec(s@),
{
    let v = chars_of(s);
    let p = find_char_from(&v, 0, 'x');
    proof {
        lemma_find_from_bounds(v@, 0, 'x');
    }
    if p == v.len() {
        return None;
    }
    let w = string_of(&slice_chars(&v, 0, p));
    let h = string_of(&slice_chars(&v, p + 1, v.len()));
    match (parse_unsigned(w.as_str(), u32::MAX as u64), parse_unsigned(h.as_str(), u32::MAX as u64)) {
        (Some(a), Some(b)) => Some((a as u32, b as u32)),
        _ => None,
    }
}

/// Read the simulator's options from its arguments (without the program
/// name).
pub fn parse_args(args: &Vec<String>) -> (r: SimArgs)
    ensures
        r@ == parse_from(args_view(args@), 0, no_args()),
{
    let ghost av = args_view(args@);
    let mut a = SimArgs {
        identity_path: None,
        name: None,
        udp_bind: None,
        udp_forward: None,
        tcp_peer: None,
        size: None,
        help: false,
    };
    let mut i: usize = 0;
    while i < args.len()
        invariant
            i <= args@.len(),
            av == args_view(args@),
            parse_from(av, i as nat, a@) == parse_from(av, 0, no_args()),
        decreases args@.len() - i,
    {
        let arg = args[i].as_str();
        assert(arg@ == av[i as int]);
        let nxt: Option<String> = if i + 1 < args.len() {
            assert(args@[i + 1]@ == av[i + 1]);
            Some(args[i + 1].clone())
        } else {
            None
        };
        let step: usize = if nxt.is_some() {
            2
        } else {
            1
        };
        assert(opt_chars(nxt) == next_arg(av, i as int));
        if is_arg(arg, "--identity") {
            a.identity_path = nxt;
        } else if is_arg(arg, "--name") {
            a.name = nxt;
        } else if is_arg(arg, "--udp-bind") {
            a.udp_bind = nxt;
        } else if is_arg(arg, "--udp-forward") {
            a.udp_forward = nxt;
        } else if is_arg(arg, "--tcp-peer") {
            a.tcp_peer = nxt;
        } else if is_arg(arg, "--size") {
            if let Some(s) = nxt {
                if let Some(wh) = parse_size(s.as_str()) {
                    a.size = Some(wh);
                }
            }
        } else if is_arg(arg, "--help") || is_arg(arg, "-h") {
            a.help = true;
            return a;
        } else {
            i += 1;
            continue;
        }
        i += step;
    }
    a
}

} // verus!
