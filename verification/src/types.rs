//! Addresses and packets that the engine exchanges with its surroundings.

use vstd::prelude::*;
use vstd::string::StringExecFns;
use crate::text::hex_digit;

verus! {

/// Where traffic is headed: a domain name, an IPv4 or an IPv6 address, each
/// with a port.  Addresses are held as their octets in network order.
#[derive(Debug, PartialEq, Eq, Hash)]
pub enum TargetAddr {
    Domain(String, u16),
    IPv4([u8; 4], u16),
    IPv6([u8; 16], u16),
}

/// The mathematical value of a [`TargetAddr`].
pub enum TargetAddrView {
    Domain(Seq<char>, u16),
    IPv4(Seq<u8>, u16),
    IPv6(Seq<u8>, u16),
}

impl View for TargetAddr {
    type V = TargetAddrView;

    open spec fn view(&self) -> TargetAddrView {
        match *self {
            TargetAddr::Domain(name, port) => TargetAddrView::Domain(name@, port),
            TargetAddr::IPv4(ip, port) => TargetAddrView::IPv4(ip@, port),
            TargetAddr::IPv6(ip, port) => TargetAddrView::IPv6(ip@, port),
        }
    }
}

impl Clone for TargetAddr {
    fn clone(&self) -> (res: TargetAddr)
        ensures
            res@ == self@,
    {
        match self {
            TargetAddr::Domain(name, port) => TargetAddr::Domain(name.clone(), *port),
            TargetAddr::IPv4(ip, port) => TargetAddr::IPv4(*ip, *port),
            TargetAddr::IPv6(ip, port) => TargetAddr::IPv6(*ip, *port),
        }
    }
}

/// The port of a target.
pub open spec fn port_of(t: TargetAddrView) -> u16 {
    match t {
        TargetAddrView::Domain(_, port) => port,
        TargetAddrView::IPv4(_, port) => port,
        TargetAddrView::IPv6(_, port) => port,
    }
}

/// Whether traffic can be relayed to a target: port 0 can be written on
/// the wire and names no place to send to.
pub open spec fn relay_target(t: TargetAddrView) -> bool {
    port_of(t) != 0
}

impl TargetAddr {
    /// The port of the target, whatever its form.
    pub fn port(&self) -> (p: u16)
        ensures
            p == port_of(self@),
    {
        match self {
            TargetAddr::Domain(_, port) => *port,
            TargetAddr::IPv4(_, port) => *port,
            TargetAddr::IPv6(_, port) => *port,
        }
    }

    /// Whether traffic can be relayed to the target: whether its port is
    /// not 0.
    pub fn is_relay_target(&self) -> (ok: bool)
        ensures
            ok == relay_target(self@),
    {
        self.port() != 0
    }
}

/// The character of a decimal digit.
pub open spec fn digit_char(d: int) -> char {
    (0x30 + d) as char
}

/// A number in decimal, without leading zeros.
pub open spec fn decimal(n: nat) -> Seq<char>
    decreases n,
{
    if n < 10 {
        seq![digit_char(n as int)]
    } else {
        decimal(n / 10).push(digit_char((n % 10) as int))
    }
}

/// A number in lower-case hexadecimal, without leading zeros.
pub open spec fn hex_number(n: nat) -> Seq<char>
    decreases n,
{
    if n < 16 {
        seq![hex_digit(n as int)]
    } else {
        hex_number(n / 16).push(hex_digit((n % 16) as int))
    }
}

/// The four octets of an IPv4 address in decimal, with dots between them.
pub open spec fn dotted(ip: Seq<u8>) -> Seq<char> {
    decimal(ip[0] as nat) + seq!['.'] + decimal(ip[1] as nat) + seq!['.'] + decimal(ip[2] as nat)
        + seq!['.'] + decimal(ip[3] as nat)
}

/// The eight 16-bit groups of an IPv6 address.
pub open spec fn segments(ip: Seq<u8>) -> Seq<nat> {
    Seq::new(8, |i: int| (ip[2 * i] as nat) * 256 + ip[2 * i + 1] as nat)
}

/// Groups in hexadecimal, with colons between them.
pub open spec fn groups(segs: Seq<nat>) -> Seq<char>
    decreases segs.len(),
{
    if segs.len() == 0 {
        Seq::empty()
    } else if segs.len() == 1 {
        hex_number(segs[0])
    } else {
        groups(segs.drop_last()) + seq![':'] + hex_number(segs.last())
    }
}

/// Whether the `len` groups from `start` on are all zero.
pub open spec fn zero_run(segs: Seq<nat>, start: int, len: int) -> bool {
    &&& 0 <= start
    &&& 0 <= len
    &&& start + len <= segs.len()
    &&& forall|i: int| start <= i < start + len ==> #[trigger] segs[i] == 0
}

/// Whether the groups from `start` on are the longest run of zero groups,
/// and the first of that length.
pub open spec fn longest_zero_run(segs: Seq<nat>, start: int, len: int) -> bool {
    &&& zero_run(segs, start, len)
    &&& forall|s: int, l: int| #[trigger]
        zero_run(segs, s, l) ==> l < len || (l == len && (start <= s || len == 0))
}

/// Whether an IPv6 address stands for an IPv4 address: ten zero octets,
/// then two of 255.
pub open spec fn is_ipv4_mapped(ip: Seq<u8>) -> bool {
    &&& forall|i: int| 0 <= i < 10 ==> #[trigger] ip[i] == 0
    &&& ip[10] == 0xff
    &&& ip[11] == 0xff
}

/// An IPv6 address as text: an address that stands for an IPv4 address as
/// `::ffff:` and that address with dots; any other as its groups in
/// hexadecimal, with `::` in place of the longest run of two or more zero
/// groups, the first of them where several are as long.
pub open spec fn ipv6_text(ip: Seq<u8>) -> Seq<char> {
    if is_ipv4_mapped(ip) {
        seq![':', ':', 'f', 'f', 'f', 'f', ':'] + dotted(ip.subrange(12, 16))
    } else {
        let segs = segments(ip);
        let run = choose|run: (int, int)| longest_zero_run(segs, run.0, run.1);
        if run.1 >= 2 {
            groups(segs.take(run.0)) + seq![':', ':'] + groups(segs.skip(run.0 + run.1))
        } else {
            groups(segs)
        }
    }
}

/// A target as text: `host:port`, with the host of an IPv6 address in
/// square brackets.
pub open spec fn render_target(t: TargetAddrView) -> Seq<char> {
    match t {
        TargetAddrView::Domain(name, port) => name + seq![':'] + decimal(port as nat),
        TargetAddrView::IPv4(ip, port) => dotted(ip) + seq![':'] + decimal(port as nat),
        TargetAddrView::IPv6(ip, port) => seq!['['] + ipv6_text(ip) + seq![']', ':'] + decimal(
            port as nat,
        ),
    }
}

/// The text of one digit below 16.
fn digit_str(d: u16) -> (s: &'static str)
    requires
        d < 16,
    ensures
        s@ == seq![hex_digit(d as int)],
        d < 10 ==> s@ == seq![digit_char(d as int)],
{
    proof {
        reveal_strlit("0");
        reveal_strlit("1");
        reveal_strlit("2");
        reveal_strlit("3");
        reveal_strlit("4");
        reveal_strlit("5");
        reveal_strlit("6");
        reveal_strlit("7");
        reveal_strlit("8");
        reveal_strlit("9");
        reveal_strlit("a");
        reveal_strlit("b");
        reveal_strlit("c");
        reveal_strlit("d");
        reveal_strlit("e");
        reveal_strlit("f");
    }
    let s = if d == 0 {
        "0"
    } else if d == 1 {
        "1"
    } else if d == 2 {
        "2"
    } else if d == 3 {
        "3"
    } else if d == 4 {
        "4"
    } else if d == 5 {
        "5"
    } else if d == 6 {
        "6"
    } else if d == 7 {
        "7"
    } else if d == 8 {
        "8"
    } else if d == 9 {
        "9"
    } else if d == 10 {
        "a"
    } else if d == 11 {
        "b"
    } else if d == 12 {
        "c"
    } else if d == 13 {
        "d"
    } else if d == 14 {
        "e"
    } else {
        "f"
    };
    assert(s@ =~= seq![hex_digit(d as int)]);
    s
}

/// Appends a number in decimal.
fn push_decimal(out: &mut String, n: u16)
    ensures
        final(out)@ == old(out)@ + decimal(n as nat),
    decreases n,
{
    if n >= 10 {
        push_decimal(out, n / 10);
    }
    out.append(digit_str(n % 10));
    proof {
        if n >= 10 {
            assert(final(out)@ =~= old(out)@ + decimal(n as nat));
        } else {
            assert(final(out)@ =~= old(out)@ + decimal(n as nat));
        }
    }
}

/// Appends a number in hexadecimal.
fn push_hex(out: &mut String, n: u16)
    ensures
        final(out)@ == old(out)@ + hex_number(n as nat),
    decreases n,
{
    if n >= 16 {
        push_hex(out, n / 16);
    }
    out.append(digit_str(n % 16));
    proof {
        assert(final(out)@ =~= old(out)@ + hex_number(n as nat));
    }
}

/// Appends the octets of an IPv4 address with dots between them.
fn push_dotted(out: &mut String, a: u8, b: u8, c: u8, d: u8)
    ensures
        final(out)@ == old(out)@ + dotted(seq![a, b, c, d]),
{
    proof {
        reveal_strlit(".");
    }
    push_decimal(out, a as u16);
    out.append(".");
    push_decimal(out, b as u16);
    out.append(".");
    push_decimal(out, c as u16);
    out.append(".");
    push_decimal(out, d as u16);
    proof {
        assert("."@ =~= seq!['.']);
        assert(final(out)@ =~= old(out)@ + dotted(seq![a, b, c, d]));
    }
}

/// The value of the groups of an address held as numbers.
pub open spec fn group_values(segs: Seq<u16>) -> Seq<nat> {
    Seq::new(segs.len(), |i: int| segs[i] as nat)
}

/// Appends the groups `from..to` with colons between them.
fn push_groups(out: &mut String, segs: &[u16; 8], from: usize, to: usize)
    requires
        from <= to <= 8,
    ensures
        final(out)@ == old(out)@ + groups(group_values(segs@).subrange(from as int, to as int)),
{
    proof {
        reveal_strlit(":");
        assert(":"@ =~= seq![':']);
    }
    let ghost all = group_values(segs@);
    let mut i = from;
    assert(all.subrange(from as int, from as int) =~= Seq::<nat>::empty());
    while i < to
        invariant
            from <= i <= to <= 8,
            all == group_values(segs@),
            ":"@ == seq![':'],
            out@ == old(out)@ + groups(all.subrange(from as int, i as int)),
        decreases to - i,
    {
        let ghost before = all.subrange(from as int, i as int);
        let ghost after = all.subrange(from as int, i + 1);
        proof {
            assert(after.drop_last() =~= before);
            assert(after.last() == segs@[i as int] as nat);
        }
        if i > from {
            out.append(":");
        }
        push_hex(out, segs[i]);
        proof {
            if i > from {
                assert(out@ =~= old(out)@ + groups(after));
            } else {
                assert(before.len() == 0);
                assert(after.len() == 1);
                assert(out@ =~= old(out)@ + groups(after));
            }
        }
        i += 1;
    }
}

/// The longest run of zero groups, and the first of that length: where it
/// starts and how long it is.
fn find_zero_run(segs: &[u16; 8]) -> (run: (usize, usize))
    ensures
        longest_zero_run(group_values(segs@), run.0 as int, run.1 as int),
{
    let ghost all = group_values(segs@);
    let mut best_start: usize = 0;
    let mut best_len: usize = 0;
    let mut cur_start: usize = 0;
    let mut cur_len: usize = 0;
    let mut i: usize = 0;
    while i < 8
        invariant
            i <= 8,
            all == group_values(segs@),
            cur_start + cur_len == i,
            zero_run(all, cur_start as int, cur_len as int),
            cur_start > 0 ==> all[cur_start - 1] != 0,
            zero_run(all, best_start as int, best_len as int),
            best_start + best_len <= i,
            cur_len <= best_len,
            forall|s: int, l: int| #[trigger]
                zero_run(all, s, l) && s + l <= i ==> l < best_len || (l == best_len && (best_start
                    <= s || best_len == 0)),
        decreases 8 - i,
    {
        if segs[i] == 0 {
            cur_len += 1;
            if cur_len > best_len {
                best_start = cur_start;
                best_len = cur_len;
            }
            assert forall|s: int, l: int| #[trigger]
                zero_run(all, s, l) && s + l <= i + 1 implies l < best_len || (l == best_len && (
            best_start <= s || best_len == 0)) by {
                if s + l == i + 1 && l > 0 {
                    if s < cur_start {
                        assert(all[cur_start - 1] == 0);
                    }
                } else if l > 0 {
                    assert(zero_run(all, s, l) && s + l <= i);
                }
            }
        } else {
            assert forall|s: int, l: int| #[trigger]
                zero_run(all, s, l) && s + l <= i + 1 implies l < best_len || (l == best_len && (
            best_start <= s || best_len == 0)) by {
                if s + l == i + 1 && l > 0 {
                    assert(all[i as int] == 0);
                } else if l > 0 {
                    assert(zero_run(all, s, l) && s + l <= i);
                }
            }
            cur_start = i + 1;
            cur_len = 0;
        }
        i += 1;
    }
    (best_start, best_len)
}

/// Two longest first runs of zero groups are the same run, where they are
/// of two groups or more.
proof fn lemma_longest_zero_run_unique(segs: Seq<nat>, a: (int, int), b: (int, int))
    requires
        longest_zero_run(segs, a.0, a.1),
        longest_zero_run(segs, b.0, b.1),
    ensures
        a.1 == b.1,
        a.1 > 0 ==> a.0 == b.0,
{
    assert(zero_run(segs, a.0, a.1));
    assert(zero_run(segs, b.0, b.1));
}

impl TargetAddr {
    /// The target as text: `host:port`, with the host of an IPv6 address
    /// in square brackets.
    pub fn to_string(&self) -> (text: String)
        ensures
            text@ == render_target(self@),
    {
        proof {
            reveal_strlit(":");
            reveal_strlit("[");
            reveal_strlit("]:");
            reveal_strlit("::");
            reveal_strlit("::ffff:");
            assert(":"@ =~= seq![':']);
            assert("["@ =~= seq!['[']);
            assert("]:"@ =~= seq![']', ':']);
            assert("::"@ =~= seq![':', ':']);
            assert("::ffff:"@ =~= seq![':', ':', 'f', 'f', 'f', 'f', ':']);
        }
        match self {
            TargetAddr::Domain(name, port) => {
                let mut out = name.clone();
                out.append(":");
                push_decimal(&mut out, *port);
                out
            },
            TargetAddr::IPv4(ip, port) => {
                let mut out = String::new();
                push_dotted(&mut out, ip[0], ip[1], ip[2], ip[3]);
                assert(seq![ip[0], ip[1], ip[2], ip[3]] =~= ip@);
                out.append(":");
                push_decimal(&mut out, *port);
                assert(out@ =~= render_target(self@));
                out
            },
            TargetAddr::IPv6(ip, port) => {
                let mut out = String::new();
                out.append("[");
                let mapped = ip[0] == 0 && ip[1] == 0 && ip[2] == 0 && ip[3] == 0 && ip[4] == 0
                    && ip[5] == 0 && ip[6] == 0 && ip[7] == 0 && ip[8] == 0 && ip[9] == 0 && ip[10]
                    == 0xff && ip[11] == 0xff;
                if mapped {
                    out.append("::ffff:");
                    push_dotted(&mut out, ip[12], ip[13], ip[14], ip[15]);
                    assert(seq![ip[12], ip[13], ip[14], ip[15]] =~= ip@.subrange(12, 16));
                    assert(is_ipv4_mapped(ip@));
                } else {
                    assert(!is_ipv4_mapped(ip@)) by {
                        if is_ipv4_mapped(ip@) {
                            assert(ip@[0] == 0 && ip@[1] == 0 && ip@[2] == 0 && ip@[3] == 0
                                && ip@[4] == 0 && ip@[5] == 0 && ip@[6] == 0 && ip@[7] == 0
                                && ip@[8] == 0 && ip@[9] == 0);
                        }
                    }
                    let mut segs: [u16; 8] = [0; 8];
                    let mut i: usize = 0;
                    while i < 8
                        invariant
                            i <= 8,
                            forall|k: int|
                                0 <= k < i ==> segs@[k] as nat == (ip@[2 * k] as nat) * 256
                                    + ip@[2 * k + 1] as nat,
                        decreases 8 - i,
                    {
                        segs[i] = (ip[2 * i] as u16) * 256 + ip[2 * i + 1] as u16;
                        i += 1;
                    }
                    let ghost all = segments(ip@);
                    assert(group_values(segs@) =~= all);
                    let (start, len) = find_zero_run(&segs);
                    proof {
                        let run = choose|run: (int, int)| longest_zero_run(all, run.0, run.1);
                        assert(longest_zero_run(all, (start as int, len as int).0, (
                            start as int,
                            len as int,
                        ).1));
                        lemma_longest_zero_run_unique(all, run, (start as int, len as int));
                        assert(all.subrange(0, start as int) =~= all.take(start as int));
                        assert(all.subrange(start + len, 8) =~= all.skip(start + len));
                        assert(all.subrange(0, 8) =~= all);
                    }
                    if len >= 2 {
                        push_groups(&mut out, &segs, 0, start);
                        out.append("::");
                        push_groups(&mut out, &segs, start + len, 8);
                    } else {
                        push_groups(&mut out, &segs, 0, 8);
                    }
                }
                out.append("]:");
                push_decimal(&mut out, *port);
                assert(out@ =~= render_target(self@));
                out
            },
        }
    }
}

} // verus!
