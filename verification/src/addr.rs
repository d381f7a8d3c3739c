//! Remote addresses and the classifier that decides reportability.
//!
//! An address is held as plain integers so that the classifier and the
//! comment composition can be reasoned about directly. IPv4 private and
//! loopback addresses are not reportable; IPv6 addresses are always
//! reportable (the asymmetry is deliberate, preserved behaviour).

use vstd::prelude::*;
use vstd::string::StringExecFns;
use crate::textnum::{spec_dec_digits, spec_hex_digits, u16_hex_text, u64_text};

verus! {

/// A remote IP address, as plain integers: four octets for IPv4,
/// eight 16-bit segments for IPv6.
#[derive(Clone, Copy, PartialEq, Eq, Structural, Debug)]
pub enum IpAddress {
    V4 { a: u8, b: u8, c: u8, d: u8 },
    V6 { s0: u16, s1: u16, s2: u16, s3: u16, s4: u16, s5: u16, s6: u16, s7: u16 },
}

/// An IPv4 address in one of the private ranges 10.0.0.0/8,
/// 172.16.0.0/12 or 192.168.0.0/16.
pub open spec fn spec_private_v4(a: u8, b: u8) -> bool {
    a == 10 || (a == 172 && 16 <= b && b < 32) || (a == 192 && b == 168)
}

/// An IPv4 address in the loopback range 127.0.0.0/8.
pub open spec fn spec_loopback_v4(a: u8) -> bool {
    a == 127
}

/// Whether a remote address is eligible for reporting: IPv4 private and
/// loopback addresses are excluded, everything else (all of IPv6
/// included) is reportable.
pub open spec fn spec_reportable(ip: IpAddress) -> bool {
    match ip {
        IpAddress::V4 { a, b, c: _, d: _ } => !spec_private_v4(a, b) && !spec_loopback_v4(a),
        IpAddress::V6 { .. } => true,
    }
}

impl IpAddress {
    /// The address classifier: decides whether this address may be
    /// reported to any sink. Pure, no side effects, no errors.
    pub fn is_reportable(&self) -> (r: bool)
        ensures
            r == spec_reportable(*self),
    {
        match *self {
            IpAddress::V4 { a, b, c: _, d: _ } => {
                let private: bool = a == 10 || (a == 172 && 16 <= b && b < 32) || (a == 192 && b
                    == 168);
                let loopback: bool = a == 127;
                !private && !loopback
            },
            IpAddress::V6 { .. } => true,
        }
    }
}

/// The dotted-quad text of an IPv4 address.
pub open spec fn spec_v4_text(a: u8, b: u8, c: u8, d: u8) -> Seq<char> {
    spec_dec_digits(a as nat) + "."@ + spec_dec_digits(b as nat) + "."@ + spec_dec_digits(c as nat)
        + "."@ + spec_dec_digits(d as nat)
}

/// The length of the run of zero segments starting at position `i`.
pub open spec fn spec_zero_run(segs: Seq<u16>, i: int) -> nat
    decreases segs.len() - i,
    when 0 <= i
{
    if i >= segs.len() || segs[i] != 0 {
        0
    } else {
        1 + spec_zero_run(segs, i + 1)
    }
}

/// The leftmost longest run of zero segments at or after position `i`:
/// its start and its length (start is the sequence length when every
/// candidate run is empty).
pub open spec fn spec_best_zero_run(segs: Seq<u16>, i: int) -> (int, nat)
    decreases segs.len() - i,
    when 0 <= i
{
    if i >= segs.len() {
        (segs.len() as int, 0nat)
    } else {
        let rest = spec_best_zero_run(segs, i + 1);
        let cur = spec_zero_run(segs, i);
        if cur >= rest.1 {
            (i, cur)
        } else {
            rest
        }
    }
}

/// The given segments rendered as lowercase hexadecimal, joined by ':'.
pub open spec fn spec_segs_joined(segs: Seq<u16>) -> Seq<char>
    decreases segs.len(),
{
    if segs.len() == 0 {
        Seq::<char>::empty()
    } else if segs.len() == 1 {
        spec_hex_digits(segs[0] as nat)
    } else {
        spec_segs_joined(segs.drop_last()) + ":"@ + spec_hex_digits(segs.last() as nat)
    }
}

/// The canonical text of an IPv6 address given as eight segments: "::"
/// for the unspecified address, "::1" for loopback, the embedded
/// dotted-quad form for an IPv4-mapped address, and otherwise the
/// segments joined by ':' with the leftmost longest run of two or more
/// zero segments compressed to "::".
pub open spec fn spec_v6_text(segs: Seq<u16>) -> Seq<char>
    recommends
        segs.len() == 8,
{
    if segs[0] == 0 && segs[1] == 0 && segs[2] == 0 && segs[3] == 0 && segs[4] == 0 && segs[5] == 0
        && segs[6] == 0 && segs[7] == 0 {
        "::"@
    } else if segs[0] == 0 && segs[1] == 0 && segs[2] == 0 && segs[3] == 0 && segs[4] == 0
        && segs[5] == 0 && segs[6] == 0 && segs[7] == 1 {
        "::1"@
    } else if segs[0] == 0 && segs[1] == 0 && segs[2] == 0 && segs[3] == 0 && segs[4] == 0
        && segs[5] == 0xffff {
        "::ffff:"@ + spec_v4_text(
            (segs[6] / 256) as u8,
            (segs[6] % 256) as u8,
            (segs[7] / 256) as u8,
            (segs[7] % 256) as u8,
        )
    } else {
        let best = spec_best_zero_run(segs, 0);
        if best.1 > 1 {
            spec_segs_joined(segs.subrange(0, best.0)) + "::"@ + spec_segs_joined(
                segs.subrange(best.0 + best.1, segs.len() as int),
            )
        } else {
            spec_segs_joined(segs)
        }
    }
}

/// The text of an address: dotted quad for IPv4, canonical compressed
/// form for IPv6.
pub open spec fn spec_ip_text(ip: IpAddress) -> Seq<char> {
    match ip {
        IpAddress::V4 { a, b, c, d } => spec_v4_text(a, b, c, d),
        IpAddress::V6 { s0, s1, s2, s3, s4, s5, s6, s7 } => spec_v6_text(
            seq![s0, s1, s2, s3, s4, s5, s6, s7],
        ),
    }
}

fn v4_text(a: u8, b: u8, c: u8, d: u8) -> (r: String)
    ensures
        r@ == spec_v4_text(a, b, c, d),
{
    let mut s = u64_text(a as u64);
    s.append(".");
    let sb = u64_text(b as u64);
    s.append(sb.as_str());
    s.append(".");
    let sc = u64_text(c as u64);
    s.append(sc.as_str());
    s.append(".");
    let sd = u64_text(d as u64);
    s.append(sd.as_str());
    s
}

fn zero_run_at(v: &Vec<u16>, i: usize) -> (l: usize)
    requires
        i <= v@.len(),
    ensures
        l as nat == spec_zero_run(v@, i as int),
        l <= v@.len() - i,
    decreases v@.len() - i,
{
    if i == v.len() {
        0
    } else if v[i] != 0 {
        0
    } else {
        1 + zero_run_at(v, i + 1)
    }
}

fn best_zero_run_from(v: &Vec<u16>, i: usize) -> (r: (usize, usize))
    requires
        i <= v@.len(),
    ensures
        (r.0 as int, r.1 as nat) == spec_best_zero_run(v@, i as int),
        i <= r.0 <= v@.len(),
        r.1 <= v@.len() - r.0,
    decreases v@.len() - i,
{
    if i == v.len() {
        (v.len(), 0)
    } else {
        let rest = best_zero_run_from(v, i + 1);
        let cur = zero_run_at(v, i);
        if cur >= rest.1 {
            (i, cur)
        } else {
            rest
        }
    }
}

fn segs_joined(v: &Vec<u16>, from: usize, to: usize) -> (r: String)
    requires
        from <= to <= v@.len(),
    ensures
        r@ == spec_segs_joined(v@.subrange(from as int, to as int)),
    decreases to - from,
{
    if from == to {
        proof {
            assert(v@.subrange(from as int, to as int) =~= Seq::<u16>::empty());
        }
        String::new()
    } else {
        let mut s = segs_joined(v, from, to - 1);
        if to - 1 > from {
            s.append(":");
        }
        let hx = u16_hex_text(v[to - 1]);
        s.append(hx.as_str());
        proof {
            let sub = v@.subrange(from as int, to as int);
            assert(sub.drop_last() =~= v@.subrange(from as int, to - 1));
            assert(sub.last() == v@[to - 1]);
        }
        s
    }
}

fn v6_text(v: &Vec<u16>) -> (r: String)
    requires
        v@.len() == 8,
    ensures
        r@ == spec_v6_text(v@),
{
    let all_zero = v[0] == 0 && v[1] == 0 && v[2] == 0 && v[3] == 0 && v[4] == 0 && v[5] == 0 && v[6]
        == 0 && v[7] == 0;
    if all_zero {
        return "::".to_owned();
    }
    let first_six_zero = v[0] == 0 && v[1] == 0 && v[2] == 0 && v[3] == 0 && v[4] == 0 && v[5] == 0;
    if first_six_zero && v[6] == 0 && v[7] == 1 {
        return "::1".to_owned();
    }
    if v[0] == 0 && v[1] == 0 && v[2] == 0 && v[3] == 0 && v[4] == 0 && v[5] == 0xffff {
        let mut s = "::ffff:".to_owned();
        let quad = v4_text(
            (v[6] / 256) as u8,
            (v[6] % 256) as u8,
            (v[7] / 256) as u8,
            (v[7] % 256) as u8,
        );
        s.append(quad.as_str());
        return s;
    }
    let best = best_zero_run_from(v, 0);
    if best.1 > 1 {
        let mut s = segs_joined(v, 0, best.0);
        s.append("::");
        let tail = segs_joined(v, best.0 + best.1, 8);
        s.append(tail.as_str());
        proof {
            assert(v@.subrange(0, v@.len() as int) =~= v@);
        }
        s
    } else {
        let s = segs_joined(v, 0, 8);
        proof {
            assert(v@.subrange(0, 8) =~= v@);
        }
        s
    }
}

impl IpAddress {
    /// Renders the address as text: dotted quad for IPv4, the canonical
    /// compressed form for IPv6.
    pub fn text(&self) -> (r: String)
        ensures
            r@ == spec_ip_text(*self),
    {
        match *self {
            IpAddress::V4 { a, b, c, d } => v4_text(a, b, c, d),
            IpAddress::V6 { s0, s1, s2, s3, s4, s5, s6, s7 } => {
                let mut v: Vec<u16> = Vec::new();
                v.push(s0);
                v.push(s1);
                v.push(s2);
                v.push(s3);
                v.push(s4);
                v.push(s5);
                v.push(s6);
                v.push(s7);
                proof {
                    assert(v@ =~= seq![s0, s1, s2, s3, s4, s5, s6, s7]);
                }
                v6_text(&v)
            },
        }
    }
}

} // verus!
