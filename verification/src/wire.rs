//! The outbound wire framing of commands: a tag-and-payload JSON object
//! in bytes, with the fixed-point payload as a plain decimal integer.
//! The decoder is strict: it accepts exactly the canonical encodings, so
//! a round trip reproduces the command bit for bit.

use vstd::prelude::*;
use vstd::arithmetic::div_mod::lemma_fundamental_div_mod;
use crate::models::GameCommand;

verus! {

/// Largest payload magnitude the wire carries.
pub const MAX_WIRE_NUM: i64 = 1_000_000_000;

/// The decimal digits of `n`, most significant first.
pub open spec fn dec_digits(n: nat) -> Seq<u8>
    decreases n,
{
    if n < 10 {
        seq![(48 + n) as u8]
    } else {
        dec_digits(n / 10).push((48 + n % 10) as u8)
    }
}

/// The value of a digit string (digits assumed in `'0'..='9'`).
pub open spec fn digits_val(s: Seq<u8>) -> nat
    decreases s.len(),
{
    if s.len() == 0 {
        0
    } else {
        digits_val(s.drop_last()) * 10 + (if 48 <= s.last() <= 57 {
            (s.last() - 48) as nat
        } else {
            0
        })
    }
}

pub open spec fn all_digits(s: Seq<u8>) -> bool {
    forall|i: int| 0 <= i < s.len() ==> 48 <= #[trigger] s[i] <= 57
}

/// The canonical byte form of a signed payload.
pub open spec fn num_bytes(v: int) -> Seq<u8> {
    if v < 0 {
        seq![45u8] + dec_digits((-v) as nat)
    } else {
        dec_digits(v as nat)
    }
}

/// A digit string is a canonical unsigned payload: non-empty, digits
/// only, no leading zero, within the wire bound.
pub open spec fn parse_u(s: Seq<u8>) -> Option<int> {
    if s.len() == 0 {
        None
    } else if !all_digits(s) {
        None
    } else if s.len() > 1 && s[0] == 48 {
        None
    } else if digits_val(s) > MAX_WIRE_NUM {
        None
    } else {
        Some(digits_val(s) as int)
    }
}

/// A canonical signed payload: an optional minus sign on a non-zero
/// canonical unsigned payload.
pub open spec fn parse_num(s: Seq<u8>) -> Option<int> {
    if s.len() == 0 {
        None
    } else if s[0] == 45 {
        match parse_u(s.subrange(1, s.len() as int)) {
            Option::Some(n) => if n > 0 {
                Some(-n)
            } else {
                None
            },
            Option::None => None,
        }
    } else {
        parse_u(s)
    }
}

/// `{"e":"fire"}`
pub open spec fn fire_bytes() -> Seq<u8> {
    seq![123u8, 34, 101, 34, 58, 34, 102, 105, 114, 101, 34, 125]
}

/// `{"e":"rotate","data":`
pub open spec fn rot_prefix() -> Seq<u8> {
    seq![123u8, 34, 101, 34, 58, 34, 114, 111, 116, 97, 116, 101, 34, 44, 34, 100, 97, 116, 97,
        34, 58]
}

/// `{"e":"throttle","data":`
pub open spec fn thr_prefix() -> Seq<u8> {
    seq![123u8, 34, 101, 34, 58, 34, 116, 104, 114, 111, 116, 116, 108, 101, 34, 44, 34, 100, 97,
        116, 97, 34, 58]
}

/// The payload body of `s` if it is `p`, then at least one byte, then a
/// closing brace.
pub open spec fn body_of(s: Seq<u8>, p: Seq<u8>) -> Option<Seq<u8>> {
    if s.len() >= p.len() + 2 && s.subrange(0, p.len() as int) == p && s.last() == 125 {
        Some(s.subrange(p.len() as int, s.len() - 1))
    } else {
        None
    }
}

/// A command within the wire's payload bound.
pub open spec fn wire_ok(c: GameCommand) -> bool {
    match c {
        GameCommand::Rotate(v) => -MAX_WIRE_NUM <= v <= MAX_WIRE_NUM,
        GameCommand::Throttle(v) => -MAX_WIRE_NUM <= v <= MAX_WIRE_NUM,
        GameCommand::Fire => true,
    }
}

/// The canonical encoding of a command.
pub open spec fn spec_encode(c: GameCommand) -> Seq<u8> {
    match c {
        GameCommand::Rotate(v) => rot_prefix() + num_bytes(v as int) + seq![125u8],
        GameCommand::Throttle(v) => thr_prefix() + num_bytes(v as int) + seq![125u8],
        GameCommand::Fire => fire_bytes(),
    }
}

/// The strict decoder: exactly the canonical encodings are accepted.
pub open spec fn spec_decode(s: Seq<u8>) -> Option<GameCommand> {
    if s == fire_bytes() {
        Some(GameCommand::Fire)
    } else {
        match body_of(s, rot_prefix()) {
            Option::Some(b) => match parse_num(b) {
                Option::Some(v) => Some(GameCommand::Rotate(v as i64)),
                Option::None => None,
            },
            Option::None => match body_of(s, thr_prefix()) {
                Option::Some(b) => match parse_num(b) {
                    Option::Some(v) => Some(GameCommand::Throttle(v as i64)),
                    Option::None => None,
                },
                Option::None => None,
            },
        }
    }
}

/// Facts about the canonical digits of `n`: digits only, at least one,
/// a zero leading digit only for zero itself, and the value reads back.
proof fn lemma_dec_digits(n: nat)
    ensures
        all_digits(dec_digits(n)),
        dec_digits(n).len() >= 1,
        dec_digits(n)[0] == 48 ==> n == 0,
        digits_val(dec_digits(n)) == n,
    decreases n,
{
    if n < 10 {
        let s = seq![(48 + n) as u8];
        assert(s.drop_last() =~= Seq::<u8>::empty());
        assert(digits_val(Seq::<u8>::empty()) == 0);
        assert(digits_val(s) == 0 * 10 + n);
    } else {
        lemma_dec_digits(n / 10);
        let pre = dec_digits(n / 10);
        let d = (48 + n % 10) as u8;
        lemma_fundamental_div_mod(n as int, 10);
        assert(dec_digits(n) == pre.push(d));
        assert(dec_digits(n).drop_last() =~= pre);
        assert(dec_digits(n)[0] == pre[0]);
        assert(n / 10 >= 1);
        assert(digits_val(dec_digits(n)) == (n / 10) * 10 + n % 10);
    }
}

/// A longer digit string never reads back smaller.
proof fn lemma_digits_val_mono(s: Seq<u8>, i: int, j: int)
    requires
        0 <= i <= j <= s.len(),
    ensures
        digits_val(s.subrange(0, i)) <= digits_val(s.subrange(0, j)),
    decreases j - i,
{
    if i < j {
        lemma_digits_val_mono(s, i, j - 1);
        assert(s.subrange(0, j).drop_last() =~= s.subrange(0, j - 1));
        assert(digits_val(s.subrange(0, j)) >= digits_val(s.subrange(0, j - 1)) * 10);
    }
}

/// A canonical payload reads back as itself.
proof fn lemma_parse_num_bytes(v: int)
    requires
        -MAX_WIRE_NUM <= v <= MAX_WIRE_NUM,
    ensures
        parse_num(num_bytes(v)) == Some(v),
{
    if v < 0 {
        lemma_dec_digits((-v) as nat);
        let s = num_bytes(v);
        let t = dec_digits((-v) as nat);
        assert(s[0] == 45);
        assert(s.subrange(1, s.len() as int) =~= t);
        assert(parse_u(t) == Some(-v));
    } else {
        lemma_dec_digits(v as nat);
        let s = num_bytes(v);
        assert(s[0] != 45);
        if s.len() > 1 {
            assert(s[0] != 48);
        }
    }
}

/// The round-trip law: decoding a canonical encoding reproduces the
/// command, tag and payload alike, for each of the three variants.
pub proof fn lemma_command_round_trip(c: GameCommand)
    requires
        wire_ok(c),
    ensures
        spec_decode(spec_encode(c)) == Some(c),
{
    match c {
        GameCommand::Fire => {
        },
        GameCommand::Rotate(v) => {
            let nb = num_bytes(v as int);
            let s = rot_prefix() + nb + seq![125u8];
            lemma_dec_digits(if v < 0 {
                (-v) as nat
            } else {
                v as nat
            });
            assert(nb.len() >= 1);
            assert(s.len() >= rot_prefix().len() + 2);
            assert(s != fire_bytes()) by {
                assert(s.len() > fire_bytes().len());
            }
            assert(s.subrange(0, rot_prefix().len() as int) =~= rot_prefix());
            assert(s.last() == 125);
            assert(s.subrange(rot_prefix().len() as int, s.len() - 1) =~= nb);
            lemma_parse_num_bytes(v as int);
        },
        GameCommand::Throttle(v) => {
            let nb = num_bytes(v as int);
            let s = thr_prefix() + nb + seq![125u8];
            lemma_dec_digits(if v < 0 {
                (-v) as nat
            } else {
                v as nat
            });
            assert(nb.len() >= 1);
            assert(s.len() >= thr_prefix().len() + 2);
            assert(s != fire_bytes()) by {
                assert(s.len() > fire_bytes().len());
            }
            assert(body_of(s, rot_prefix()) is None) by {
                if s.len() >= rot_prefix().len() + 2 && s.subrange(0, rot_prefix().len() as int)
                    == rot_prefix() && s.last() == 125 {
                    assert(s.subrange(0, rot_prefix().len() as int)[6] == s[6]);
                    assert(s[6] == thr_prefix()[6]);
                    assert(rot_prefix()[6] == 114 && thr_prefix()[6] == 116);
                }
            }
            assert(s.subrange(0, thr_prefix().len() as int) =~= thr_prefix());
            assert(s.last() == 125);
            assert(s.subrange(thr_prefix().len() as int, s.len() - 1) =~= nb);
            lemma_parse_num_bytes(v as int);
        },
    }
}

/// Appends the decimal digits of `n`.
fn push_digits(n: u64, out: &mut Vec<u8>)
    ensures
        final(out)@ == old(out)@ + dec_digits(n as nat),
    decreases n,
{
    if n < 10 {
        out.push((48 + n) as u8);
        proof {
            assert(out@ =~= old(out)@ + dec_digits(n as nat));
        }
    } else {
        push_digits(n / 10, out);
        out.push((48 + (n % 10)) as u8);
        proof {
            assert(out@ =~= old(out)@ + dec_digits(n as nat));
        }
    }
}

/// Appends the canonical byte form of `v`.
fn push_num(v: i64, out: &mut Vec<u8>)
    requires
        -MAX_WIRE_NUM <= v <= MAX_WIRE_NUM,
    ensures
        final(out)@ == old(out)@ + num_bytes(v as int),
{
    if v < 0 {
        out.push(45);
        push_digits((-v) as u64, out);
        proof {
            assert(out@ =~= old(out)@ + num_bytes(v as int));
        }
    } else {
        push_digits(v as u64, out);
    }
}

/// Encodes a command into its canonical wire bytes.
pub fn encode_command(c: &GameCommand) -> (r: Vec<u8>)
    requires
        wire_ok(*c),
    ensures
        r@ == spec_encode(*c),
{
    let mut out: Vec<u8> = Vec::new();
    match c {
        GameCommand::Fire => {
            out.push(123);
            out.push(34);
            out.push(101);
            out.push(34);
            out.push(58);
            out.push(34);
            out.push(102);
            out.push(105);
            out.push(114);
            out.push(101);
            out.push(34);
            out.push(125);
            proof {
                assert(out@ =~= fire_bytes());
            }
        },
        GameCommand::Rotate(v) => {
            out.push(123);
            out.push(34);
            out.push(101);
            out.push(34);
            out.push(58);
            out.push(34);
            out.push(114);
            out.push(111);
            out.push(116);
            out.push(97);
            out.push(116);
            out.push(101);
            out.push(34);
            out.push(44);
            out.push(34);
            out.push(100);
            out.push(97);
            out.push(116);
            out.push(97);
            out.push(34);
            out.push(58);
            proof {
                assert(out@ =~= rot_prefix());
            }
            push_num(*v, &mut out);
            out.push(125);
            proof {
                assert(out@ =~= rot_prefix() + num_bytes(*v as int) + seq![125u8]);
            }
        },
        GameCommand::Throttle(v) => {
            out.push(123);
            out.push(34);
            out.push(101);
            out.push(34);
            out.push(58);
            out.push(34);
            out.push(116);
            out.push(104);
            out.push(114);
            out.push(111);
            out.push(116);
            out.push(116);
            out.push(108);
            out.push(101);
            out.push(34);
            out.push(44);
            out.push(34);
            out.push(100);
            out.push(97);
            out.push(116);
            out.push(97);
            out.push(34);
            out.push(58);
            proof {
                assert(out@ =~= thr_prefix());
            }
            push_num(*v, &mut out);
            out.push(125);
            proof {
                assert(out@ =~= thr_prefix() + num_bytes(*v as int) + seq![125u8]);
            }
        },
    }
    out
}

/// Reads the canonical signed payload in `s[from..to]`, if it is one.
fn parse_num_exec(s: &Vec<u8>, from: usize, to: usize) -> (r: Option<i64>)
    requires
        from <= to <= s@.len(),
    ensures
        match r {
            Option::None => parse_num(s@.subrange(from as int, to as int)) is None,
            Option::Some(v) => parse_num(s@.subrange(from as int, to as int)) == Some(v as int),
        },
{
    let ghost body = s@.subrange(from as int, to as int);
    if from == to {
        return None;
    }
    let neg = s[from] == 45;
    let start = if neg {
        from + 1
    } else {
        from
    };
    let ghost digs = s@.subrange(start as int, to as int);
    proof {
        if neg {
            assert(digs =~= body.subrange(1, body.len() as int));
        } else {
            assert(digs =~= body);
        }
    }
    if start == to {
        return None;
    }
    if to - start > 1 && s[start] == 48 {
        return None;
    }
    let mut i = start;
    let mut acc: i64 = 0;
    while i < to
        invariant
            from <= start <= i <= to <= s@.len(),
            from < to,
            body == s@.subrange(from as int, to as int),
            digs == s@.subrange(start as int, to as int),
            neg ==> s@[from as int] == 45 && start == from + 1 && digs =~= body.subrange(
                1,
                body.len() as int,
            ),
            !neg ==> s@[from as int] != 45 && start == from && digs == body,
            start < to,
            digs.len() > 1 ==> digs[0] != 48,
            acc == digits_val(s@.subrange(start as int, i as int)),
            all_digits(s@.subrange(start as int, i as int)),
            0 <= acc <= MAX_WIRE_NUM,
        decreases to - i,
    {
        let b = s[i];
        if b < 48 || b > 57 {
            proof {
                assert(digs[i - start] == s@[i as int]);
                assert(!all_digits(digs));
            }
            return None;
        }
        proof {
            assert(s@.subrange(start as int, i + 1).drop_last() =~= s@.subrange(
                start as int,
                i as int,
            ));
            assert(s@.subrange(start as int, i + 1).last() == s@[i as int]);
        }
        acc = acc * 10 + ((b - 48) as i64);
        i = i + 1;
        if acc > MAX_WIRE_NUM {
            proof {
                lemma_digits_val_mono(
                    s@.subrange(start as int, to as int),
                    i - start,
                    to - start,
                );
                assert(s@.subrange(start as int, to as int).subrange(0, i - start) =~= s@.subrange(
                    start as int,
                    i as int,
                ));
                assert(s@.subrange(start as int, to as int).subrange(0, to - start) =~= s@.subrange(
                    start as int,
                    to as int,
                ));
                assert(digits_val(digs) > MAX_WIRE_NUM);
            }
            return None;
        }
    }
    proof {
        assert(s@.subrange(start as int, i as int) =~= digs);
    }
    if neg {
        if acc == 0 {
            return None;
        }
        Some(-acc)
    } else {
        Some(acc)
    }
}

/// Decodes canonical wire bytes back into a command; `None` on anything
/// that is not exactly a canonical encoding.
pub fn decode_command(s: &Vec<u8>) -> (r: Option<GameCommand>)
    ensures
        r == spec_decode(s@),
{
    if is_exact(s, &fire_vec()) {
        proof {
            assert(s@ == fire_bytes());
        }
        return Some(GameCommand::Fire);
    }
    proof {
        assert(s@ != fire_bytes());
    }
    let rp = rot_vec();
    if s.len() >= rp.len() + 2 && has_prefix(s, &rp) && s[s.len() - 1] == 125 {
        proof {
            assert(s@.last() == 125);
            assert(body_of(s@, rot_prefix()) == Some(s@.subrange(
                rot_prefix().len() as int,
                s@.len() - 1,
            )));
        }
        let body = parse_num_exec(s, rp.len(), s.len() - 1);
        return match body {
            Option::Some(v) => Some(GameCommand::Rotate(v)),
            Option::None => None,
        };
    }
    proof {
        assert(body_of(s@, rot_prefix()) is None);
    }
    let tp = thr_vec();
    if s.len() >= tp.len() + 2 && has_prefix(s, &tp) && s[s.len() - 1] == 125 {
        proof {
            assert(s@.last() == 125);
            assert(body_of(s@, thr_prefix()) == Some(s@.subrange(
                thr_prefix().len() as int,
                s@.len() - 1,
            )));
        }
        let body = parse_num_exec(s, tp.len(), s.len() - 1);
        return match body {
            Option::Some(v) => Some(GameCommand::Throttle(v)),
            Option::None => None,
        };
    }
    proof {
        assert(body_of(s@, thr_prefix()) is None);
    }
    None
}

/// The fire frame as bytes.
fn fire_vec() -> (r: Vec<u8>)
    ensures
        r@ == fire_bytes(),
{
    let c = GameCommand::Fire;
    encode_command(&c)
}

/// The rotate prefix as bytes.
fn rot_vec() -> (r: Vec<u8>)
    ensures
        r@ == rot_prefix(),
{
    let mut out: Vec<u8> = Vec::new();
    out.push(123);
    out.push(34);
    out.push(101);
    out.push(34);
    out.push(58);
    out.push(34);
    out.push(114);
    out.push(111);
    out.push(116);
    out.push(97);
    out.push(116);
    out.push(101);
    out.push(34);
    out.push(44);
    out.push(34);
    out.push(100);
    out.push(97);
    out.push(116);
    out.push(97);
    out.push(34);
    out.push(58);
    proof {
        assert(out@ =~= rot_prefix());
    }
    out
}

/// The throttle prefix as bytes.
fn thr_vec() -> (r: Vec<u8>)
    ensures
        r@ == thr_prefix(),
{
    let mut out: Vec<u8> = Vec::new();
    out.push(123);
    out.push(34);
    out.push(101);
    out.push(34);
    out.push(58);
    out.push(34);
    out.push(116);
    out.push(104);
    out.push(114);
    out.push(111);
    out.push(116);
    out.push(116);
    out.push(108);
    out.push(101);
    out.push(34);
    out.push(44);
    out.push(34);
    out.push(100);
    out.push(97);
    out.push(116);
    out.push(97);
    out.push(34);
    out.push(58);
    proof {
        assert(out@ =~= thr_prefix());
    }
    out
}

/// Whether `s` equals `t` byte for byte.
fn is_exact(s: &Vec<u8>, t: &Vec<u8>) -> (r: bool)
    ensures
        r == (s@ == t@),
{
    if s.len() != t.len() {
        return false;
    }
    let mut i: usize = 0;
    while i < s.len()
        invariant
            0 <= i <= s@.len(),
            s@.len() == t@.len(),
            forall|j: int| 0 <= j < i ==> s@[j] == t@[j],
        decreases s@.len() - i,
    {
        if s[i] != t[i] {
            return false;
        }
        i = i + 1;
    }
    proof {
        assert(s@ =~= t@);
    }
    true
}

/// Whether `t` is a prefix of `s`.
fn has_prefix(s: &Vec<u8>, t: &Vec<u8>) -> (r: bool)
    requires
        t@.len() <= s@.len(),
    ensures
        r == (s@.subrange(0, t@.len() as int) == t@),
{
    let mut i: usize = 0;
    while i < t.len()
        invariant
            0 <= i <= t@.len() <= s@.len(),
            forall|j: int| 0 <= j < i ==> s@[j] == t@[j],
        decreases t@.len() - i,
    {
        if s[i] != t[i] {
            proof {
                assert(s@.subrange(0, t@.len() as int)[i as int] != t@[i as int]);
            }
            return false;
        }
        i = i + 1;
    }
    proof {
        assert(s@.subrange(0, t@.len() as int) =~= t@);
    }
    true
}

} // verus!
