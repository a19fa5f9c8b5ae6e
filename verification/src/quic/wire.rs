use vstd::prelude::*;
use crate::bytes::push_all;

verus! {

/// 128 to the power `n`.
pub open spec fn pow128(n: nat) -> nat
    decreases n,
{
    if n == 0 {
        1
    } else {
        128 * pow128((n - 1) as nat)
    }
}

/// The protobuf varint at the start of `s`, read from at most `budget` bytes: its value and
/// its length in bytes. Each byte gives seven bits, least significant group first; a byte
/// below 128 ends the varint.
pub open spec fn varint_prefix(s: Seq<u8>, budget: nat) -> Option<(nat, nat)>
    decreases budget,
{
    if budget == 0 || s.len() == 0 {
        None
    } else if s[0] < 128 {
        Some((s[0] as nat, 1))
    } else {
        match varint_prefix(s.drop_first(), (budget - 1) as nat) {
            Some((v, n)) => Some((((s[0] - 128) + 128 * v) as nat, n + 1)),
            None => None,
        }
    }
}

/// A varint as protobuf reads it: at most ten bytes and a value that fits in 64 bits.
pub open spec fn parse_varint(s: Seq<u8>) -> Option<(u64, nat)> {
    match varint_prefix(s, 10) {
        Some((v, n)) => if v <= u64::MAX {
            Some((v as u64, n))
        } else {
            None
        },
        None => None,
    }
}

/// The shortest varint encoding of `v`.
pub open spec fn varint_bytes(v: nat) -> Seq<u8>
    decreases v,
{
    if v < 128 {
        seq![v as u8]
    } else {
        seq![(v % 128 + 128) as u8] + varint_bytes(v / 128)
    }
}

proof fn lemma_pow128_le(i: nat, j: nat)
    requires
        i <= j,
    ensures
        pow128(i) <= pow128(j),
    decreases j,
{
    if i < j {
        lemma_pow128_le(i, (j - 1) as nat);
    }
}

proof fn lemma_pow128_values()
    ensures
        pow128(9) == 0x8000_0000_0000_0000,
        pow128(10) == 0x40_0000_0000_0000_0000,
{
    reveal_with_fuel(pow128, 11);
}

/// The encoding of a value below `128^budget` reads back within `budget` bytes, whatever
/// follows it.
pub proof fn lemma_varint_round_trip(v: nat, rest: Seq<u8>, budget: nat)
    requires
        budget >= 1,
        v < pow128(budget),
    ensures
        1 <= varint_bytes(v).len() <= budget,
        varint_prefix(varint_bytes(v) + rest, budget) == Some((v, varint_bytes(v).len())),
    decreases v,
{
    let s = varint_bytes(v) + rest;
    if v < 128 {
        assert(varint_bytes(v) == seq![v as u8]);
        assert(s[0] == v as u8);
    } else {
        assert(varint_bytes(v) == seq![(v % 128 + 128) as u8] + varint_bytes(v / 128));
        assert(budget >= 2) by {
            if budget < 2 {
                reveal_with_fuel(pow128, 2);
            }
        }
        assert(v / 128 < pow128((budget - 1) as nat)) by {
            assert(pow128(budget) == 128 * pow128((budget - 1) as nat));
        }
        lemma_varint_round_trip(v / 128, rest, (budget - 1) as nat);
        assert(s.drop_first() =~= varint_bytes(v / 128) + rest);
        assert(s[0] == (v % 128 + 128) as u8);
        assert(s[0] - 128 == v % 128);
    }
}

/// Every 64-bit value is read back from its encoding, which takes one to ten bytes.
pub proof fn lemma_parse_varint_bytes(v: u64, rest: Seq<u8>)
    ensures
        1 <= varint_bytes(v as nat).len() <= 10,
        parse_varint(varint_bytes(v as nat) + rest) == Some((v, varint_bytes(v as nat).len())),
{
    lemma_pow128_values();
    lemma_varint_round_trip(v as nat, rest, 10);
}

/// Appends the varint encoding of `v`.
pub fn write_varint(out: &mut Vec<u8>, v: u64)
    ensures
        final(out)@ == old(out)@ + varint_bytes(v as nat),
{
    let mut x = v;
    while x >= 128
        invariant
            old(out)@ + varint_bytes(v as nat) == out@ + varint_bytes(x as nat),
        decreases x,
    {
        let b = (x % 128 + 128) as u8;
        proof {
            assert(varint_bytes(x as nat) == seq![b] + varint_bytes((x / 128) as nat));
            assert(out@ + varint_bytes(x as nat) =~= out@.push(b) + varint_bytes((x / 128) as nat));
        }
        out.push(b);
        x = x / 128;
    }
    proof {
        assert(varint_bytes(x as nat) == seq![x as u8]);
    }
    out.push(x as u8);
    assert(out@ =~= old(out)@ + varint_bytes(v as nat));
}

/// Reads the varint that starts at `pos`: its value and the position after it.
pub fn read_varint(buf: &[u8], pos: usize) -> (r: Option<(u64, usize)>)
    requires
        pos <= buf@.len(),
    ensures
        match parse_varint(buf@.skip(pos as int)) {
            Some((v, n)) => r matches Some((x, p)) && x == v && p == pos + n,
            None => r is None,
        },
{
    let ghost s = buf@.skip(pos as int);
    let blen = buf.len();
    let avail = blen - pos;
    let mut i: usize = 0;
    let mut acc: u128 = 0;
    let mut mult: u128 = 1;
    proof {
        lemma_pow128_values();
        assert(s.skip(0) =~= s);
    }
    while i < 10 && i < avail
        invariant
            s == buf@.skip(pos as int),
            avail == s.len(),
            pos + avail == buf@.len(),
            blen == buf@.len(),
            i <= 10,
            i <= avail,
            mult == pow128(i as nat),
            acc < mult,
            pow128(9) == 0x8000_0000_0000_0000,
            varint_prefix(s, 10) == match varint_prefix(s.skip(i as int), (10 - i) as nat) {
                Some((v, n)) => Some(((acc + mult * v) as nat, (n + i) as nat)),
                None => None::<(nat, nat)>,
            },
        decreases 10 - i,
    {
        assert(pos + i < buf@.len());
        let b = buf[pos + i];
        let ghost t = s.skip(i as int);
        assert(t[0] == b);
        proof {
            lemma_pow128_le(i as nat, 9);
        }
        if b < 128 {
            assert(mult * (b as u128) <= mult * 127) by (nonlinear_arith)
                requires
                    b < 128,
            ;
            let total: u128 = acc + mult * (b as u128);
            if total <= u64::MAX as u128 {
                return Some((total as u64, pos + i + 1));
            } else {
                return None;
            }
        }
        let low: u128 = (b - 128) as u128;
        assert(mult * low <= mult * 127) by (nonlinear_arith)
            requires
                low < 128,
        ;
        let ghost old_acc = acc;
        acc = acc + mult * low;
        proof {
            assert(t.drop_first() =~= s.skip(i + 1));
            let nxt = varint_prefix(s.skip(i + 1), (10 - i - 1) as nat);
            if let Some((v, n)) = nxt {
                assert(old_acc + mult * ((b - 128) + 128 * v) == acc + (mult * 128) * v)
                    by (nonlinear_arith)
                    requires
                        acc == old_acc + mult * low,
                        low == b - 128,
                ;
            }
            assert(acc < mult * 128) by (nonlinear_arith)
                requires
                    acc == old_acc + mult * low,
                    old_acc < mult,
                    low < 128,
            ;
        }
        mult = mult * 128;
        i = i + 1;
    }
    proof {
        assert(varint_prefix(s.skip(i as int), (10 - i) as nat) is None);
    }
    None
}


/// A varint read from at most `budget` bytes takes at least one byte, no more than are there.
pub proof fn lemma_varint_prefix_len(s: Seq<u8>, budget: nat)
    ensures
        varint_prefix(s, budget) matches Some((v, n)) ==> 1 <= n <= s.len() && n <= budget,
    decreases budget,
{
    if budget > 0 && s.len() > 0 && s[0] >= 128 {
        lemma_varint_prefix_len(s.drop_first(), (budget - 1) as nat);
    }
}

/// The value of a protobuf field on the wire, with the payload of a length-delimited field.
/// Fixed-width values and groups are skipped unread.
pub enum WireValue {
    Varint(u64),
    Fixed64,
    Bytes(Seq<u8>),
    Fixed32,
    Group,
}

/// A protobuf field on the wire: its field number and value.
pub struct WireField {
    pub tag: u64,
    pub value: WireValue,
}

/// The key at the start of `s` as protobuf reads it: a varint of at most 32 bits whose low
/// three bits are a wire type up to 5 and whose other bits are a field number of at least one.
/// The field number, the wire type and the length of the key.
pub open spec fn parse_key(s: Seq<u8>) -> Option<(u64, u64, nat)> {
    match parse_varint(s) {
        Some((key, n)) => if key <= u32::MAX && key % 8 <= 5 && key / 8 >= 1 {
            Some((key / 8, key % 8, n))
        } else {
            None
        },
        None => None,
    }
}

/// How many bytes at the start of `s` protobuf skips as a value of wire type `wt` of a field
/// numbered `tag`: a varint, eight bytes, a length and that many bytes, a group (see
/// [`skip_group`]) or four bytes. An end-group key here is refused.
pub open spec fn skip_value(s: Seq<u8>, tag: u64, wt: u64, depth: nat) -> Option<nat>
    decreases s.len(), 1nat,
{
    if wt == 0 {
        match parse_varint(s) {
            Some((_, m)) => Some(m),
            None => None,
        }
    } else if wt == 1 {
        if s.len() >= 8 {
            Some(8)
        } else {
            None
        }
    } else if wt == 2 {
        match parse_varint(s) {
            Some((len, m)) => if m + len <= s.len() {
                Some((m + len) as nat)
            } else {
                None
            },
            None => None,
        }
    } else if wt == 3 {
        skip_group(s, tag, depth)
    } else if wt == 5 {
        if s.len() >= 4 {
            Some(4)
        } else {
            None
        }
    } else {
        None
    }
}

/// How many bytes at the start of `s` protobuf skips as the rest of a group numbered `tag`,
/// up to and including the end-group key with that number. Each field inside is skipped one
/// level deeper, and only while `depth` stays above one; an end key with another number is
/// refused.
pub open spec fn skip_group(s: Seq<u8>, tag: u64, depth: nat) -> Option<nat>
    decreases s.len(), 0nat,
{
    match parse_key(s) {
        None => None,
        Some((t, wt, n)) => if wt == 4 {
            if t == tag {
                Some(n)
            } else {
                None
            }
        } else if depth <= 1 || n == 0 || n > s.len() {
            None
        } else {
            match skip_value(s.skip(n as int), t, wt, (depth - 1) as nat) {
                Some(m) => if n + m <= s.len() {
                    match skip_group(s.skip((n + m) as int), tag, depth) {
                        Some(k) => Some(n + m + k),
                        None => None,
                    }
                } else {
                    None
                },
                None => None,
            }
        },
    }
}

/// A key takes at least one byte and no more than are there.
pub proof fn lemma_parse_key_len(s: Seq<u8>)
    ensures
        parse_key(s) matches Some((t, wt, n)) ==> 1 <= n <= s.len(),
{
    lemma_varint_prefix_len(s, 10);
}

/// A skipped value takes no more bytes than are there.
pub proof fn lemma_skip_value_len(s: Seq<u8>, tag: u64, wt: u64, depth: nat)
    ensures
        skip_value(s, tag, wt, depth) matches Some(m) ==> m <= s.len(),
    decreases s.len(), 1nat,
{
    lemma_varint_prefix_len(s, 10);
    if wt == 3 {
        lemma_skip_group_len(s, tag, depth);
    }
}

/// A skipped group takes at least one byte and no more than are there.
pub proof fn lemma_skip_group_len(s: Seq<u8>, tag: u64, depth: nat)
    ensures
        skip_group(s, tag, depth) matches Some(m) ==> 1 <= m <= s.len(),
    decreases s.len(), 0nat,
{
    lemma_parse_key_len(s);
    if let Some((t, wt, n)) = parse_key(s) {
        if wt != 4 && depth > 1 && 0 < n <= s.len() {
            lemma_skip_value_len(s.skip(n as int), t, wt, (depth - 1) as nat);
            if let Some(m) = skip_value(s.skip(n as int), t, wt, (depth - 1) as nat) {
                if n + m <= s.len() {
                    lemma_skip_group_len(s.skip((n + m) as int), tag, depth);
                }
            }
        }
    }
}

/// The field at the start of `s` and its length in bytes, as protobuf reads it: a key, then
/// the value its wire type calls for. Groups inside a group may nest while `depth` stays above
/// one.
pub open spec fn parse_field(s: Seq<u8>, depth: nat) -> Option<(WireField, nat)> {
    match parse_key(s) {
        None => None,
        Some((tag, wt, n)) => {
            let rest = s.skip(n as int);
            if wt == 0 {
                match parse_varint(rest) {
                    Some((v, m)) => Some((WireField { tag, value: WireValue::Varint(v) }, n + m)),
                    None => None,
                }
            } else if wt == 1 {
                if rest.len() >= 8 {
                    Some((WireField { tag, value: WireValue::Fixed64 }, n + 8))
                } else {
                    None
                }
            } else if wt == 2 {
                match parse_varint(rest) {
                    Some((len, m)) => if m + len <= rest.len() {
                        Some(
                            (
                                WireField {
                                    tag,
                                    value: WireValue::Bytes(rest.subrange(m as int, m + len)),
                                },
                                (n + m + len) as nat,
                            ),
                        )
                    } else {
                        None
                    },
                    None => None,
                }
            } else if wt == 3 {
                match skip_group(rest, tag, depth) {
                    Some(m) => Some((WireField { tag, value: WireValue::Group }, n + m)),
                    None => None,
                }
            } else if wt == 5 {
                if rest.len() >= 4 {
                    Some((WireField { tag, value: WireValue::Fixed32 }, n + 4))
                } else {
                    None
                }
            } else {
                None
            }
        },
    }
}

/// A field takes at least one byte and no more than are there.
pub proof fn lemma_parse_field_len(s: Seq<u8>, depth: nat)
    ensures
        parse_field(s, depth) matches Some((f, n)) ==> 0 < n <= s.len(),
{
    lemma_parse_key_len(s);
    if let Some((tag, wt, n)) = parse_key(s) {
        lemma_varint_prefix_len(s.skip(n as int), 10);
        lemma_skip_group_len(s.skip(n as int), tag, depth);
    }
}

/// Reads the fields of `s` in turn and folds `step` over them from `st`; `None` where a field
/// cannot be read or `step` refuses one.
pub open spec fn fold_fields<S>(
    s: Seq<u8>,
    st: S,
    step: spec_fn(S, WireField) -> Option<S>,
    depth: nat,
) -> Option<S>
    decreases s.len(),
{
    if s.len() == 0 {
        Some(st)
    } else {
        match parse_field(s, depth) {
            Some((f, n)) => if 0 < n <= s.len() {
                match step(st, f) {
                    Some(st2) => fold_fields(s.skip(n as int), st2, step, depth),
                    None => None,
                }
            } else {
                None
            },
            None => None,
        }
    }
}

/// The value of a field as `read_field` hands it out: a length-delimited payload is given
/// by where it starts and ends in the buffer.
pub enum FieldValue {
    Varint(u64),
    Fixed64,
    Bytes(usize, usize),
    Fixed32,
    Group,
}

/// `v` read from `buf` is the wire value `w`.
pub open spec fn field_value_matches(buf: Seq<u8>, v: FieldValue, w: WireValue) -> bool {
    match v {
        FieldValue::Varint(x) => w == WireValue::Varint(x),
        FieldValue::Fixed64 => w == WireValue::Fixed64,
        FieldValue::Bytes(a, b) => a <= b <= buf.len() && w == WireValue::Bytes(
            buf.subrange(a as int, b as int),
        ),
        FieldValue::Fixed32 => w == WireValue::Fixed32,
        FieldValue::Group => w == WireValue::Group,
    }
}

/// Reads the key that starts at `pos`: the field number, the wire type and the position after
/// the key.
fn read_key(buf: &[u8], pos: usize) -> (r: Option<(u64, u64, usize)>)
    requires
        pos <= buf@.len(),
    ensures
        match parse_key(buf@.skip(pos as int)) {
            Some((t, wt, n)) => r matches Some((a, b, p)) && a == t && b == wt && p == pos + n,
            None => r is None,
        },
{
    let (key, p) = match read_varint(buf, pos) {
        Some(x) => x,
        None => return None,
    };
    if key > 0xffff_ffffu64 || key % 8 > 5 || key / 8 == 0 {
        return None;
    }
    Some((key / 8, key % 8, p))
}

/// Skips a value of wire type `wt` of a field numbered `tag` starting at `pos`: the position
/// after it. See [`skip_value`].
fn skip_value_at(buf: &[u8], pos: usize, tag: u64, wt: u64, depth: u32) -> (r: Option<usize>)
    requires
        pos <= buf@.len(),
    ensures
        match skip_value(buf@.skip(pos as int), tag, wt, depth as nat) {
            Some(m) => r matches Some(p) && p == pos + m,
            None => r is None,
        },
    decreases buf@.len() - pos, 1nat,
{
    let ghost s = buf@.skip(pos as int);
    let avail = buf.len() - pos;
    if wt == 0 {
        match read_varint(buf, pos) {
            Some((_, p)) => Some(p),
            None => None,
        }
    } else if wt == 1 {
        if avail >= 8 {
            Some(pos + 8)
        } else {
            None
        }
    } else if wt == 2 {
        match read_varint(buf, pos) {
            Some((len, p)) => {
                proof {
                    lemma_varint_prefix_len(s, 10);
                }
                if len <= (buf.len() - p) as u64 {
                    Some(p + len as usize)
                } else {
                    None
                }
            },
            None => None,
        }
    } else if wt == 3 {
        skip_group_at(buf, pos, tag, depth)
    } else if wt == 5 {
        if avail >= 4 {
            Some(pos + 4)
        } else {
            None
        }
    } else {
        None
    }
}

/// Skips the rest of a group numbered `tag` starting at `pos`: the position after its end
/// key. See [`skip_group`].
fn skip_group_at(buf: &[u8], pos: usize, tag: u64, depth: u32) -> (r: Option<usize>)
    requires
        pos <= buf@.len(),
    ensures
        match skip_group(buf@.skip(pos as int), tag, depth as nat) {
            Some(m) => r matches Some(p) && p == pos + m,
            None => r is None,
        },
    decreases buf@.len() - pos, 0nat,
{
    let ghost s0 = buf@.skip(pos as int);
    let mut p = pos;
    loop
        invariant
            pos <= p <= buf@.len(),
            s0 == buf@.skip(pos as int),
            skip_group(s0, tag, depth as nat) == match skip_group(
                buf@.skip(p as int),
                tag,
                depth as nat,
            ) {
                Some(k) => Some((p - pos + k) as nat),
                None => None::<nat>,
            },
        decreases buf@.len() - p,
    {
        let ghost s = buf@.skip(p as int);
        proof {
            lemma_parse_key_len(s);
        }
        let (t, wt, q) = match read_key(buf, p) {
            Some(x) => x,
            None => return None,
        };
        if wt == 4 {
            if t == tag {
                return Some(q);
            } else {
                return None;
            }
        }
        if depth <= 1 {
            return None;
        }
        proof {
            assert(s.skip(q - p) =~= buf@.skip(q as int));
            lemma_skip_value_len(buf@.skip(q as int), t, wt, (depth - 1) as nat);
        }
        let next = match skip_value_at(buf, q, t, wt, depth - 1) {
            Some(x) => x,
            None => return None,
        };
        proof {
            assert(s.skip(next - p) =~= buf@.skip(next as int));
        }
        p = next;
    }
}

/// Reads the field that starts at `pos`: its field number, its value and the position after it.
pub fn read_field(buf: &[u8], pos: usize, depth: u32) -> (r: Option<(u64, FieldValue, usize)>)
    requires
        pos <= buf@.len(),
    ensures
        match parse_field(buf@.skip(pos as int), depth as nat) {
            Some((f, n)) => r matches Some((tag, v, next)) && tag == f.tag && next == pos + n
                && field_value_matches(buf@, v, f.value),
            None => r is None,
        },
{
    let ghost s = buf@.skip(pos as int);
    proof {
        lemma_parse_key_len(s);
    }
    let (tag, wt, p) = match read_key(buf, pos) {
        Some(x) => x,
        None => return None,
    };
    proof {
        assert(buf@.skip(p as int) =~= s.skip(p - pos));
    }
    let blen = buf.len();
    if wt == 0 {
        match read_varint(buf, p) {
            Some((v, q)) => Some((tag, FieldValue::Varint(v), q)),
            None => None,
        }
    } else if wt == 1 {
        if blen - p >= 8 {
            Some((tag, FieldValue::Fixed64, p + 8))
        } else {
            None
        }
    } else if wt == 2 {
        match read_varint(buf, p) {
            Some((len, q)) => {
                proof {
                    lemma_varint_prefix_len(buf@.skip(p as int), 10);
                }
                if len <= (blen - q) as u64 {
                    let end = q + len as usize;
                    proof {
                        let rest = s.skip(p - pos);
                        assert(rest.subrange(q - p, q - p + len) =~= buf@.subrange(
                            q as int,
                            end as int,
                        ));
                    }
                    Some((tag, FieldValue::Bytes(q, end), end))
                } else {
                    None
                }
            },
            None => None,
        }
    } else if wt == 3 {
        match skip_group_at(buf, p, tag, depth) {
            Some(end) => Some((tag, FieldValue::Group, end)),
            None => None,
        }
    } else if wt == 5 {
        if blen - p >= 4 {
            Some((tag, FieldValue::Fixed32, p + 4))
        } else {
            None
        }
    } else {
        None
    }
}

/// The encoding of a varint field numbered `tag` holding `v`.
pub open spec fn varint_field(tag: nat, v: nat) -> Seq<u8> {
    varint_bytes(tag * 8) + varint_bytes(v)
}

/// The encoding of a length-delimited field numbered `tag` holding `b`.
pub open spec fn len_field(tag: nat, b: Seq<u8>) -> Seq<u8> {
    varint_bytes(tag * 8 + 2) + varint_bytes(b.len()) + b
}

/// Appends a varint field numbered `tag` holding `v`.
pub fn write_varint_field(out: &mut Vec<u8>, tag: u64, v: u64)
    requires
        tag <= 0x1fff_ffff,
    ensures
        final(out)@ == old(out)@ + varint_field(tag as nat, v as nat),
{
    write_varint(out, tag * 8);
    write_varint(out, v);
    assert(out@ =~= old(out)@ + varint_field(tag as nat, v as nat));
}

/// Appends a length-delimited field numbered `tag` holding `b`.
pub fn write_len_field(out: &mut Vec<u8>, tag: u64, b: &[u8])
    requires
        tag <= 0x1fff_ffff,
    ensures
        final(out)@ == old(out)@ + len_field(tag as nat, b@),
{
    write_varint(out, tag * 8 + 2);
    write_varint(out, b.len() as u64);
    push_all(out, b);
    assert(out@ =~= old(out)@ + len_field(tag as nat, b@));
}

/// A varint field as written reads back as that field.
pub proof fn lemma_parse_varint_field(tag: u64, v: u64, rest: Seq<u8>, depth: nat)
    requires
        1 <= tag <= 0x1fff_ffff,
    ensures
        parse_field(varint_field(tag as nat, v as nat) + rest, depth) == Some(
            (WireField { tag, value: WireValue::Varint(v) }, varint_field(tag as nat, v as nat).len()),
        ),
{
    let key = (tag * 8) as u64;
    let kb = varint_bytes(key as nat);
    let vb = varint_bytes(v as nat);
    let s = varint_field(tag as nat, v as nat) + rest;
    lemma_parse_varint_bytes(key, vb + rest);
    assert(s =~= kb + (vb + rest));
    assert(s.skip(kb.len() as int) =~= vb + rest);
    lemma_parse_varint_bytes(v, rest);
    assert(key / 8 == tag && key % 8 == 0);
}

/// A length-delimited field as written reads back as that field.
pub proof fn lemma_parse_len_field(tag: u64, b: Seq<u8>, rest: Seq<u8>, depth: nat)
    requires
        1 <= tag <= 0x1fff_ffff,
        b.len() <= u64::MAX,
    ensures
        parse_field(len_field(tag as nat, b) + rest, depth) == Some(
            (WireField { tag, value: WireValue::Bytes(b) }, len_field(tag as nat, b).len()),
        ),
{
    let key = (tag * 8 + 2) as u64;
    let kb = varint_bytes(key as nat);
    let lb = varint_bytes(b.len());
    let s = len_field(tag as nat, b) + rest;
    lemma_parse_varint_bytes(key, lb + b + rest);
    assert(s =~= kb + (lb + b + rest));
    let r1 = s.skip(kb.len() as int);
    assert(r1 =~= lb + (b + rest));
    lemma_parse_varint_bytes(b.len() as u64, b + rest);
    assert(r1.subrange(lb.len() as int, (lb.len() + b.len()) as int) =~= b);
    assert(key / 8 == tag && key % 8 == 2);
}

/// Folding over a field that reads back as `f` and then `rest` is one step on `f` and a fold
/// over `rest`.
pub proof fn lemma_fold_first_field<S>(
    x: Seq<u8>,
    rest: Seq<u8>,
    f: WireField,
    st: S,
    step: spec_fn(S, WireField) -> Option<S>,
    depth: nat,
)
    requires
        x.len() > 0,
        parse_field(x + rest, depth) == Some((f, x.len())),
    ensures
        fold_fields(x + rest, st, step, depth) == match step(st, f) {
            Some(st2) => fold_fields(rest, st2, step, depth),
            None => None,
        },
{
    assert((x + rest).skip(x.len() as int) =~= rest);
}

/// One step of a fold over fields: the first field, then the rest.
pub proof fn lemma_fold_unfold<S>(
    s: Seq<u8>,
    st: S,
    step: spec_fn(S, WireField) -> Option<S>,
    depth: nat,
)
    requires
        s.len() > 0,
    ensures
        fold_fields(s, st, step, depth) == match parse_field(s, depth) {
            Some((f, n)) => match step(st, f) {
                Some(st2) => fold_fields(s.skip(n as int), st2, step, depth),
                None => None,
            },
            None => None,
        },
{
    lemma_parse_field_len(s, depth);
}

} // verus!
