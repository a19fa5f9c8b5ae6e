use vstd::prelude::*;
use vstd::string::StringExecFns;

verus! {

/// The category of an input/output failure, as the standard library names it.
#[derive(Clone, Copy, PartialEq, Eq, Structural, Debug)]
pub enum IoKind {
    InvalidData,
    InvalidInput,
    NotFound,
    UnexpectedEof,
    Other,
}

/// Errors of the packet layer.
#[derive(Debug)]
pub enum Error {
    /// The buffer holds `cap` bytes where at least `required` are needed.
    Overflow { cap: usize, required: usize },
    /// An argument is malformed; the text says which.
    InvalidArgument(String),
    /// A lower-level failure of the given kind, with its message where it has one.
    Io(IoKind, Option<String>),
}

/// The failure of kind `kind` with the message `message`.
pub fn io_error(kind: IoKind, message: &str) -> (r: Error)
    ensures
        r matches Error::Io(k, Some(m)) && k == kind && m@ == message@,
{
    Error::Io(kind, Some(message.to_owned()))
}

/// The character of the decimal digit `d`.
pub open spec fn digit_char(d: nat) -> char {
    if d == 0 {
        '0'
    } else if d == 1 {
        '1'
    } else if d == 2 {
        '2'
    } else if d == 3 {
        '3'
    } else if d == 4 {
        '4'
    } else if d == 5 {
        '5'
    } else if d == 6 {
        '6'
    } else if d == 7 {
        '7'
    } else if d == 8 {
        '8'
    } else {
        '9'
    }
}

/// The decimal notation of `v`, without leading zeros.
pub open spec fn decimal(v: nat) -> Seq<char>
    decreases v,
{
    if v < 10 {
        seq![digit_char(v)]
    } else {
        decimal(v / 10).push(digit_char(v % 10))
    }
}

/// The number the decimal digits `s` spell.
pub open spec fn digits_value(s: Seq<char>) -> int
    decreases s.len(),
{
    if s.len() == 0 {
        0
    } else {
        10 * digits_value(s.drop_last()) + (s.last() as u32 - '0' as u32)
    }
}

proof fn lemma_digit_char_value(d: nat)
    requires
        d < 10,
    ensures
        digit_char(d) as u32 - '0' as u32 == d,
        '0' <= digit_char(d) <= '9',
{
    if d == 0 {
    } else if d == 1 {
    } else if d == 2 {
    } else if d == 3 {
    } else if d == 4 {
    } else if d == 5 {
    } else if d == 6 {
    } else if d == 7 {
    } else if d == 8 {
    } else {
    }
}

/// The decimal notation of `v` is made of the digits `0`-`9`, spells `v`, and starts with
/// `0` only for zero itself.
pub proof fn law_decimal(v: nat)
    ensures
        digits_value(decimal(v)) == v,
        forall|i: int| 0 <= i < decimal(v).len() ==> '0' <= #[trigger] decimal(v)[i] <= '9',
        decimal(v)[0] == '0' ==> v == 0,
    decreases v,
{
    lemma_digit_char_value(v % 10);
    if v < 10 {
        assert(v % 10 == v);
        assert(decimal(v).drop_last() =~= Seq::<char>::empty());
        assert(decimal(v).last() == digit_char(v));
        assert(digits_value(decimal(v)) == 10 * digits_value(decimal(v).drop_last()) + (decimal(
            v,
        ).last() as u32 - '0' as u32));
    } else {
        law_decimal(v / 10);
        assert(10 * (v / 10) + v % 10 == v);
        let d = decimal(v / 10);
        assert(decimal(v).drop_last() =~= d);
        assert(decimal(v).last() == digit_char(v % 10));
        assert(digits_value(decimal(v)) == 10 * digits_value(decimal(v).drop_last()) + (decimal(
            v,
        ).last() as u32 - '0' as u32));
        assert(decimal(v)[0] == d[0]);
        assert forall|i: int| 0 <= i < decimal(v).len() implies '0' <= #[trigger] decimal(v)[i]
            <= '9' by {
            if i < d.len() {
                assert(decimal(v)[i] == d[i]);
            }
        }
    }
}

fn digit_str(d: u8) -> (r: &'static str)
    requires
        d < 10,
    ensures
        r@ == seq![digit_char(d as nat)],
{
    proof {
        reveal_strlit("0");
        reveal_strlit("1");
        reveal_strlit("2");
        reveal_strlit("3");
        reveal_strlit("4");
        reveal_strlit("5");
        reveal_strlit("6");
        reveal_strlit("7");
        reveal_strlit("8");
        reveal_strlit("9");
    }
    match d {
        0 => "0",
        1 => "1",
        2 => "2",
        3 => "3",
        4 => "4",
        5 => "5",
        6 => "6",
        7 => "7",
        8 => "8",
        _ => "9",
    }
}

/// The decimal notation of `v`.
pub fn decimal_u8(v: u8) -> (r: String)
    ensures
        r@ == decimal(v as nat),
{
    let mut s = String::new();
    if v >= 100 {
        s.append(digit_str(v / 100));
    }
    if v >= 10 {
        s.append(digit_str((v / 10) % 10));
    }
    s.append(digit_str(v % 10));
    proof {
        let n = v as nat;
        if n >= 100 {
            assert(decimal(n / 100) == seq![digit_char(n / 100)]);
            assert(decimal(n / 10) == decimal(n / 100).push(digit_char((n / 10) % 10)));
        } else if n >= 10 {
            assert(decimal(n / 10) == seq![digit_char(n / 10)]);
        }
        assert(s@ =~= decimal(n));
    }
    s
}

/// Why receiving stopped.
#[derive(Clone, Copy, PartialEq, Eq, Structural, Debug)]
pub enum RecvError {
    /// The receiver was shut down or its source is closed.
    Done,
    /// Receiving failed with an error of the given kind.
    Io(IoKind),
}

/// What a receive loop makes of one attempt to receive: `shutdown` tells whether shutdown
/// was requested, `received` what the source gave (`None` once it is closed, else the number
/// of bytes received or the kind of the failure). Shutdown and a closed source end receiving
/// as done, a failure is passed on, zero bytes are an unexpected end of input, and any other
/// length is handed on.
pub fn received_len(shutdown: bool, received: Option<Result<usize, IoKind>>) -> (r: Result<
    usize,
    RecvError,
>)
    ensures
        shutdown || received is None ==> r == Err::<usize, RecvError>(RecvError::Done),
        !shutdown ==> (received matches Some(Err(k)) ==> r == Err::<usize, RecvError>(
            RecvError::Io(k),
        )),
        !shutdown && received == Some(Ok::<usize, IoKind>(0usize)) ==> r == Err::<
            usize,
            RecvError,
        >(RecvError::Io(IoKind::UnexpectedEof)),
        !shutdown ==> (received matches Some(Ok(n)) ==> (n > 0 ==> r == Ok::<usize, RecvError>(
            n,
        ))),
{
    if shutdown {
        return Err(RecvError::Done);
    }
    match received {
        None => Err(RecvError::Done),
        Some(Err(k)) => Err(RecvError::Io(k)),
        Some(Ok(0)) => Err(RecvError::Io(IoKind::UnexpectedEof)),
        Some(Ok(n)) => Ok(n),
    }
}

} // verus!
