use vstd::prelude::*;

verus! {

/// The character that writes the decimal digit `d`.
pub open spec fn digit_char(d: nat) -> char {
    if d == 0 {
        '0'
    } else if d == 1 {
        '1'
    } else if d == 2 {
        '2'
    } else if d == 3 {
        '3'
    } else if d == 4 {
        '4'
    } else if d == 5 {
        '5'
    } else if d == 6 {
        '6'
    } else if d == 7 {
        '7'
    } else if d == 8 {
        '8'
    } else {
        '9'
    }
}

/// Decimal digits of `n`, most significant first, with no leading zeros.
pub open spec fn decimal(n: nat) -> Seq<char>
    decreases n,
{
    if n < 10 {
        seq![digit_char(n)]
    } else {
        decimal(n / 10) + seq![digit_char(n % 10)]
    }
}

/// Decimal digits of `n` with zeros put in front until at least `width` characters stand.
pub open spec fn zero_padded(n: nat, width: nat) -> Seq<char> {
    let d = decimal(n);
    if d.len() >= width {
        d
    } else {
        Seq::new((width - d.len()) as nat, |i: int| '0') + d
    }
}

fn digit_str(d: u64) -> (r: &'static str)
    requires
        d < 10,
    ensures
        r@ == seq![digit_char(d as nat)],
{
    proof {
        reveal_strlit("0");
        reveal_strlit("1");
        reveal_strlit("2");
        reveal_strlit("3");
        reveal_strlit("4");
        reveal_strlit("5");
        reveal_strlit("6");
        reveal_strlit("7");
        reveal_strlit("8");
        reveal_strlit("9");
    }
    match d {
        0 => "0",
        1 => "1",
        2 => "2",
        3 => "3",
        4 => "4",
        5 => "5",
        6 => "6",
        7 => "7",
        8 => "8",
        _ => "9",
    }
}


fn decimal_len(n: u64) -> (r: u64)
    ensures
        r as nat == decimal(n as nat).len(),
        r as nat <= n as nat + 1,
    decreases n,
{
    if n < 10 {
        1
    } else {
        let k = decimal_len(n / 10);
        k + 1
    }
}

fn push_decimal(out: &mut String, n: u64)
    ensures
        final(out)@ == old(out)@ + decimal(n as nat),
    decreases n,
{
    if n >= 10 {
        push_decimal(out, n / 10);
    }
    out.append(digit_str(n % 10));
    proof {
        assert(final(out)@ =~= old(out)@ + decimal(n as nat));
    }
}

/// Appends `n` in decimal, zero-padded on the left to at least `width` characters.
pub fn push_zero_padded(out: &mut String, n: u64, width: usize)
    ensures
        final(out)@ == old(out)@ + zero_padded(n as nat, width as nat),
{
    let len = decimal_len(n);
    let ghost start = out@;
    if len < width as u64 {
        let pad = width as u64 - len;
        let mut i: u64 = 0;
        while i < pad
            invariant
                i <= pad,
                out@ == start + Seq::new(i as nat, |j: int| '0'),
            decreases pad - i,
        {
            proof {
                reveal_strlit("0");
            }
            out.append("0");
            i = i + 1;
            proof {
                assert(out@ =~= start + Seq::new(i as nat, |j: int| '0'));
            }
        }
    }
    push_decimal(out, n);
    proof {
        assert(out@ =~= start + zero_padded(n as nat, width as nat));
    }
}


pub const NANOS_PER_SECOND: u64 = 1_000_000_000;

pub const NANOS_PER_MILLI: u64 = 1_000_000;

/// `HH:MM:SS.mmm` for a duration of `ns` nanoseconds: hours are not wrapped at a day,
/// and the milliseconds are truncated.
pub open spec fn clock_text(ns: nat) -> Seq<char> {
    let secs = ns / (NANOS_PER_SECOND as nat);
    let ms = (ns % (NANOS_PER_SECOND as nat)) / (NANOS_PER_MILLI as nat);
    zero_padded(secs / 3600, 2) + seq![':'] + zero_padded((secs % 3600) / 60, 2) + seq![':']
        + zero_padded(secs % 60, 2) + seq!['.'] + zero_padded(ms, 3)
}

/// Appends the elapsed-time text of a duration of `ns` nanoseconds.
pub fn push_clock(out: &mut String, ns: u64)
    ensures
        final(out)@ == old(out)@ + clock_text(ns as nat),
{
    let ghost start = out@;
    let secs = ns / NANOS_PER_SECOND;
    let ms = (ns % NANOS_PER_SECOND) / NANOS_PER_MILLI;
    push_zero_padded(out, secs / 3600, 2);
    proof {
        reveal_strlit(":");
        reveal_strlit(".");
    }
    out.append(":");
    push_zero_padded(out, (secs % 3600) / 60, 2);
    out.append(":");
    push_zero_padded(out, secs % 60, 2);
    out.append(".");
    push_zero_padded(out, ms, 3);
    proof {
        assert(out@ =~= start + clock_text(ns as nat));
    }
}

/// The elapsed-time text of a duration of `ns` nanoseconds.
pub fn format_elapsed(ns: u64) -> (r: String)
    ensures
        r@ == clock_text(ns as nat),
{
    let mut out = String::new();
    push_clock(&mut out, ns);
    proof {
        assert(out@ =~= clock_text(ns as nat));
    }
    out
}

} // verus!
