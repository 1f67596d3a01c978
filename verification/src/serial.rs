//! What goes out on the serial port for printed text, and what comes in.
use vstd::prelude::*;

verus! {

/// Line feed.
pub const LF: u8 = 0x0a;

/// Carriage return.
pub const CR: u8 = 0x0d;

/// The bytes written to the serial port for one printed byte: a line feed
/// is preceded by a carriage return when `auto_cr` holds.
pub open spec fn serial_char(ch: u8, auto_cr: bool) -> Seq<u8> {
    if ch == LF && auto_cr {
        seq![CR, LF]
    } else {
        seq![ch]
    }
}

/// The bytes written to the serial port for the text `s`.
pub open spec fn serial_output(s: Seq<u8>, auto_cr: bool) -> Seq<u8>
    decreases s.len(),
{
    if s.len() == 0 {
        Seq::empty()
    } else {
        serial_output(s.drop_last(), auto_cr) + serial_char(s.last(), auto_cr)
    }
}

/// The bytes `print_str` writes to the serial port for `s`.
pub fn serial_bytes(s: &[u8], auto_cr: bool) -> (r: Vec<u8>)
    ensures
        r@ == serial_output(s@, auto_cr),
{
    let mut out: Vec<u8> = Vec::new();
    let mut i: usize = 0;
    while i < s.len()
        invariant
            0 <= i <= s.len(),
            out@ == serial_output(s@.take(i as int), auto_cr),
        decreases s.len() - i,
    {
        let ch = s[i];
        if ch == LF && auto_cr {
            out.push(CR);
        }
        out.push(ch);
        proof {
            assert(s@.take(i + 1).drop_last() =~= s@.take(i as int));
            assert(s@.take(i + 1).last() == ch);
        }
        i += 1;
    }
    proof {
        assert(s@.take(s.len() as int) =~= s@);
    }
    out
}

/// The character the console receives for a byte that arrived on the
/// serial port: a carriage return becomes a line feed.
pub fn console_input(ch: u8) -> (r: u8)
    ensures
        r == (if ch == CR { LF } else { ch }),
{
    if ch == CR {
        LF
    } else {
        ch
    }
}

} // verus!
