//! Numbers as text, and text in a buffer of a fixed size.

use vstd::prelude::*;
use vstd::string::*;

verus! {

/// The decimal digits of a number.
pub open spec fn decimal(n: nat) -> Seq<u8>
    decreases n,
{
    if n < 10 {
        seq![(48 + n) as u8]
    } else {
        decimal(n / 10).push((48 + n % 10) as u8)
    }
}

/// A number below sixteen as a hexadecimal digit.
pub open spec fn hex_digit(n: nat) -> u8 {
    if n < 10 {
        (48 + n) as u8
    } else {
        (87 + n) as u8
    }
}

/// The hexadecimal digits of a number.
pub open spec fn hexadecimal(n: nat) -> Seq<u8>
    decreases n,
{
    if n < 16 {
        seq![hex_digit(n)]
    } else {
        hexadecimal(n / 16).push(hex_digit(n % 16))
    }
}

/// The decimal digits of a number, with a sign where it is negative.
pub open spec fn signed_decimal(n: int) -> Seq<u8> {
    if n < 0 {
        seq![45u8] + decimal((-n) as nat)
    } else {
        decimal(n as nat)
    }
}

/// Append bytes.
pub fn push_bytes(out: &mut Vec<u8>, s: &[u8])
    ensures
        final(out)@ == old(out)@ + s@,
{
    let ghost start = out@;
    let mut i: usize = 0;
    while i < s.len()
        invariant
            0 <= i <= s@.len(),
            out@ == start + s@.take(i as int),
        decreases s@.len() - i,
    {
        out.push(s[i]);
        assert(out@ =~= start + s@.take(i as int + 1));
        i += 1;
    }
    assert(s@.take(i as int) =~= s@);
}

/// Append text.
pub fn push_str(out: &mut Vec<u8>, s: &str)
    ensures
        final(out)@ == old(out)@ + s.spec_bytes(),
{
    push_bytes(out, s.as_bytes());
}

/// Append a number in decimal.
pub fn push_decimal(out: &mut Vec<u8>, n: u64)
    ensures
        final(out)@ == old(out)@ + decimal(n as nat),
    decreases n,
{
    let ghost start = out@;
    if n < 10 {
        out.push(48 + n as u8);
        assert(out@ =~= start + decimal(n as nat));
    } else {
        push_decimal(out, n / 10);
        out.push(48 + (n % 10) as u8);
        assert(out@ =~= start + decimal(n as nat));
    }
}

/// Append a number in hexadecimal.
pub fn push_hexadecimal(out: &mut Vec<u8>, n: u64)
    ensures
        final(out)@ == old(out)@ + hexadecimal(n as nat),
    decreases n,
{
    let ghost start = out@;
    if n >= 16 {
        push_hexadecimal(out, n / 16);
    }
    let d: u8 = (n % 16) as u8;
    if d < 10 {
        out.push(48 + d);
    } else {
        out.push(87 + d);
    }
    assert(out@ =~= start + hexadecimal(n as nat));
}

/// Append a signed number in decimal.
pub fn push_signed_decimal(out: &mut Vec<u8>, n: i32)
    ensures
        final(out)@ == old(out)@ + signed_decimal(n as int),
{
    let ghost start = out@;
    if n < 0 {
        out.push(45u8);
        let m: u64 = (-(n as i64)) as u64;
        push_decimal(out, m);
        assert(out@ =~= start + signed_decimal(n as int));
    } else {
        push_decimal(out, n as u64);
    }
}

/// The text fits what is left of a buffer.
pub open spec fn fitting(s: Seq<u8>, room: int) -> Seq<u8> {
    if s.len() <= room {
        s
    } else {
        s.take(room)
    }
}

/// Text in a buffer of a fixed size; what does not fit before the last byte is
/// dropped.
pub struct BufWriter {
    pub buf: Vec<u8>,
    pub pos: usize,
}

impl BufWriter {
    /// The text written so far is in the buffer, and the last byte is free.
    pub open spec fn wf(self) -> bool {
        self.pos < self.buf@.len() || self.pos == 0
    }

    /// The text written so far.
    pub open spec fn written(self) -> Seq<u8> {
        self.buf@.take(self.pos as int)
    }

    /// How many more bytes fit.
    pub open spec fn room(self) -> int {
        if self.buf@.len() == 0 {
            0
        } else {
            self.buf@.len() - 1 - self.pos
        }
    }

    /// Write to a buffer from its start.
    pub fn new(buf: Vec<u8>) -> (r: BufWriter)
        ensures
            r.buf@ == buf@,
            r.pos == 0,
            r.wf(),
    {
        BufWriter { buf, pos: 0 }
    }

    /// Append text, as far as it fits.
    pub fn write_str(&mut self, s: &[u8])
        requires
            old(self).wf(),
        ensures
            final(self).wf(),
            final(self).buf@.len() == old(self).buf@.len(),
            final(self).written() == old(self).written() + fitting(s@, old(self).room()),
            forall|i: int|
                final(self).pos <= i < old(self).buf@.len() ==> #[trigger] final(self).buf@[i]
                    == old(self).buf@[i],
    {
        let room: usize = self.buf.len().saturating_sub(1).saturating_sub(self.pos);
        let n: usize = if s.len() <= room {
            s.len()
        } else {
            room
        };
        let ghost start = self.buf@;
        let ghost at = self.pos as int;
        let len: usize = self.buf.len();
        let mut i: usize = 0;
        while i < n
            invariant
                0 <= i <= n <= s@.len(),
                self.pos == at,
                len == start.len(),
                at + n <= start.len(),
                self.buf@.len() == start.len(),
                forall|k: int| 0 <= k < at ==> #[trigger] self.buf@[k] == start[k],
                forall|k: int| at <= k < at + i ==> #[trigger] self.buf@[k] == s@[k - at],
                forall|k: int| at + i <= k < start.len() ==> #[trigger] self.buf@[k] == start[k],
            decreases n - i,
        {
            let p: usize = self.pos + i;
            self.buf[p] = s[i];
            i += 1;
        }
        self.pos = self.pos + n;
        assert(self.written() =~= old(self).written() + fitting(s@, old(self).room()));
    }
}

/// Writing text in two pieces writes what writing it in one does.
pub proof fn law_writing_in_pieces(a: Seq<u8>, b: Seq<u8>, room: int)
    requires
        0 <= room,
    ensures
        fitting(a, room) + fitting(b, room - fitting(a, room).len()) == fitting(a + b, room),
{
    assert(fitting(a, room) + fitting(b, room - fitting(a, room).len()) =~= fitting(a + b, room));
}

} // verus!
