//! Document numbers and the repository directory of each.
use crate::text::{chars_of, string_of};
use vstd::prelude::*;

verus! {

/// The number of a document.
pub struct RFDNumber(pub i32);

/// The decimal digits of `n`.
pub open spec fn digits(n: nat) -> Seq<char>
    decreases n,
{
    if n < 10 {
        seq![DIGITS@[n as int]]
    } else {
        digits(n / 10) + seq![DIGITS@[(n % 10) as int]]
    }
}

/// `n` written in decimal, with a `-` where it is negative.
pub open spec fn decimal(n: int) -> Seq<char> {
    if n < 0 {
        seq!['-'] + digits((-n) as nat)
    } else {
        digits(n as nat)
    }
}

/// `s` with zeros in front up to four characters.
pub open spec fn zero_padded(s: Seq<char>) -> Seq<char> {
    if s.len() >= 4 {
        s
    } else {
        Seq::new((4 - s.len()) as nat, |i: int| '0') + s
    }
}

/// The directory of the document numbered `n`.
pub open spec fn directory_of(n: int) -> Seq<char> {
    "/rfd/"@ + zero_padded(decimal(n))
}

pub const DIGITS: &'static str = "0123456789";

fn push_digits(n: u64, out: &mut Vec<char>)
    ensures
        final(out)@ == old(out)@ + digits(n as nat),
    decreases n,
{
    let table = chars_of(DIGITS);
    proof {
        reveal_strlit("0123456789");
    }
    if n < 10 {
        out.push(table[n as usize]);
    } else {
        push_digits(n / 10, out);
        out.push(table[(n % 10) as usize]);
    }
}

fn decimal_chars(n: i32) -> (r: Vec<char>)
    ensures
        r@ == decimal(n as int),
{
    let mut out: Vec<char> = Vec::new();
    if n < 0 {
        out.push('-');
        let m: u64 = (0i64 - n as i64) as u64;
        push_digits(m, &mut out);
    } else {
        push_digits(n as u64, &mut out);
    }
    out
}

impl RFDNumber {
    /// The number in decimal, as a branch of the document is named.
    pub fn decimal_string(&self) -> (r: String)
        ensures
            r@ == decimal(self.0 as int),
    {
        string_of(&decimal_chars(self.0))
    }

    /// The number in decimal, with zeros in front up to four characters.
    pub fn as_number_string(&self) -> (r: String)
        ensures
            r@ == zero_padded(decimal(self.0 as int)),
    {
        string_of(&self.padded())
    }

    fn padded(&self) -> (r: Vec<char>)
        ensures
            r@ == zero_padded(decimal(self.0 as int)),
    {
        let d = decimal_chars(self.0);
        if d.len() >= 4 {
            return d;
        }
        let mut out: Vec<char> = Vec::new();
        let pad: usize = 4 - d.len();
        while out.len() < pad
            invariant
                pad == 4 - d@.len(),
                out@.len() <= pad,
                forall|k: int| 0 <= k < out@.len() ==> out@[k] == '0',
            decreases pad - out@.len(),
        {
            out.push('0');
        }
        let mut i: usize = 0;
        let ghost zeros = out@;
        while i < d.len()
            invariant
                i <= d@.len(),
                out@ == zeros + d@.subrange(0, i as int),
            decreases d@.len() - i,
        {
            out.push(d[i]);
            i = i + 1;
            assert(out@ =~= zeros + d@.subrange(0, i as int));
        }
        assert(d@.subrange(0, d@.len() as int) =~= d@);
        assert(zeros =~= Seq::new((4 - d@.len()) as nat, |k: int| '0'));
        out
    }

    /// The directory that holds the document in the repository.
    pub fn repo_directory(&self) -> (r: String)
        ensures
            r@ == directory_of(self.0 as int),
    {
        string_of(&self.directory_chars())
    }

    pub(crate) fn directory_chars(&self) -> (r: Vec<char>)
        ensures
            r@ == directory_of(self.0 as int),
    {
        let mut out = chars_of("/rfd/");
        let p = self.padded();
        let mut i: usize = 0;
        let ghost start = out@;
        while i < p.len()
            invariant
                i <= p@.len(),
                out@ == start + p@.subrange(0, i as int),
            decreases p@.len() - i,
        {
            out.push(p[i]);
            i = i + 1;
            assert(out@ =~= start + p@.subrange(0, i as int));
        }
        assert(p@.subrange(0, p@.len() as int) =~= p@);
        out
    }
}

} // verus!
