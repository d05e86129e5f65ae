//! Symbol interning: every distinct string gets a stable 32-bit handle,
//! with reverse lookup from handle to string.

use vstd::prelude::*;

verus! {

/// A 32-bit handle for an interned string.
#[derive(Debug, PartialEq, Eq, PartialOrd, Ord, Copy, Clone, Hash, Structural)]
pub struct Sym(pub u32);

/// Maps strings (held as byte vectors) to stable handles and back.
///
/// The handle of a string is its index in `strings`; handles are assigned
/// monotonically from zero. Duplicates can only arise through `private`,
/// which may shadow an earlier entry of the same spelling; the later entry
/// then owns the spelling, so searches run from the end.
pub struct Interner {
    strings: Vec<Vec<u8>>,
}

impl View for Interner {
    type V = Seq<Seq<u8>>;

    closed spec fn view(&self) -> Seq<Seq<u8>> {
        Seq::new(self.strings@.len(), |i: int| self.strings@[i]@)
    }
}

/// Index of the last entry spelled `s`, if any.
pub open spec fn find_last(strings: Seq<Seq<u8>>, s: Seq<u8>) -> Option<int>
    decreases strings.len(),
{
    if strings.len() == 0 {
        None
    } else if strings.last() == s {
        Some(strings.len() - 1)
    } else {
        find_last(strings.drop_last(), s)
    }
}

/// The handle `intern` hands out for `s` against table `strings`.
pub open spec fn intern_sym(strings: Seq<Seq<u8>>, s: Seq<u8>) -> Sym {
    match find_last(strings, s) {
        Some(i) => Sym(i as u32),
        None => Sym(strings.len() as u32),
    }
}

/// The table after interning `s`.
pub open spec fn intern_table(strings: Seq<Seq<u8>>, s: Seq<u8>) -> Seq<Seq<u8>> {
    match find_last(strings, s) {
        Some(i) => strings,
        None => if strings.len() < u32::MAX as int {
            strings.push(s)
        } else {
            strings
        },
    }
}

/// Decimal digits of `n`, most significant first.
pub open spec fn dec_digits(n: nat) -> Seq<u8>
    decreases n,
{
    if n < 10 {
        seq![(n + 0x30) as u8]
    } else {
        dec_digits(n / 10).push(((n % 10) + 0x30) as u8)
    }
}

/// The spelling `#N` that `private` gives the fresh symbol for table size `N`.
pub open spec fn private_name(n: nat) -> Seq<u8> {
    seq![0x23u8] + dec_digits(n)
}

impl Interner {
    /// Constructs an empty interner.
    pub fn new() -> (r: Interner)
        ensures
            r@ == Seq::<Seq<u8>>::empty(),
    {
        Interner { strings: Vec::new() }
    }

    /// Interns `string` and returns its handle; idempotent. Once the table
    /// holds `u32::MAX` strings (unreachable in practice) a fresh string is
    /// not recorded and the returned handle is the table size.
    #[verifier::loop_isolation(false)]
    pub fn intern(&mut self, string: &[u8]) -> (r: Sym)
        ensures
            r == intern_sym(old(self)@, string@),
            final(self)@ == intern_table(old(self)@, string@),
    {
        let mut i: usize = self.strings.len();
        proof {
            assert(self@.take(self.strings.len() as int) =~= self@);
        }
        loop
            invariant
                i <= self.strings.len(),
                find_last(self@, string@) == find_last(self@.take(i as int), string@),
            decreases i,
        {
            if i == 0 {
                break;
            }
            i = i - 1;
            proof {
                assert(self@.take(i + 1).drop_last() =~= self@.take(i as int));
                assert(self@.take(i + 1).last() == self@[i as int]);
            }
            if bytes_eq(self.strings[i].as_slice(), string) {
                assert(find_last(self@.take(i + 1), string@) == Some(i as int));
                return Sym(#[verifier::truncate] (i as u32));
            }
        }
        proof {
            assert(self@.take(0) =~= Seq::<Seq<u8>>::empty());
        }
        let n = self.strings.len();
        if n < u32::MAX as usize {
            let owned = slice_to_vec_u8(string);
            self.strings.push(owned);
            proof {
                assert(self@ =~= old(self)@.push(string@));
            }
            Sym(#[verifier::truncate] (n as u32))
        } else {
            Sym(#[verifier::truncate] (n as u32))
        }
    }

    /// Generates a private symbol spelled `#N` for the current table size
    /// `N`; always fresh while the table can still grow.
    pub fn private(&mut self) -> (r: Sym)
        ensures
            r == Sym(old(self)@.len() as u32),
            old(self)@.len() < u32::MAX as int ==> final(self)@ == old(self)@.push(
                private_name(old(self)@.len() as nat),
            ),
            old(self)@.len() >= u32::MAX as int ==> final(self)@ == old(self)@,
    {
        let n = self.strings.len();
        if n < u32::MAX as usize {
            let mut name: Vec<u8> = Vec::new();
            name.push(0x23);
            push_dec_digits(&mut name, n as u64);
            proof {
                assert(name@ =~= private_name(n as nat));
            }
            self.strings.push(name);
            proof {
                assert(self@ =~= old(self)@.push(private_name(n as nat)));
            }
        }
        Sym(#[verifier::truncate] (n as u32))
    }

    /// Looks up the spelling of `symbol`, as a copy; an unknown handle
    /// yields the empty string.
    pub fn lookup(&self, symbol: Sym) -> (r: Vec<u8>)
        ensures
            r@ == lookup_spec(self@, symbol),
    {
        if (symbol.0 as usize) < self.strings.len() {
            slice_to_vec_u8(self.strings[symbol.0 as usize].as_slice())
        } else {
            Vec::new()
        }
    }
}

/// The spelling that `lookup` returns for `symbol`.
pub open spec fn lookup_spec(strings: Seq<Seq<u8>>, symbol: Sym) -> Seq<u8> {
    if symbol.0 < strings.len() {
        strings[symbol.0 as int]
    } else {
        Seq::empty()
    }
}

/// Byte-for-byte equality of two byte strings.
#[verifier::loop_isolation(false)]
pub fn bytes_eq(a: &[u8], b: &[u8]) -> (r: bool)
    ensures
        r == (a@ == b@),
{
    if a.len() != b.len() {
        proof {
            assert(a@ != b@) by {
                assert(a@.len() != b@.len());
            }
        }
        return false;
    }
    let mut i: usize = 0;
    while i < a.len()
        invariant
            i <= a.len(),
            a@.len() == b@.len(),
            forall|j: int| 0 <= j < i ==> a@[j] == b@[j],
        decreases a.len() - i,
    {
        if a[i] != b[i] {
            return false;
        }
        i = i + 1;
    }
    proof {
        assert(a@ =~= b@);
    }
    true
}

/// Elementwise equality of two key arrays.
#[verifier::loop_isolation(false)]
pub fn syms_eq(a: &Vec<Sym>, b: &Vec<Sym>) -> (r: bool)
    ensures
        r == (a@ == b@),
{
    if a.len() != b.len() {
        proof {
            assert(a@ != b@) by {
                assert(a@.len() != b@.len());
            }
        }
        return false;
    }
    let mut i: usize = 0;
    while i < a.len()
        invariant
            i <= a@.len(),
            a@.len() == b@.len(),
            forall|j: int| 0 <= j < i ==> a@[j] == b@[j],
        decreases a@.len() - i,
    {
        if a[i].0 != b[i].0 {
            return false;
        }
        i = i + 1;
    }
    proof {
        assert(a@ =~= b@);
    }
    true
}

/// Copies a byte slice into an owned vector.
#[verifier::loop_isolation(false)]
pub fn slice_to_vec_u8(s: &[u8]) -> (r: Vec<u8>)
    ensures
        r@ == s@,
{
    let mut out: Vec<u8> = Vec::new();
    let mut i: usize = 0;
    while i < s.len()
        invariant
            i <= s.len(),
            out@ =~= s@.take(i as int),
        decreases s.len() - i,
    {
        out.push(s[i]);
        i = i + 1;
    }
    proof {
        assert(s@.take(s@.len() as int) =~= s@);
    }
    out
}

/// Appends the decimal digits of `n`, most significant first.
pub fn push_dec_digits(out: &mut Vec<u8>, n: u64)
    ensures
        final(out)@ == old(out)@ + dec_digits(n as nat),
    decreases n,
{
    if n < 10 {
        out.push((n + 0x30) as u8);
        proof {
            assert(out@ =~= old(out)@ + dec_digits(n as nat));
        }
    } else {
        push_dec_digits(out, n / 10);
        out.push(((n % 10) + 0x30) as u8);
        proof {
            assert(out@ =~= old(out)@ + dec_digits(n as nat));
        }
    }
}

} // verus!
