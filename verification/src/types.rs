//! Addresses, symbols and what a call reads of the ledger.
use crate::table::Key;
use vstd::prelude::*;

verus! {

/// A Stellar address: the public key of an account, or the identifier of a
/// contract. The thirty-two bytes are held as two big-endian halves.
#[derive(Clone, Copy, PartialEq, Eq, Structural, Debug)]
pub struct Address {
    pub contract: bool,
    pub hi: u128,
    pub lo: u128,
}

impl Key for Address {
    fn same(&self, other: &Address) -> (r: bool) {
        *self == *other
    }
}

/// What a call reads of the environment that it runs in: the address of the
/// contract itself, and time and number of the ledger that is being closed.
#[derive(Clone, Copy, PartialEq, Eq, Structural, Debug)]
pub struct Context {
    pub contract: Address,
    pub timestamp: u64,
    pub sequence: u32,
}

/// The hash of a contract's code, held as two big-endian halves.
#[derive(Clone, Copy, PartialEq, Eq, Structural, Debug)]
pub struct WasmHash {
    pub hi: u128,
    pub lo: u128,
}

impl Address {
    /// The address of the account or the contract with this key.
    pub open spec fn of(contract: bool, key: Seq<u8>) -> Address {
        Address {
            contract,
            hi: big_endian(key.take(16)) as u128,
            lo: big_endian(key.skip(16)) as u128,
        }
    }

    /// The address of the account or the contract with this key.
    pub fn from_key(contract: bool, key: &[u8; 32]) -> (r: Address)
        ensures
            r == Address::of(contract, key@),
    {
        let hi: u128 = number(key, 0, 16);
        let lo: u128 = number(key, 16, 32);
        proof {
            assert(key@.subrange(0, 16) =~= key@.take(16));
            assert(key@.subrange(16, 32) =~= key@.skip(16));
        }
        Address { contract, hi, lo }
    }
}

impl WasmHash {
    /// The hash that thirty-two bytes spell.
    pub open spec fn of(bytes: Seq<u8>) -> WasmHash {
        WasmHash {
            hi: big_endian(bytes.take(16)) as u128,
            lo: big_endian(bytes.skip(16)) as u128,
        }
    }
}

/// The number that bytes spell, the first one weighing most.
pub open spec fn big_endian(bytes: Seq<u8>) -> nat
    decreases bytes.len(),
{
    if bytes.len() == 0 {
        0
    } else {
        big_endian(bytes.drop_last()) * 256 + bytes.last() as nat
    }
}

/// The bytes that spell a number, without leading zeros.
pub open spec fn digits(n: nat) -> Seq<u8>
    decreases n,
{
    if n == 0 {
        Seq::empty()
    } else {
        digits(n / 256).push((n % 256) as u8)
    }
}

/// How many numbers `n` bytes spell.
pub open spec fn span(n: nat) -> nat
    decreases n,
{
    if n == 0 {
        1
    } else {
        256 * span((n - 1) as nat)
    }
}

pub proof fn lemma_big_endian_bound(bytes: Seq<u8>)
    ensures
        big_endian(bytes) < span(bytes.len()),
    decreases bytes.len(),
{
    if bytes.len() > 0 {
        lemma_big_endian_bound(bytes.drop_last());
    }
}

pub proof fn lemma_span_grows(m: nat, n: nat)
    requires
        m <= n,
    ensures
        1 <= span(m) <= span(n),
    decreases n,
{
    if m < n {
        lemma_span_grows(m, (n - 1) as nat);
    } else if n > 0 {
        lemma_span_grows((m - 1) as nat, (n - 1) as nat);
    }
}

/// Sixteen bytes fill a `u128`.
pub proof fn lemma_sixteen_bytes(bytes: Seq<u8>)
    requires
        bytes.len() <= 16,
    ensures
        big_endian(bytes) <= u128::MAX,
{
    lemma_big_endian_bound(bytes);
    lemma_span_grows(bytes.len(), 16);
    assert(span(16) == 0x1_0000_0000_0000_0000_0000_0000_0000_0000) by {
        reveal_with_fuel(span, 17);
    }
}

/// Bytes without zeros are told from the number that they spell.
pub proof fn lemma_digits_of_big_endian(bytes: Seq<u8>)
    requires
        forall|i: int| 0 <= i < bytes.len() ==> bytes[i] != 0,
    ensures
        digits(big_endian(bytes)) == bytes,
    decreases bytes.len(),
{
    if bytes.len() > 0 {
        let front = bytes.drop_last();
        let n = big_endian(bytes);
        assert forall|i: int| 0 <= i < front.len() implies front[i] != 0 by {
            assert(front[i] == bytes[i]);
        }
        lemma_digits_of_big_endian(front);
        assert(bytes.last() == bytes[bytes.len() - 1]);
        assert(n == big_endian(front) * 256 + bytes.last());
        assert(n / 256 == big_endian(front));
        assert(n % 256 == bytes.last());
        assert(digits(n) =~= bytes);
    } else {
        assert(bytes =~= Seq::<u8>::empty());
    }
}

/// The bytes that spell a number, without leading zeros.
pub fn spell(n: u128) -> (r: Vec<u8>)
    ensures
        r@ == digits(n as nat),
{
    let mut backwards: Vec<u8> = Vec::new();
    let mut rest: u128 = n;
    while rest > 0
        invariant
            digits(n as nat) =~= digits(rest as nat) + backwards@.reverse(),
        decreases rest,
    {
        let ghost before = backwards@;
        let digit: u8 = (rest % 256) as u8;
        backwards.push(digit);
        proof {
            assert(backwards@.reverse() =~= seq![digit] + before.reverse());
            assert(digits(rest as nat) =~= digits((rest / 256) as nat).push(digit));
        }
        rest = rest / 256;
    }
    let ghost reversed = backwards@.reverse();
    let mut r: Vec<u8> = Vec::new();
    let mut i: usize = backwards.len();
    while i > 0
        invariant
            i <= backwards@.len(),
            reversed == backwards@.reverse(),
            r@ =~= reversed.take(backwards@.len() - i),
        decreases i,
    {
        i = i - 1;
        r.push(backwards[i]);
    }
    proof {
        assert(reversed.take(reversed.len() as int) =~= reversed);
        assert(digits(0) + reversed =~= reversed);
    }
    r
}

/// The number that at most sixteen bytes spell, from place `start` up to
/// place `end`.
pub fn number(bytes: &[u8], start: usize, end: usize) -> (r: u128)
    requires
        start <= end <= bytes@.len(),
        end - start <= 16,
    ensures
        r == big_endian(bytes@.subrange(start as int, end as int)),
{
    let mut n: u128 = 0;
    let mut i: usize = start;
    while i < end
        invariant
            start <= i <= end <= bytes@.len(),
            end - start <= 16,
            n == big_endian(bytes@.subrange(start as int, i as int)),
        decreases end - i,
    {
        proof {
            let next = bytes@.subrange(start as int, i + 1);
            assert(next.drop_last() =~= bytes@.subrange(start as int, i as int));
            lemma_sixteen_bytes(next);
        }
        n = n * 256 + bytes[i] as u128;
        i = i + 1;
    }
    n
}

/// The number that bytes spell, the last one weighing most.
pub open spec fn little_endian(bytes: Seq<u8>) -> nat
    decreases bytes.len(),
{
    if bytes.len() == 0 {
        0
    } else {
        bytes.first() as nat + 256 * little_endian(bytes.drop_first())
    }
}

pub proof fn lemma_little_endian_bound(bytes: Seq<u8>)
    ensures
        little_endian(bytes) < span(bytes.len()),
    decreases bytes.len(),
{
    if bytes.len() > 0 {
        lemma_little_endian_bound(bytes.drop_first());
    }
}

/// The number that at most sixteen bytes spell backwards, from place `start`
/// up to place `end`.
pub fn number_backwards(bytes: &[u8], start: usize, end: usize) -> (r: u128)
    requires
        start <= end <= bytes@.len(),
        end - start <= 16,
    ensures
        r == little_endian(bytes@.subrange(start as int, end as int)),
        r < span((end - start) as nat),
{
    let mut n: u128 = 0;
    let mut i: usize = end;
    while i > start
        invariant
            start <= i <= end <= bytes@.len(),
            end - start <= 16,
            n == little_endian(bytes@.subrange(i as int, end as int)),
        decreases i,
    {
        proof {
            let next = bytes@.subrange(i - 1, end as int);
            assert(next.drop_first() =~= bytes@.subrange(i as int, end as int));
            lemma_little_endian_bound(next);
            lemma_span_grows(next.len(), 16);
            assert(span(16) == 0x1_0000_0000_0000_0000_0000_0000_0000_0000) by {
                reveal_with_fuel(span, 17);
            }
        }
        i = i - 1;
        n = bytes[i] as u128 + 256 * n;
    }
    proof {
        lemma_little_endian_bound(bytes@.subrange(start as int, end as int));
    }
    n
}

/// A short name: at most thirty-two letters, digits and underscores. The
/// first sixteen characters are spelt in `head`, the others in `tail`.
#[derive(Clone, Copy, PartialEq, Eq, Structural, Debug)]
pub struct Symbol {
    pub head: u128,
    pub tail: u128,
}

impl Key for Symbol {
    fn same(&self, other: &Symbol) -> (r: bool) {
        *self == *other
    }
}

/// A character that a symbol may hold.
pub open spec fn symbol_char(b: u8) -> bool {
    ||| 0x30 <= b <= 0x39
    ||| 0x41 <= b <= 0x5a
    ||| 0x61 <= b <= 0x7a
    ||| b == 0x5f
}

/// Bytes that make a symbol.
pub open spec fn symbol_text(text: Seq<u8>) -> bool {
    &&& text.len() <= 32
    &&& forall|i: int| 0 <= i < text.len() ==> symbol_char(#[trigger] text[i])
}

impl Symbol {
    /// The symbol that `text` spells.
    pub open spec fn of(text: Seq<u8>) -> Symbol {
        let cut = if text.len() <= 16 {
            text.len() as int
        } else {
            16
        };
        Symbol {
            head: big_endian(text.take(cut)) as u128,
            tail: big_endian(text.skip(cut)) as u128,
        }
    }

    /// The characters of the symbol.
    pub open spec fn text(self) -> Seq<u8> {
        digits(self.head as nat) + digits(self.tail as nat)
    }

    /// Reading a symbol back gives the text that it was made of, so that
    /// different texts make different symbols.
    pub proof fn lemma_text_of(text: Seq<u8>)
        requires
            symbol_text(text),
        ensures
            Symbol::of(text).text() == text,
    {
        let cut = if text.len() <= 16 {
            text.len() as int
        } else {
            16
        };
        let a = text.take(cut);
        let b = text.skip(cut);
        assert forall|i: int| 0 <= i < a.len() implies a[i] != 0 by {
            assert(symbol_char(text[i]));
        }
        assert forall|i: int| 0 <= i < b.len() implies b[i] != 0 by {
            assert(symbol_char(text[cut + i]));
        }
        lemma_digits_of_big_endian(a);
        lemma_digits_of_big_endian(b);
        lemma_sixteen_bytes(a);
        lemma_sixteen_bytes(b);
        assert(a + b =~= text);
    }

    /// Makes a symbol of its characters; nothing where they make none.
    pub fn new(text: &[u8]) -> (r: Option<Symbol>)
        ensures
            r is Some <==> symbol_text(text@),
            r matches Some(s) ==> s == Symbol::of(text@) && s.text() == text@,
    {
        if text.len() > 32 {
            return None;
        }
        let mut i: usize = 0;
        while i < text.len()
            invariant
                i <= text@.len(),
                forall|j: int| 0 <= j < i ==> symbol_char(#[trigger] text@[j]),
            decreases text@.len() - i,
        {
            let b: u8 = text[i];
            let ok = (0x30 <= b && b <= 0x39) || (0x41 <= b && b <= 0x5a) || (0x61 <= b && b
                <= 0x7a) || b == 0x5f;
            if !ok {
                return None;
            }
            i = i + 1;
        }
        let cut: usize = if text.len() <= 16 {
            text.len()
        } else {
            16
        };
        let s = Symbol { head: number(text, 0, cut), tail: number(text, cut, text.len()) };
        proof {
            assert(text@.subrange(0, cut as int) =~= text@.take(cut as int));
            assert(text@.subrange(cut as int, text@.len() as int) =~= text@.skip(cut as int));
            Symbol::lemma_text_of(text@);
        }
        Some(s)
    }

    /// The characters of the symbol.
    pub fn bytes(&self) -> (r: Vec<u8>)
        ensures
            r@ == self.text(),
    {
        let mut r = spell(self.head);
        let mut rest = spell(self.tail);
        r.append(&mut rest);
        r
    }
}

} // verus!
