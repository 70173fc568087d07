//! Object identifiers: a 12-byte MongoDB object id held as a 96-bit integer.
use vstd::prelude::*;

verus! {

/// The value of `bytes` read as a big-endian unsigned number.
pub open spec fn be_value(bytes: Seq<u8>) -> nat
    decreases bytes.len(),
{
    if bytes.len() == 0 {
        0
    } else {
        be_value(bytes.drop_last()) * 256 + bytes.last() as nat
    }
}

/// Every id value is below 2^96 (twelve bytes).
pub open spec fn id_limit() -> nat {
    0x1_0000_0000_0000_0000_0000_0000nat
}

/// A document identifier: the twelve bytes of an object id, big-endian.
#[derive(Clone, Copy, Debug, PartialEq, Eq, Structural, Hash)]
pub struct Oid {
    pub value: u128,
}

impl Oid {
    pub open spec fn wf(self) -> bool {
        self.value < id_limit()
    }
}

proof fn lemma_be_value_step(s: Seq<u8>, b: u8)
    ensures
        be_value(s.push(b)) == be_value(s) * 256 + b as nat,
{
    assert(s.push(b).drop_last() =~= s);
}

proof fn lemma_be_value_bound(s: Seq<u8>, bound: nat)
    requires
        be_value(s) < bound,
    ensures
        forall|b: u8| #[trigger] be_value(s.push(b)) < bound * 256,
{
    assert forall|b: u8| #[trigger] be_value(s.push(b)) < bound * 256 by {
        lemma_be_value_step(s, b);
        let v = be_value(s);
        assert(v * 256 + b < bound * 256) by (nonlinear_arith)
            requires
                v < bound,
                b < 256,
        ;
    }
}

/// Two byte strings of the same length with the same big-endian value are equal.
proof fn lemma_be_value_injective(s1: Seq<u8>, s2: Seq<u8>)
    requires
        s1.len() == s2.len(),
        be_value(s1) == be_value(s2),
    ensures
        s1 == s2,
    decreases s1.len(),
{
    if s1.len() > 0 {
        let a = be_value(s1.drop_last());
        let b = be_value(s2.drop_last());
        let x = s1.last() as int;
        let y = s2.last() as int;
        assert(a * 256 + x == b * 256 + y);
        assert(a == b && x == y) by (nonlinear_arith)
            requires
                a * 256 + x == b * 256 + y,
                0 <= x < 256,
                0 <= y < 256,
                a >= 0,
                b >= 0,
        ;
        lemma_be_value_injective(s1.drop_last(), s2.drop_last());
        assert(s1 =~= s1.drop_last().push(s1.last()));
        assert(s2 =~= s2.drop_last().push(s2.last()));
    }
}

impl Oid {
    /// Reads twelve bytes, big-endian, as an id.
    pub fn from_bytes(bytes: &[u8]) -> (id: Oid)
        requires
            bytes@.len() == 12,
        ensures
            id.value == be_value(bytes@),
            id.wf(),
    {
        let mut acc: u128 = 0;
        let mut i: usize = 0;
        proof {
            assert(bytes@.subrange(0, 0) =~= Seq::<u8>::empty());
            assert(pow256(0) == 1);
        }
        while i < 12
            invariant
                0 <= i <= 12,
                bytes@.len() == 12,
                acc as nat == be_value(bytes@.subrange(0, i as int)),
                (acc as nat) < pow256(i as nat),
            decreases 12 - i,
        {
            proof {
                let pre = bytes@.subrange(0, i as int);
                assert(bytes@.subrange(0, i + 1) =~= pre.push(bytes@[i as int]));
                lemma_be_value_step(pre, bytes@[i as int]);
                lemma_be_value_bound(pre, pow256(i as nat));
                lemma_pow256_le(i as nat + 1);
            }
            acc = acc * 256 + bytes[i] as u128;
            i = i + 1;
        }
        assert(bytes@.subrange(0, 12) =~= bytes@);
        proof {
            lemma_pow256_twelve();
        }
        Oid { value: acc }
    }

    /// The twelve big-endian bytes of this id.
    pub fn to_bytes(&self) -> (bytes: Vec<u8>)
        requires
            self.wf(),
        ensures
            bytes@.len() == 12,
            be_value(bytes@) == self.value,
    {
        let mut digits: Vec<u8> = Vec::new();
        let mut rest: u128 = self.value;
        let mut i: usize = 0;
        proof {
            lemma_pow256_twelve();
            assert(digits@.reverse() =~= Seq::<u8>::empty());
            assert(pow256(0) == 1);
        }
        // digits holds the low-order bytes, least significant first
        while i < 12
            invariant
                0 <= i <= 12,
                digits@.len() == i,
                self.value as nat == (rest as nat) * pow256(i as nat) + be_value(digits@.reverse()),
                (rest as nat) < pow256((12 - i) as nat),
            decreases 12 - i,
        {
            let d: u8 = (rest % 256) as u8;
            proof {
                let r = rest as nat;
                let p = pow256(i as nat);
                let low = be_value(digits@.reverse());
                assert(digits@.push(d).reverse() =~= seq![d] + digits@.reverse());
                lemma_be_value_prepend(d, digits@.reverse());
                lemma_pow256_unfold(i as nat);
                lemma_pow256_unfold((11 - i) as nat);
                let q = r / 256;
                assert(r == q * 256 + d as nat);
                assert(self.value as nat == q * pow256(i as nat + 1) + (d as nat * p + low)) by (nonlinear_arith)
                    requires
                        self.value as nat == r * p + low,
                        r == q * 256 + d as nat,
                        pow256(i as nat + 1) == 256 * p,
                ;
                assert(q < pow256((11 - i) as nat)) by (nonlinear_arith)
                    requires
                        r < pow256((12 - i) as nat),
                        pow256((12 - i) as nat) == 256 * pow256((11 - i) as nat),
                        q == r / 256,
                ;
            }
            digits.push(d);
            rest = rest / 256;
            i = i + 1;
        }
        let mut bytes: Vec<u8> = Vec::new();
        let mut j: usize = 12;
        while j > 0
            invariant
                0 <= j <= 12,
                digits@.len() == 12,
                bytes@ =~= digits@.reverse().subrange(0, 12 - j as int),
            decreases j,
        {
            j = j - 1;
            bytes.push(digits[j]);
        }
        assert(rest == 0);
        assert(digits@.reverse().subrange(0, 12) =~= digits@.reverse());
        bytes
    }
}

/// 256 to the power `n`.
pub open spec fn pow256(n: nat) -> nat
    decreases n,
{
    if n == 0 {
        1
    } else {
        256 * pow256((n - 1) as nat)
    }
}

proof fn lemma_pow256_unfold(n: nat)
    ensures
        pow256(n + 1) == 256 * pow256(n),
        pow256(n) >= 1,
    decreases n,
{
    if n > 0 {
        lemma_pow256_unfold((n - 1) as nat);
    }
}

proof fn lemma_pow256_le(n: nat)
    requires
        n <= 12,
    ensures
        pow256(n) <= id_limit(),
    decreases 12 - n,
{
    if n < 12 {
        lemma_pow256_le(n + 1);
        lemma_pow256_unfold(n);
    } else {
        lemma_pow256_twelve();
    }
}

proof fn lemma_pow256_twelve()
    ensures
        pow256(12) == id_limit(),
{
    reveal_with_fuel(pow256, 13);
}

proof fn lemma_be_value_prepend(d: u8, s: Seq<u8>)
    ensures
        be_value(seq![d] + s) == (d as nat) * pow256(s.len()) + be_value(s),
    decreases s.len(),
{
    if s.len() == 0 {
        assert(seq![d] + s =~= seq![d]);
        assert(seq![d].drop_last() =~= Seq::<u8>::empty());
        assert(pow256(0) == 1);
        assert(be_value(Seq::<u8>::empty()) == 0);
        assert(seq![d].last() == d);
        assert(be_value(seq![d]) == be_value(seq![d].drop_last()) * 256 + d as nat);
    } else {
        let t = s.drop_last();
        lemma_be_value_prepend(d, t);
        assert((seq![d] + s).drop_last() =~= seq![d] + t);
        assert((seq![d] + s).last() == s.last());
        lemma_pow256_unfold(t.len());
        let a = be_value(t);
        let p = pow256(t.len());
        assert(((d as nat) * p + a) * 256 + s.last() as nat == (d as nat) * (256 * p) + (a * 256
            + s.last() as nat)) by (nonlinear_arith);
    }
}

/// Two twelve-byte strings that read as the same id are the same bytes, so
/// writing out an id that was read from bytes gives back those very bytes.
pub proof fn law_bytes_id_roundtrip(bytes: Seq<u8>, written: Seq<u8>)
    requires
        bytes.len() == 12,
        written.len() == 12,
        be_value(written) == be_value(bytes),
    ensures
        written == bytes,
{
    lemma_be_value_injective(written, bytes);
}

/// Whether `c` is an ASCII hexadecimal digit, in either case.
pub open spec fn is_hex_digit(c: char) -> bool {
    ('0' <= c && c <= '9') || ('a' <= c && c <= 'f') || ('A' <= c && c <= 'F')
}

/// The value of the hexadecimal digit `c`.
pub open spec fn hex_digit_value(c: char) -> nat {
    if '0' <= c && c <= '9' {
        (c as nat - '0' as nat) as nat
    } else if 'a' <= c && c <= 'f' {
        (c as nat - 'a' as nat + 10) as nat
    } else {
        (c as nat - 'A' as nat + 10) as nat
    }
}

/// The text form of an object id: exactly 24 hexadecimal digits.
pub open spec fn is_object_id_text(s: Seq<char>) -> bool {
    &&& s.len() == 24
    &&& forall|i: int| 0 <= i < s.len() ==> #[trigger] is_hex_digit(s[i])
}

/// The bytes that the hexadecimal text `s` spells, two digits per byte.
pub open spec fn hex_bytes(s: Seq<char>) -> Seq<u8>
    decreases s.len(),
{
    if s.len() < 2 {
        Seq::empty()
    } else {
        seq![(hex_digit_value(s[0]) * 16 + hex_digit_value(s[1])) as u8] + hex_bytes(s.skip(2))
    }
}

/// The id that the object-id text `s` denotes.
pub open spec fn id_of_text(s: Seq<char>) -> nat {
    be_value(hex_bytes(s))
}

/// Calls `bson::oid::ObjectId::parse_str`, which decodes the text with
/// `hex::decode` and accepts it exactly when it decodes to twelve bytes. The
/// contract claims: the text is accepted iff it is 24 hexadecimal digits (upper
/// or lower case), and the bytes handed back are the ones the digit pairs spell.
#[verifier::external_body]
fn parse_object_id_bytes(s: &str) -> (bytes: Option<Vec<u8>>)
    ensures
        bytes is Some <==> is_object_id_text(s@),
        bytes matches Some(b) ==> b@ == hex_bytes(s@) && b@.len() == 12,
{
    match bson::oid::ObjectId::parse_str(s) {
        Ok(id) => Some(id.bytes().to_vec()),
        Err(_) => None,
    }
}

/// Calls `bson::oid::ObjectId::new`, which builds an id from the clock, a
/// per-process random value and a counter. The contract claims only that the
/// result has twelve bytes; which id comes out is left unsaid.
#[verifier::external_body]
fn new_object_id_bytes() -> (bytes: Vec<u8>)
    ensures
        bytes@.len() == 12,
{
    bson::oid::ObjectId::new().bytes().to_vec()
}

impl Oid {
    /// Parses the 24-digit hexadecimal text of an object id.
    pub fn parse(s: &str) -> (id: Option<Oid>)
        ensures
            id is Some <==> is_object_id_text(s@),
            id matches Some(o) ==> o.value == id_of_text(s@) && o.wf(),
    {
        match parse_object_id_bytes(s) {
            Some(b) => Some(Oid::from_bytes(b.as_slice())),
            None => None,
        }
    }

    /// A new object id, made by bson from the clock, a per-process random
    /// value and a counter; it fits in twelve bytes.
    pub fn fresh() -> (id: Oid)
        ensures
            id.wf(),
    {
        let b = new_object_id_bytes();
        Oid::from_bytes(b.as_slice())
    }
}

} // verus!
