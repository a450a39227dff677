//! Content hashes, and their text.

use vstd::prelude::*;
use vstd::string::*;

use crate::sort;
use crate::sort::Sortable;
use crate::text;

verus! {

/// The digit that writes down a number below 16.
pub open spec fn hex_digit(n: int) -> char {
    if n < 10 {
        ('0' as int + n) as char
    } else {
        ('a' as int + (n - 10)) as char
    }
}

/// Two lower-case digits for each byte, the upper half first.
pub open spec fn hex_text(bytes: Seq<u8>) -> Seq<char> {
    Seq::new(
        2 * bytes.len(),
        |i: int|
            hex_digit(
                if i % 2 == 0 {
                    bytes[i / 2] as int / 16
                } else {
                    bytes[i / 2] as int % 16
                },
            ),
    )
}

/// `hex::encode`: the bytes as lower-case hexadecimal text, two digits a byte.
#[verifier::external_body]
pub(crate) fn hex_encode(bytes: &Vec<u8>) -> (r: String)
    ensures
        r@ == hex_text(bytes@),
{
    hex::encode(bytes)
}

/// The number that a digit of either case writes down.
pub open spec fn hex_value(c: char) -> Option<int> {
    if '0' <= c <= '9' {
        Some(c as int - '0' as int)
    } else if 'a' <= c <= 'f' {
        Some(c as int - 'a' as int + 10)
    } else if 'A' <= c <= 'F' {
        Some(c as int - 'A' as int + 10)
    } else {
        None
    }
}

/// Whether text writes down bytes, two digits a byte.
pub open spec fn is_hex(s: Seq<char>) -> bool {
    s.len() % 2 == 0 && forall|i: int| 0 <= i < s.len() ==> hex_value(#[trigger] s[i]) is Some
}

/// The bytes that hexadecimal text writes down.
pub open spec fn hex_bytes(s: Seq<char>) -> Seq<u8> {
    Seq::new(
        s.len() / 2,
        |i: int| (16 * hex_value(s[2 * i])->0 + hex_value(s[2 * i + 1])->0) as u8,
    )
}

/// `hex::decode`: the bytes that hexadecimal text of either case writes down, and
/// nothing for text that is not two digits a byte.
#[verifier::external_body]
pub(crate) fn hex_decode(s: &str) -> (r: Option<Vec<u8>>)
    ensures
        match r {
            Some(bytes) => is_hex(s@) && bytes@ == hex_bytes(s@),
            None => !is_hex(s@),
        },
{
    hex::decode(s).ok()
}

/// `blake3::Hasher`, the state of a hash that is under way.
#[verifier::external_type_specification]
#[verifier::external_body]
pub struct ExBlake3Hasher(blake3::Hasher);

/// The bytes that a `blake3::Hasher` was fed since it was made.
pub uninterp spec fn blake3_fed(h: blake3::Hasher) -> Seq<u8>;

/// The 32 bytes that BLAKE3 gives for some input.
pub uninterp spec fn blake3_digest(bytes: Seq<u8>) -> Seq<u8>;

/// `blake3::Hasher::new`: a hasher that was fed nothing.
#[verifier::external_body]
pub(crate) fn blake3_new() -> (h: blake3::Hasher)
    ensures
        blake3_fed(h) == Seq::<u8>::empty(),
{
    blake3::Hasher::new()
}

/// `blake3::Hasher::update`: feeds more bytes.
#[verifier::external_body]
pub(crate) fn blake3_update(h: &mut blake3::Hasher, bytes: &Vec<u8>)
    ensures
        blake3_fed(*final(h)) == blake3_fed(*old(h)) + bytes@,
{
    h.update(bytes);
}

/// `blake3::Hasher::finalize`: the hash is determined by the bytes that were fed,
/// however they were split into updates, and has 32 bytes.
#[verifier::external_body]
pub(crate) fn blake3_finalize(h: &blake3::Hasher) -> (r: Vec<u8>)
    ensures
        r@ == blake3_digest(blake3_fed(*h)),
        r@.len() == 32,
{
    h.finalize().as_bytes().to_vec()
}

/// The key of a piece of content in a content-addressed store: its hash.
#[derive(Debug)]
pub struct Key {
    bytes: Vec<u8>,
}

impl View for Key {
    type V = Seq<u8>;

    closed spec fn view(&self) -> Seq<u8> {
        self.bytes@
    }
}

impl Key {
    #[verifier::type_invariant]
    spec fn inv(self) -> bool {
        self.bytes@.len() == 32
    }

    /// The key that consists of the given bytes, of which there must be 32.
    pub fn from_bytes(bytes: Vec<u8>) -> (r: Option<Key>)
        ensures
            match r {
                Some(k) => bytes@.len() == 32 && k@ == bytes@,
                None => bytes@.len() != 32,
            },
    {
        if bytes.len() == 32 {
            Some(Key { bytes })
        } else {
            None
        }
    }

    /// The key of some content.
    pub fn from_buffer(content: &Vec<u8>) -> (r: Key)
        ensures
            r@ == blake3_digest(content@),
    {
        let mut h = blake3_new();
        blake3_update(&mut h, content);
        assert(Seq::<u8>::empty() + content@ =~= content@);
        Key { bytes: blake3_finalize(&h) }
    }

    /// The key of what a hasher was fed.
    pub(crate) fn from_digest(h: &blake3::Hasher) -> (r: Key)
        ensures
            r@ == blake3_digest(blake3_fed(*h)),
    {
        Key { bytes: blake3_finalize(h) }
    }

    /// The key that hexadecimal text writes down, which has 64 digits.
    pub fn from_hex(s: &str) -> (r: Option<Key>)
        ensures
            match r {
                Some(k) => is_hex(s@) && s@.len() == 64 && k@ == hex_bytes(s@),
                None => !(is_hex(s@) && s@.len() == 64),
            },
    {
        match hex_decode(s) {
            Some(bytes) => Key::from_bytes(bytes),
            None => None,
        }
    }

    /// The key as text.
    pub fn to_hex(&self) -> (r: String)
        ensures
            r@ == hex_text(self@),
            r@.len() == 64,
    {
        proof {
            use_type_invariant(self);
        }
        hex_encode(&self.bytes)
    }

    /// Whether two keys are the same.
    pub fn same(&self, other: &Key) -> (r: bool)
        ensures
            r == (self@ == other@),
    {
        proof {
            use_type_invariant(self);
            use_type_invariant(other);
        }
        let mut i: usize = 0;
        while i < self.bytes.len()
            invariant
                i <= self.bytes.len(),
                self.bytes.len() == other.bytes.len(),
                forall|j: int| 0 <= j < i ==> self.bytes@[j] == other.bytes@[j],
            decreases self.bytes.len() - i,
        {
            if self.bytes[i] != other.bytes[i] {
                return false;
            }
            i += 1;
        }
        assert(self.bytes@ =~= other.bytes@);
        true
    }
}

impl Clone for Key {
    fn clone(&self) -> (r: Self)
        ensures
            r@ == self@,
    {
        proof {
            use_type_invariant(self);
        }
        let bytes = self.bytes.clone();
        assert(bytes@ =~= self.bytes@);
        Key { bytes }
    }
}

proof fn lemma_hex_digit_injective(a: int, b: int)
    requires
        0 <= a < 16,
        0 <= b < 16,
        hex_digit(a) == hex_digit(b),
    ensures
        a == b,
{
}

/// Different bytes have different text.
pub proof fn lemma_hex_text_injective(a: Seq<u8>, b: Seq<u8>)
    requires
        hex_text(a) == hex_text(b),
    ensures
        a == b,
{
    assert(hex_text(a).len() == 2 * a.len());
    assert(hex_text(b).len() == 2 * b.len());
    assert forall|i: int| 0 <= i < a.len() implies a[i] == b[i] by {
        assert(hex_text(a)[2 * i] == hex_digit(a[i] as int / 16));
        assert(hex_text(b)[2 * i] == hex_digit(b[i] as int / 16));
        assert(hex_text(a)[2 * i + 1] == hex_digit(a[i] as int % 16));
        assert(hex_text(b)[2 * i + 1] == hex_digit(b[i] as int % 16));
        lemma_hex_digit_injective(a[i] as int / 16, b[i] as int / 16);
        lemma_hex_digit_injective(a[i] as int % 16, b[i] as int % 16);
    }
    assert(a =~= b);
}

/// Bytes are read back from their text.
pub proof fn law_hex_text_is_read_back(bytes: Seq<u8>)
    ensures
        is_hex(hex_text(bytes)),
        hex_bytes(hex_text(bytes)) == bytes,
{
    let s = hex_text(bytes);
    assert forall|i: int| 0 <= i < s.len() implies hex_value(#[trigger] s[i]) is Some by {
        let n = if i % 2 == 0 {
            bytes[i / 2] as int / 16
        } else {
            bytes[i / 2] as int % 16
        };
        assert(s[i] == hex_digit(n));
    }
    assert forall|i: int| 0 <= i < bytes.len() implies hex_bytes(s)[i] == bytes[i] by {
        assert(s[2 * i] == hex_digit(bytes[i] as int / 16));
        assert(s[2 * i + 1] == hex_digit(bytes[i] as int % 16));
    }
    assert(hex_bytes(s) =~= bytes);
}

/// Whether bytes come before others in a dictionary, or are the same.
pub open spec fn bytes_at_most(a: Seq<u8>, b: Seq<u8>) -> bool
    decreases a.len(),
{
    if a.len() == 0 {
        true
    } else if b.len() == 0 {
        false
    } else if a[0] != b[0] {
        a[0] < b[0]
    } else {
        bytes_at_most(a.skip(1), b.skip(1))
    }
}

/// Bytes are in a dictionary one after the other.
pub proof fn lemma_bytes_at_most_total(a: Seq<u8>, b: Seq<u8>)
    ensures
        bytes_at_most(a, b) || bytes_at_most(b, a),
        bytes_at_most(a, b) && bytes_at_most(b, a) <==> a == b,
    decreases a.len(),
{
    if a.len() > 0 && b.len() > 0 && a[0] == b[0] {
        lemma_bytes_at_most_total(a.skip(1), b.skip(1));
        if bytes_at_most(a, b) && bytes_at_most(b, a) {
            assert(a =~= seq![a[0]] + a.skip(1));
            assert(b =~= seq![b[0]] + b.skip(1));
        }
    } else if a.len() == 0 && b.len() == 0 {
        assert(a =~= b);
    }
}

/// What comes before what comes before some bytes comes before those.
pub proof fn lemma_bytes_at_most_transitive(a: Seq<u8>, b: Seq<u8>, c: Seq<u8>)
    requires
        bytes_at_most(a, b),
        bytes_at_most(b, c),
    ensures
        bytes_at_most(a, c),
    decreases a.len(),
{
    if a.len() > 0 && a[0] == b[0] && b[0] == c[0] {
        lemma_bytes_at_most_transitive(a.skip(1), b.skip(1), c.skip(1));
    }
}

impl Sortable for Key {
    open spec fn may_precede(self, other: Self) -> bool {
        bytes_at_most(self@, other@)
    }

    proof fn one_may_precede(a: Self, b: Self) {
        lemma_bytes_at_most_total(a@, b@);
    }

    proof fn precedence_carries_over(a: Self, b: Self, c: Self) {
        lemma_bytes_at_most_transitive(a@, b@, c@);
    }

    fn precedes(&self, other: &Self) -> (r: bool) {
        let ghost a = self@;
        let ghost b = other@;
        let mut i: usize = 0;
        assert(a.skip(0) =~= a && b.skip(0) =~= b);
        while i < self.bytes.len() && i < other.bytes.len() && self.bytes[i] == other.bytes[i]
            invariant
                i <= self.bytes.len(),
                i <= other.bytes.len(),
                a == self.bytes@,
                b == other.bytes@,
                bytes_at_most(a, b) == bytes_at_most(a.skip(i as int), b.skip(i as int)),
            decreases self.bytes.len() - i,
        {
            assert(a.skip(i as int).skip(1) =~= a.skip(i + 1));
            assert(b.skip(i as int).skip(1) =~= b.skip(i + 1));
            i += 1;
        }
        if i >= self.bytes.len() {
            true
        } else if i >= other.bytes.len() {
            false
        } else {
            self.bytes[i] < other.bytes[i]
        }
    }
}

/// A set of keys, in order.
#[derive(Debug)]
pub struct KeySet {
    keys: Vec<Key>,
}

impl View for KeySet {
    type V = Set<Seq<u8>>;

    closed spec fn view(&self) -> Set<Seq<u8>> {
        Set::new(|k: Seq<u8>| exists|i: int| 0 <= i < self.keys@.len() && self.keys@[i]@ == k)
    }
}

impl KeySet {
    #[verifier::type_invariant]
    spec fn inv(self) -> bool {
        sort::is_increasing(self.keys@)
    }

    /// No keys.
    pub fn new() -> (r: KeySet)
        ensures
            r@ == Set::<Seq<u8>>::empty(),
    {
        let r = KeySet { keys: Vec::new() };
        assert(r@ =~= Set::empty());
        r
    }

    /// Whether a key is in the set.
    pub fn contains(&self, key: &Key) -> (r: bool)
        ensures
            r == self@.contains(key@),
    {
        let mut i: usize = 0;
        while i < self.keys.len()
            invariant
                i <= self.keys.len(),
                forall|j: int| 0 <= j < i ==> (#[trigger] self.keys@[j])@ != key@,
            decreases self.keys.len() - i,
        {
            if self.keys[i].same(key) {
                return true;
            }
            i += 1;
        }
        false
    }

    /// Adds a key. Tells whether it was not there before.
    pub fn insert(&mut self, key: Key) -> (r: bool)
        ensures
            final(self)@ == old(self)@.insert(key@),
            r == !old(self)@.contains(key@),
    {
        proof {
            use_type_invariant(&*self);
        }
        if self.contains(&key) {
            assert(self@ =~= self@.insert(key@));
            return false;
        }
        let ghost before = self.keys@;
        let mut keys: Vec<Key> = Vec::new();
        std::mem::swap(&mut keys, &mut self.keys);
        proof {
            assert forall|i: int| 0 <= i < before.len() implies !sort::same_place(
                #[trigger] before[i],
                key,
            ) by {
                lemma_bytes_at_most_total(before[i]@, key@);
            }
        }
        sort::place_once(&mut keys, key);
        let ghost n = choose|n: int|
            0 <= n <= before.len() && keys@ == #[trigger] before.insert(n, key);
        self.keys = keys;
        proof {
            assert forall|k: Seq<u8>| self@.contains(k) == old(self)@.insert(key@).contains(k) by {
                if old(self)@.contains(k) {
                    let i = choose|i: int| 0 <= i < before.len() && before[i]@ == k;
                    if i < n {
                        assert(self.keys@[i]@ == k);
                    } else {
                        assert(self.keys@[i + 1]@ == k);
                    }
                }
                if k == key@ {
                    assert(self.keys@[n]@ == k);
                }
                if self@.contains(k) {
                    let i = choose|i: int| 0 <= i < self.keys@.len() && self.keys@[i]@ == k;
                    if i < n {
                        assert(before[i]@ == k);
                    } else if i > n {
                        assert(before[i - 1]@ == k);
                    }
                }
            }
            assert(self@ =~= old(self)@.insert(key@));
        }
        true
    }

    /// The keys, each once, in order.
    pub fn keys(&self) -> (r: &Vec<Key>)
        ensures
            forall|k: Seq<u8>| #[trigger]
                self@.contains(k) <==> exists|i: int| 0 <= i < r@.len() && (#[trigger] r@[i])@ == k,
            sort::is_increasing(r@),
    {
        proof {
            use_type_invariant(self);
        }
        &self.keys
    }
}

/// Bytes are in the order of the first one in which they differ, and what goes on comes
/// after what ends.
pub proof fn law_bytes_are_in_dictionary_order(a: Seq<u8>, b: Seq<u8>, i: int)
    requires
        0 <= i <= a.len(),
        0 <= i <= b.len(),
        forall|j: int| 0 <= j < i ==> #[trigger] a[j] == b[j],
    ensures
        i == a.len() ==> bytes_at_most(a, b),
        i == b.len() && i < a.len() ==> !bytes_at_most(a, b),
        i < a.len() && i < b.len() && a[i] != b[i] ==> (bytes_at_most(a, b) <==> a[i] < b[i]),
    decreases i,
{
    if i > 0 {
        assert(a[0] == b[0]);
        let x = a.skip(1);
        let y = b.skip(1);
        assert forall|j: int| 0 <= j < i - 1 implies #[trigger] x[j] == y[j] by {
            assert(a[j + 1] == b[j + 1]);
        }
        law_bytes_are_in_dictionary_order(x, y, i - 1);
    }
}

/// A byte is written with the digits of its two halves, the upper half first.
pub proof fn law_bytes_have_two_digits(bytes: Seq<u8>, i: int)
    requires
        0 <= i < bytes.len(),
    ensures
        hex_text(bytes).len() == 2 * bytes.len(),
        hex_text(bytes)[2 * i] == "0123456789abcdef"@[bytes[i] as int / 16],
        hex_text(bytes)[2 * i + 1] == "0123456789abcdef"@[bytes[i] as int % 16],
{
    reveal_strlit("0123456789abcdef");
    let high = bytes[i] as int / 16;
    let low = bytes[i] as int % 16;
    assert(hex_digit(high) == "0123456789abcdef"@[high]);
    assert(hex_digit(low) == "0123456789abcdef"@[low]);
}

/// A digit is read in either case, and nothing else is a digit.
pub proof fn law_digits_are_read_in_either_case(n: int, c: char)
    requires
        0 <= n < 16,
    ensures
        hex_value("0123456789abcdef"@[n]) == Some(n),
        hex_value("0123456789ABCDEF"@[n]) == Some(n),
        hex_value(c) is Some <==> "0123456789abcdef"@.contains(c) || "0123456789ABCDEF"@.contains(
            c,
        ),
{
    reveal_strlit("0123456789abcdef");
    reveal_strlit("0123456789ABCDEF");
    if let Some(d) = hex_value(c) {
        assert("0123456789abcdef"@[d] == c || "0123456789ABCDEF"@[d] == c);
    }
}

} // verus!
