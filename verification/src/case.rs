//! Test cases: ordered key/value attributes with exactly-once consumption.

use crate::errors::TestError;
use crate::hex::from_hex;
use crate::hex::hex_decoded;
use crate::hex::hex_val;
use crate::hex::valid_hex;
use crate::text::str_eq;
use vstd::arithmetic::div_mod::lemma_fundamental_div_mod;
use vstd::pervasive::VecAdditionalExecFns;
use vstd::prelude::*;
use vstd::string::StrSliceExecFns;
use vstd::utf8::encode_utf8;

verus! {

/// One declared key/value pair of a test case, with its consumed flag.
#[derive(Debug)]
pub struct Attribute {
    pub key: String,
    pub value: String,
    pub consumed: bool,
}

/// The mathematical image of an [`Attribute`].
pub ghost struct AttrView {
    pub key: Seq<char>,
    pub value: Seq<char>,
    pub consumed: bool,
}

impl View for Attribute {
    type V = AttrView;

    open spec fn view(&self) -> AttrView {
        AttrView { key: self.key@, value: self.value@, consumed: self.consumed }
    }
}

/// A test case: a set of named attributes in file order. Every attribute
/// must be consumed exactly once before the case is reported as passing;
/// this helps catch typos and omissions in the routine under test.
#[derive(Debug)]
pub struct TestCase {
    attributes: Vec<Attribute>,
}

impl View for TestCase {
    type V = Seq<AttrView>;

    closed spec fn view(&self) -> Seq<AttrView> {
        self.attributes@.map_values(|a: Attribute| a@)
    }
}

/// `i` is the index of the first attribute whose key is `key`.
pub open spec fn is_first_match(attrs: Seq<AttrView>, key: Seq<char>, i: int) -> bool {
    &&& 0 <= i < attrs.len()
    &&& attrs[i].key == key
    &&& forall|j: int| 0 <= j < i ==> (#[trigger] attrs[j]).key != key
}

/// Some attribute carries this key.
pub open spec fn has_attr(attrs: Seq<AttrView>, key: Seq<char>) -> bool {
    exists|i: int| 0 <= i < attrs.len() && (#[trigger] attrs[i]).key == key
}

/// `attrs` with the attribute at `i` marked consumed.
pub open spec fn consumed_set(attrs: Seq<AttrView>, i: int) -> Seq<AttrView> {
    attrs.update(i, AttrView { key: attrs[i].key, value: attrs[i].value, consumed: true })
}

/// Every attribute has been read.
pub open spec fn spec_all_consumed(attrs: Seq<AttrView>) -> bool {
    forall|i: int| 0 <= i < attrs.len() ==> (#[trigger] attrs[i]).consumed
}

/// What one lookup of a key against a case finds.
pub ghost enum Lookup {
    /// No attribute has the key.
    Missing,
    /// The first attribute with the key was read before.
    Already { idx: int },
    /// The first attribute with the key is still unread.
    Fresh { idx: int },
}

/// The index of the first attribute whose key is `key`.
pub open spec fn first_match_idx(attrs: Seq<AttrView>, key: Seq<char>) -> int {
    choose|i: int| is_first_match(attrs, key, i)
}

/// The outcome of looking up `key`, as the consuming accessors see it.
pub open spec fn spec_lookup(attrs: Seq<AttrView>, key: Seq<char>) -> Lookup {
    if !has_attr(attrs, key) {
        Lookup::Missing
    } else {
        let i = first_match_idx(attrs, key);
        if attrs[i].consumed {
            Lookup::Already { idx: i }
        } else {
            Lookup::Fresh { idx: i }
        }
    }
}

/// A key held by some attribute has a first holder.
proof fn lemma_first_match_exists(attrs: Seq<AttrView>, key: Seq<char>, w: int)
    requires
        0 <= w < attrs.len(),
        attrs[w].key == key,
    ensures
        exists|i: int| #[trigger] is_first_match(attrs, key, i),
    decreases w,
{
    if forall|j: int| 0 <= j < w ==> (#[trigger] attrs[j]).key != key {
        assert(is_first_match(attrs, key, w));
    } else {
        let j = choose|j: int| 0 <= j < w && (#[trigger] attrs[j]).key == key;
        lemma_first_match_exists(attrs, key, j);
    }
}

/// Pins [`spec_lookup`] down once a first match is known.
proof fn lemma_lookup_at(attrs: Seq<AttrView>, key: Seq<char>, i: int)
    requires
        is_first_match(attrs, key, i),
    ensures
        spec_lookup(attrs, key) == if attrs[i].consumed {
            Lookup::Already { idx: i }
        } else {
            Lookup::Fresh { idx: i }
        },
{
    assert(has_attr(attrs, key));
    lemma_first_match_exists(attrs, key, i);
    let c = first_match_idx(attrs, key);
    assert(is_first_match(attrs, key, c));
    if c < i {
        assert(attrs[c].key != key);
    } else if i < c {
        assert(attrs[i].key != key);
    }
}

impl TestCase {
    /// A case with no attributes yet.
    pub fn new() -> (r: TestCase)
        ensures
            r@ == Seq::<AttrView>::empty(),
    {
        let r = TestCase { attributes: Vec::new() };
        proof {
            assert(r@ =~= Seq::<AttrView>::empty());
        }
        r
    }

    /// Append one unconsumed attribute.
    ///
    /// Duplicate keys are accepted here, as in the file grammar; only the
    /// first occurrence is ever readable, so a duplicate is left unconsumed
    /// and surfaces as an `UnconsumedAttributes` failure of the case.
    pub fn push_attribute(&mut self, key: String, value: String)
        ensures
            final(self)@ == old(self)@.push(AttrView { key: key@, value: value@, consumed: false }),
    {
        let ghost prior = self@;
        self.attributes.push(Attribute { key, value, consumed: false });
        proof {
            assert(self@ =~= prior.push(
                AttrView { key: key@, value: value@, consumed: false },
            ));
        }
    }

    /// How many attributes the case declares.
    pub fn attr_count(&self) -> (n: usize)
        ensures
            n == self@.len(),
    {
        self.attributes.len()
    }

    /// The key of the attribute at `i`, in file order.
    pub fn attr_key(&self, i: usize) -> (r: &String)
        requires
            i < self@.len(),
        ensures
            r@ == self@[i as int].key,
    {
        &self.attributes[i].key
    }

    /// The raw value of the attribute at `i`.
    pub fn attr_value(&self, i: usize) -> (r: &String)
        requires
            i < self@.len(),
        ensures
            r@ == self@[i as int].value,
    {
        &self.attributes[i].value
    }

    /// Whether the attribute at `i` has been read.
    pub fn attr_consumed(&self, i: usize) -> (r: bool)
        requires
            i < self@.len(),
        ensures
            r == self@[i as int].consumed,
    {
        self.attributes[i].consumed
    }

    /// The completion check the driver runs after a callback succeeds:
    /// whether every attribute's consumed flag is set.
    pub fn all_consumed(&self) -> (r: bool)
        ensures
            r == spec_all_consumed(self@),
    {
        let n = self.attributes.len();
        let mut i: usize = 0;
        while i < n
            invariant
                i <= n,
                n == self@.len(),
                forall|j: int| 0 <= j < i ==> (#[trigger] self@[j]).consumed,
            decreases n - i,
        {
            if !self.attributes[i].consumed {
                proof {
                    assert(!self@[i as int].consumed);
                }
                return false;
            }
            i = i + 1;
        }
        true
    }

    /// Like `consume_string`, except a missing key is reported as `None`
    /// rather than as an error.
    pub fn consume_optional_string(&mut self, key: &str) -> (r: Result<Option<String>, TestError>)
        ensures
            ({
                match spec_lookup(old(self)@, key@) {
                    Lookup::Missing => r == Ok::<Option<String>, TestError>(None::<String>)
                        && *final(self) == *old(self),
                    Lookup::Already { idx } => r == Err::<Option<String>, TestError>(
                        TestError::AlreadyConsumed,
                    ) && *final(self) == *old(self),
                    Lookup::Fresh { idx } => (r matches Ok(Some(v)) && v@ == old(
                        self,
                    )@[idx].value) && final(self)@ == consumed_set(old(self)@, idx),
                }
            }),
    {
        let n = self.attributes.len();
        let mut i: usize = 0;
        while i < n
            invariant
                i <= n,
                n == self@.len(),
                *self == *old(self),
                forall|j: int| 0 <= j < i ==> (#[trigger] self@[j]).key != key@,
            decreases n - i,
        {
            if str_eq(self.attributes[i].key.as_str(), key) {
                proof {
                    assert(is_first_match(self@, key@, i as int));
                    lemma_lookup_at(self@, key@, i as int);
                }
                if self.attributes[i].consumed {
                    return Err(TestError::AlreadyConsumed);
                }
                let value = self.attributes[i].value.clone();
                let updated = Attribute {
                    key: self.attributes[i].key.clone(),
                    value: self.attributes[i].value.clone(),
                    consumed: true,
                };
                self.attributes.set(i, updated);
                proof {
                    assert(self@ =~= consumed_set(old(self)@, i as int));
                }
                return Ok(Some(value));
            }
            i = i + 1;
        }
        proof {
            assert(!has_attr(self@, key@));
        }
        Ok(None)
    }

    /// The raw value of the attribute named `key`, without interpretation.
    /// The attribute is marked consumed; a second read of the same key
    /// fails with `AlreadyConsumed`, a key never declared with
    /// `MissingAttribute`.
    pub fn consume_string(&mut self, key: &str) -> (r: Result<String, TestError>)
        ensures
            ({
                match spec_lookup(old(self)@, key@) {
                    Lookup::Missing => r == Err::<String, TestError>(TestError::MissingAttribute)
                        && *final(self) == *old(self),
                    Lookup::Already { idx } => r == Err::<String, TestError>(
                        TestError::AlreadyConsumed,
                    ) && *final(self) == *old(self),
                    Lookup::Fresh { idx } => (r matches Ok(v) && v@ == old(self)@[idx].value)
                        && final(self)@ == consumed_set(old(self)@, idx),
                }
            }),
    {
        match self.consume_optional_string(key) {
            Ok(Some(s)) => Ok(s),
            Ok(None) => Err(TestError::MissingAttribute),
            Err(e) => Err(e),
        }
    }

    /// The value of the attribute named `key`, decoded as a byte sequence:
    /// either an even-length hex string, or a double-quoted UTF-8 string
    /// taken verbatim (the only way to write the empty byte sequence, `""`).
    pub fn consume_bytes(&mut self, key: &str) -> (r: Result<Vec<u8>, TestError>)
        ensures
            ({
                match spec_lookup(old(self)@, key@) {
                    Lookup::Missing => r == Err::<Vec<u8>, TestError>(TestError::MissingAttribute)
                        && *final(self) == *old(self),
                    Lookup::Already { idx } => r == Err::<Vec<u8>, TestError>(
                        TestError::AlreadyConsumed,
                    ) && *final(self) == *old(self),
                    Lookup::Fresh { idx } => final(self)@ == consumed_set(old(self)@, idx)
                        && (match spec_decode_value(old(self)@[idx].value) {
                        Ok(b) => r matches Ok(v) && v@ == b,
                        Err(e) => r == Err::<Vec<u8>, TestError>(e),
                    }),
                }
            }),
    {
        let s = match self.consume_string(key) {
            Ok(s) => s,
            Err(e) => {
                return Err(e);
            },
        };
        let st = s.as_str();
        let len = st.unicode_len();
        if len > 0 && st.get_char(0) == '"' {
            if len >= 2 && st.get_char(len - 1) == '"' {
                let inner = st.substring_char(1, len - 1);
                Ok(inner.as_bytes_vec())
            } else {
                Err(TestError::MalformedQuoted)
            }
        } else {
            from_hex(st)
        }
    }

    /// The value of the attribute named `key`, read as a decimal integer.
    #[verifier::loop_isolation(false)]
    pub fn consume_usize(&mut self, key: &str) -> (r: Result<usize, TestError>)
        ensures
            ({
                match spec_lookup(old(self)@, key@) {
                    Lookup::Missing => r == Err::<usize, TestError>(TestError::MissingAttribute)
                        && *final(self) == *old(self),
                    Lookup::Already { idx } => r == Err::<usize, TestError>(
                        TestError::AlreadyConsumed,
                    ) && *final(self) == *old(self),
                    Lookup::Fresh { idx } => final(self)@ == consumed_set(old(self)@, idx) && ({
                        let v = old(self)@[idx].value;
                        if valid_decimal(v) && dec_value(v) <= usize::MAX as int {
                            r matches Ok(n) && n as int == dec_value(v)
                        } else {
                            r == Err::<usize, TestError>(TestError::MalformedInteger)
                        }
                    }),
                }
            }),
    {
        let s = match self.consume_string(key) {
            Ok(s) => s,
            Err(e) => {
                return Err(e);
            },
        };
        let st = s.as_str();
        let len = st.unicode_len();
        if len == 0 {
            return Err(TestError::MalformedInteger);
        }
        let mut acc: usize = 0;
        let mut i: usize = 0;
        proof {
            assert(st@.take(0) =~= Seq::<char>::empty());
        }
        while i < len
            invariant
                i <= len,
                len == st@.len(),
                forall|j: int| 0 <= j < i ==> is_dec_digit(#[trigger] st@[j]),
                acc as int == dec_value(st@.take(i as int)),
            decreases len - i,
        {
            let c = st.get_char(i);
            let d: u8 = match crate::hex::hex_digit_value(c) {
                Some(d) => d,
                None => {
                    proof {
                        assert(!is_dec_digit(st@[i as int]));
                        assert(!valid_decimal(st@));
                    }
                    return Err(TestError::MalformedInteger);
                },
            };
            if d > 9 {
                proof {
                    assert(!is_dec_digit(st@[i as int]));
                    assert(!valid_decimal(st@));
                }
                return Err(TestError::MalformedInteger);
            }
            let dl: usize = d as usize;
            let limit = (usize::MAX - dl) / 10;
            proof {
                lemma_fundamental_div_mod((usize::MAX - dl) as int, 10);
                assert(st@.take(i as int + 1).drop_last() =~= st@.take(i as int));
                assert(st@.take(i as int + 1).last() == st@[i as int]);
            }
            if acc > limit {
                proof {
                    assert(dec_value(st@.take(i as int + 1)) > usize::MAX as int);
                    if valid_decimal(st@) {
                        lemma_dec_value_prefix(st@, i as int + 1);
                    }
                }
                return Err(TestError::MalformedInteger);
            }
            acc = acc * 10 + dl;
            i = i + 1;
        }
        proof {
            assert(st@.take(len as int) =~= st@);
        }
        Ok(acc)
    }

    /// The value of the attribute named `key`, resolved through the fixed
    /// digest-algorithm vocabulary. "SHA224" is recognized but deliberately
    /// unsupported, so it maps to `None` rather than to an error; a name
    /// outside the vocabulary is `UnsupportedAlgorithm`.
    pub fn consume_digest_alg(&mut self, key: &str) -> (r: Result<Option<DigestAlg>, TestError>)
        ensures
            ({
                match spec_lookup(old(self)@, key@) {
                    Lookup::Missing => r == Err::<Option<DigestAlg>, TestError>(
                        TestError::MissingAttribute,
                    ) && *final(self) == *old(self),
                    Lookup::Already { idx } => r == Err::<Option<DigestAlg>, TestError>(
                        TestError::AlreadyConsumed,
                    ) && *final(self) == *old(self),
                    Lookup::Fresh { idx } => final(self)@ == consumed_set(old(self)@, idx) && r
                        == spec_digest_alg(old(self)@[idx].value),
                }
            }),
    {
        let s = match self.consume_string(key) {
            Ok(s) => s,
            Err(e) => {
                return Err(e);
            },
        };
        let st = s.as_str();
        if str_eq(st, "SHA1") {
            Ok(Some(DigestAlg::Sha1))
        } else if str_eq(st, "SHA224") {
            Ok(None)
        } else if str_eq(st, "SHA256") {
            Ok(Some(DigestAlg::Sha256))
        } else if str_eq(st, "SHA384") {
            Ok(Some(DigestAlg::Sha384))
        } else if str_eq(st, "SHA512") {
            Ok(Some(DigestAlg::Sha512))
        } else if str_eq(st, "SHA512_256") {
            Ok(Some(DigestAlg::Sha512_256))
        } else {
            Err(TestError::UnsupportedAlgorithm)
        }
    }
}

/// How an attribute value denotes bytes: quoted verbatim UTF-8, or hex.
pub open spec fn spec_decode_value(v: Seq<char>) -> Result<Seq<u8>, TestError> {
    if v.len() > 0 && v[0] == '"' {
        if v.len() >= 2 && v[v.len() - 1] == '"' {
            Ok(encode_utf8(v.subrange(1, v.len() - 1)))
        } else {
            Err(TestError::MalformedQuoted)
        }
    } else {
        if valid_hex(v) {
            Ok(hex_decoded(v))
        } else {
            Err(TestError::MalformedHex)
        }
    }
}

pub open spec fn is_dec_digit(c: char) -> bool {
    0 <= hex_val(c) <= 9
}

/// A string `consume_usize` accepts, before the range check: a non-empty
/// run of decimal digits.
pub open spec fn valid_decimal(s: Seq<char>) -> bool {
    s.len() > 0 && forall|i: int| 0 <= i < s.len() ==> is_dec_digit(#[trigger] s[i])
}

/// The number denoted by a string of decimal digits, most significant first.
pub open spec fn dec_value(s: Seq<char>) -> int
    decreases s.len(),
{
    if s.len() == 0 {
        0
    } else {
        dec_value(s.drop_last()) * 10 + hex_val(s.last())
    }
}

proof fn lemma_dec_value_nonneg(s: Seq<char>)
    requires
        forall|i: int| 0 <= i < s.len() ==> is_dec_digit(#[trigger] s[i]),
    ensures
        dec_value(s) >= 0,
    decreases s.len(),
{
    if s.len() > 0 {
        assert forall|i: int| 0 <= i < s.drop_last().len() implies is_dec_digit(
            #[trigger] s.drop_last()[i],
        ) by {
            assert(s.drop_last()[i] == s[i]);
        }
        lemma_dec_value_nonneg(s.drop_last());
    }
}

/// Digits only extend a number: every prefix denotes at most the whole.
proof fn lemma_dec_value_prefix(s: Seq<char>, k: int)
    requires
        forall|i: int| 0 <= i < s.len() ==> is_dec_digit(#[trigger] s[i]),
        0 <= k <= s.len(),
    ensures
        dec_value(s.take(k)) <= dec_value(s),
    decreases s.len(),
{
    if k == s.len() {
        assert(s.take(k) =~= s);
    } else {
        let d = s.drop_last();
        assert forall|i: int| 0 <= i < d.len() implies is_dec_digit(#[trigger] d[i]) by {
            assert(d[i] == s[i]);
        }
        assert(d.take(k) =~= s.take(k));
        lemma_dec_value_prefix(d, k);
        lemma_dec_value_nonneg(d);
    }
}

/// The digest algorithms a test vector can name.
#[allow(non_camel_case_types)]
#[derive(Clone, Copy, Debug, PartialEq, Eq, Structural)]
pub enum DigestAlg {
    Sha1,
    Sha256,
    Sha384,
    Sha512,
    Sha512_256,
}

/// The fixed name table behind `consume_digest_alg`.
pub open spec fn spec_digest_alg(name: Seq<char>) -> Result<Option<DigestAlg>, TestError> {
    if name == "SHA1"@ {
        Ok(Some(DigestAlg::Sha1))
    } else if name == "SHA224"@ {
        Ok(None)
    } else if name == "SHA256"@ {
        Ok(Some(DigestAlg::Sha256))
    } else if name == "SHA384"@ {
        Ok(Some(DigestAlg::Sha384))
    } else if name == "SHA512"@ {
        Ok(Some(DigestAlg::Sha512))
    } else if name == "SHA512_256"@ {
        Ok(Some(DigestAlg::Sha512_256))
    } else {
        Err(TestError::UnsupportedAlgorithm)
    }
}

/// A quoted value gives back exactly the bytes between the quotes: for any
/// text without an embedded quote, wrapping it in double quotes and decoding
/// yields its UTF-8 bytes — the empty sequence included.
pub proof fn lemma_quoted_round_trip(inner: Seq<char>)
    requires
        forall|i: int| 0 <= i < inner.len() ==> inner[i] != '"',
    ensures
        spec_decode_value(seq!['"'] + inner + seq!['"']) == Ok::<Seq<u8>, TestError>(
            encode_utf8(inner),
        ),
{
    let v = seq!['"'] + inner + seq!['"'];
    assert(v.len() == inner.len() + 2);
    assert(v[0] == '"');
    assert(v[v.len() - 1] == '"');
    assert(v.subrange(1, v.len() - 1) =~= inner);
}

/// Reading an attribute a second time fails: after one successful read of
/// `key`, the same lookup finds the attribute consumed, so the accessors
/// return `AlreadyConsumed`.
pub proof fn lemma_second_read_already_consumed(attrs: Seq<AttrView>, key: Seq<char>, i: int)
    requires
        is_first_match(attrs, key, i),
        !attrs[i].consumed,
    ensures
        spec_lookup(attrs, key) == (Lookup::Fresh { idx: i }),
        spec_lookup(consumed_set(attrs, i), key) == (Lookup::Already { idx: i }),
{
    lemma_lookup_at(attrs, key, i);
    let after = consumed_set(attrs, i);
    assert(after[i].key == key && after[i].consumed);
    assert(forall|j: int| 0 <= j < i ==> (#[trigger] after[j]).key == attrs[j].key);
    assert(is_first_match(after, key, i));
    lemma_lookup_at(after, key, i);
}

} // verus!
