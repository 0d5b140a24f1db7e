//! Signed transactions: an ordered list of instructions and the metadata,
//! which together are the payload, and the signatures made over it. The
//! payload alone gives a transaction its identity.
//!
//! On the wire a transaction is a version byte, five lists (the
//! instructions, the metadata's keys, the metadata's values, the signers'
//! public keys and the signatures' bytes) and a byte string with one byte
//! for the scheme of each signature.

use vstd::prelude::*;
use crate::crypto::algorithm_tagged;
use crate::crypto::tag_of;
use crate::crypto::Algorithm;
use crate::error::CryptoError;
use crate::error::DecodeError;
use crate::error::Error;
use crate::hextext::from_hex;
use crate::hextext::hex_bytes;
use crate::hextext::is_hex;
use crate::hextext::lemma_hex_round_trip;
use crate::hextext::lower_hex;
use crate::hextext::to_hex;
use crate::wire::contents;
use crate::wire::fits;
use crate::wire::blob;
use crate::wire::holds_at;
use crate::wire::lemma_blob_canonical;
use crate::wire::lemma_holds_at_join;
use crate::wire::lemma_list_canonical;
use crate::wire::lemma_parse_blob;
use crate::wire::lemma_parse_list;
use crate::wire::list;
use crate::wire::list_fits;
use crate::wire::parse_blob;
use crate::wire::parse_list;
use crate::wire::read_blob;
use crate::wire::read_list;
use crate::wire::write_blob;
use crate::wire::write_list;
use crate::wire::MAX_LEN;

verus! {

/// The one version of the wire form that this library reads and writes.
pub const VERSION: u8 = 1;

/// A mapping from keys to values: `values[i]` belongs to `keys[i]`, and no
/// key occurs twice. The entries stand in the order in which their keys were
/// first added. An instruction, a key and a value are byte strings that this
/// library carries and does not look into.
#[derive(Debug, PartialEq, Eq)]
pub struct Metadata {
    keys: Vec<Vec<u8>>,
    values: Vec<Vec<u8>>,
}

/// A signature, its scheme, and the public key of the pair that made it.
#[derive(Debug, Clone, PartialEq, Eq)]
pub struct Signature {
    pub algorithm: Algorithm,
    pub public_key: Vec<u8>,
    pub payload: Vec<u8>,
}

/// A transaction with its signatures: signature `i` is `signatures[i]`, made
/// with the scheme that `schemes[i]` stands for by the pair whose public key
/// is `signers[i]`.
#[derive(Debug, PartialEq, Eq)]
pub struct SignedTransaction {
    instructions: Vec<Vec<u8>>,
    metadata: Metadata,
    signers: Vec<Vec<u8>>,
    signatures: Vec<Vec<u8>>,
    schemes: Vec<u8>,
}

/// What a transaction holds.
pub struct TransactionView {
    pub instructions: Seq<Seq<u8>>,
    pub metadata_keys: Seq<Seq<u8>>,
    pub metadata_values: Seq<Seq<u8>>,
    pub signers: Seq<Seq<u8>>,
    pub signatures: Seq<Seq<u8>>,
    pub schemes: Seq<u8>,
}

/// No key occurs twice.
pub open spec fn distinct(keys: Seq<Seq<u8>>) -> bool {
    forall|i: int, j: int| 0 <= i < j < keys.len() ==> keys[i] != keys[j]
}

/// Where `key` stands among `keys`, if it does.
pub open spec fn place_of(keys: Seq<Seq<u8>>, key: Seq<u8>) -> Option<int> {
    if exists|i: int| 0 <= i < keys.len() && keys[i] == key {
        Some(choose|i: int| 0 <= i < keys.len() && keys[i] == key)
    } else {
        None
    }
}

/// The entries fit the wire form, every key has its value, and no key
/// occurs twice.
pub open spec fn entries_ok(keys: Seq<Seq<u8>>, values: Seq<Seq<u8>>) -> bool {
    &&& list_fits(keys)
    &&& list_fits(values)
    &&& keys.len() == values.len()
    &&& distinct(keys)
}

/// The instructions fit the wire form and the metadata is in order.
pub open spec fn payload_ok(
    instructions: Seq<Seq<u8>>,
    keys: Seq<Seq<u8>>,
    values: Seq<Seq<u8>>,
) -> bool {
    &&& list_fits(instructions)
    &&& entries_ok(keys, values)
}

/// Every byte of `tags` stands for a scheme.
pub open spec fn known_schemes(tags: Seq<u8>) -> bool {
    forall|i: int| 0 <= i < tags.len() ==> algorithm_tagged(#[trigger] tags[i]) is Some
}

pub open spec fn well_formed(t: TransactionView) -> bool {
    &&& payload_ok(t.instructions, t.metadata_keys, t.metadata_values)
    &&& list_fits(t.signers)
    &&& list_fits(t.signatures)
    &&& t.signers.len() == t.signatures.len()
    &&& t.signers.len() == t.schemes.len()
    &&& known_schemes(t.schemes)
}

/// The bytes that a transaction's identity is computed from, and that each
/// signature is made over: the version and the payload, no signature.
pub open spec fn payload_form(
    instructions: Seq<Seq<u8>>,
    keys: Seq<Seq<u8>>,
    values: Seq<Seq<u8>>,
) -> Seq<u8> {
    seq![VERSION] + list(instructions) + list(keys) + list(values)
}

/// The wire form of a transaction.
pub open spec fn wire_form(t: TransactionView) -> Seq<u8> {
    payload_form(t.instructions, t.metadata_keys, t.metadata_values) + list(t.signers) + list(
        t.signatures,
    ) + blob(t.schemes)
}

/// What stands behind the version byte, if it fills `s` exactly, the counts
/// agree, no key of the metadata occurs twice and every scheme is known.
pub open spec fn parse_body(s: Seq<u8>) -> Option<TransactionView> {
    match parse_list(s, 1) {
        Some((instructions, end1)) => match parse_list(s, end1) {
            Some((keys, end2)) => match parse_list(s, end2) {
                Some((values, end3)) => match parse_list(s, end3) {
                    Some((signers, end4)) => match parse_list(s, end4) {
                        Some((signatures, end5)) => match parse_blob(s, end5) {
                            Some((schemes, end6)) => if end6 == s.len() && keys.len() == values.len()
                                && signers.len() == signatures.len() && signers.len()
                                == schemes.len() && distinct(keys) && known_schemes(schemes) {
                                Some(
                                    TransactionView {
                                        instructions,
                                        metadata_keys: keys,
                                        metadata_values: values,
                                        signers,
                                        signatures,
                                        schemes,
                                    },
                                )
                            } else {
                                None
                            },
                            None => None,
                        },
                        None => None,
                    },
                    None => None,
                },
                None => None,
            },
            None => None,
        },
        None => None,
    }
}

/// What reading `s` as a transaction gives.
pub open spec fn parse_transaction(s: Seq<u8>) -> Result<TransactionView, DecodeError> {
    if s.len() == 0 {
        Err(DecodeError::Empty)
    } else if s[0] != VERSION {
        Err(DecodeError::UnknownVersion(s[0]))
    } else {
        match parse_body(s) {
            Some(t) => Ok(t),
            None => Err(DecodeError::Malformed),
        }
    }
}

/// What reading hexadecimal text as a transaction gives.
pub open spec fn parse_transaction_hex(text: Seq<char>) -> Result<TransactionView, DecodeError> {
    if is_hex(text) {
        parse_transaction(hex_bytes(text))
    } else {
        Err(DecodeError::BadHex)
    }
}

proof fn lemma_holds_between(pre: Seq<u8>, part: Seq<u8>, post: Seq<u8>, s: Seq<u8>)
    requires
        s == pre + part + post,
    ensures
        holds_at(s, pre.len() as int, part),
{
    assert(s.subrange(pre.len() as int, (pre.len() + part.len()) as int) =~= part);
}

/// A well-formed transaction is read back from its wire form as it was.
pub proof fn lemma_transaction_round_trip(t: TransactionView)
    requires
        well_formed(t),
    ensures
        parse_transaction(wire_form(t)) == Ok::<TransactionView, DecodeError>(t),
{
    let s = wire_form(t);
    let v = seq![VERSION];
    let a = list(t.instructions);
    let b = list(t.metadata_keys);
    let c = list(t.metadata_values);
    let d = list(t.signers);
    let e = list(t.signatures);
    let f = blob(t.schemes);
    let none = Seq::<u8>::empty();
    assert(s =~= v + a + (b + c + d + e + f));
    assert(s =~= (v + a) + b + (c + d + e + f));
    assert(s =~= (v + a + b) + c + (d + e + f));
    assert(s =~= (v + a + b + c) + d + (e + f));
    assert(s =~= (v + a + b + c + d) + e + f);
    assert(s =~= (v + a + b + c + d + e) + f + none);
    lemma_holds_between(v, a, b + c + d + e + f, s);
    lemma_holds_between(v + a, b, c + d + e + f, s);
    lemma_holds_between(v + a + b, c, d + e + f, s);
    lemma_holds_between(v + a + b + c, d, e + f, s);
    lemma_holds_between(v + a + b + c + d, e, f, s);
    lemma_holds_between(v + a + b + c + d + e, f, none, s);
    lemma_parse_blob(s, (v + a + b + c + d + e).len() as int, t.schemes);
    lemma_parse_list(s, 1, t.instructions);
    lemma_parse_list(s, (v + a).len() as int, t.metadata_keys);
    lemma_parse_list(s, (v + a + b).len() as int, t.metadata_values);
    lemma_parse_list(s, (v + a + b + c).len() as int, t.signers);
    lemma_parse_list(s, (v + a + b + c + d).len() as int, t.signatures);
    assert(s[0] == VERSION);
}

/// Bytes that are read as a transaction are the wire form of that
/// transaction, which is well formed: no two byte strings stand for one
/// transaction.
pub proof fn lemma_wire_form_is_canonical(s: Seq<u8>)
    requires
        parse_transaction(s) is Ok,
    ensures
        well_formed(parse_transaction(s)->Ok_0),
        wire_form(parse_transaction(s)->Ok_0) == s,
{
    let t = parse_transaction(s)->Ok_0;
    let v = seq![VERSION];
    assert(s.subrange(0, 1) =~= v);
    assert(holds_at(s, 0, v));
    lemma_list_canonical(s, 1);
    let end1 = parse_list(s, 1)->Some_0.1;
    lemma_holds_at_join(s, 0, v, list(t.instructions));
    lemma_list_canonical(s, end1);
    let end2 = parse_list(s, end1)->Some_0.1;
    lemma_holds_at_join(s, 0, v + list(t.instructions), list(t.metadata_keys));
    lemma_list_canonical(s, end2);
    let end3 = parse_list(s, end2)->Some_0.1;
    lemma_holds_at_join(
        s,
        0,
        v + list(t.instructions) + list(t.metadata_keys),
        list(t.metadata_values),
    );
    lemma_list_canonical(s, end3);
    let end4 = parse_list(s, end3)->Some_0.1;
    let payload = payload_form(t.instructions, t.metadata_keys, t.metadata_values);
    lemma_holds_at_join(s, 0, payload, list(t.signers));
    lemma_list_canonical(s, end4);
    let end5 = parse_list(s, end4)->Some_0.1;
    lemma_holds_at_join(s, 0, payload + list(t.signers), list(t.signatures));
    lemma_blob_canonical(s, end5);
    lemma_holds_at_join(s, 0, payload + list(t.signers) + list(t.signatures), blob(t.schemes));
    assert(s.subrange(0, s.len() as int) =~= s);
}

/// Another signature leaves the bytes of a transaction's identity as they
/// were.
pub proof fn lemma_identity_ignores_signatures(
    t: TransactionView,
    scheme: u8,
    public_key: Seq<u8>,
    payload: Seq<u8>,
)
    ensures
        ({
            let u = TransactionView {
                signers: t.signers.push(public_key),
                signatures: t.signatures.push(payload),
                schemes: t.schemes.push(scheme),
                ..t
            };
            payload_form(u.instructions, u.metadata_keys, u.metadata_values) == payload_form(
                t.instructions,
                t.metadata_keys,
                t.metadata_values,
            )
        }),
{
}

/// Text written for a well-formed transaction is read back as that
/// transaction.
pub proof fn lemma_transaction_hex_round_trip(t: TransactionView)
    requires
        well_formed(t),
    ensures
        parse_transaction_hex(lower_hex(wire_form(t))) == Ok::<TransactionView, DecodeError>(t),
{
    lemma_hex_round_trip(wire_form(t));
    lemma_transaction_round_trip(t);
}

/// Reading a version that is not known gives that error and no transaction.
pub proof fn lemma_unknown_version_rejected(s: Seq<u8>)
    requires
        s.len() > 0,
        s[0] != VERSION,
    ensures
        parse_transaction(s) == Err::<TransactionView, DecodeError>(DecodeError::UnknownVersion(s[0])),
{
}

/// Whether two byte strings are the same.
pub fn same_bytes(a: &Vec<u8>, b: &Vec<u8>) -> (r: bool)
    ensures
        r == (a@ == b@),
{
    if a.len() != b.len() {
        return false;
    }
    let mut i: usize = 0;
    while i < a.len()
        invariant
            i <= a@.len(),
            a@.len() == b@.len(),
            forall|j: int| 0 <= j < i ==> a@[j] == b@[j],
        decreases a@.len() - i,
    {
        if a[i] != b[i] {
            return false;
        }
        i = i + 1;
    }
    assert(a@ =~= b@);
    true
}

/// The first place below `end` at which `key` stands among `keys`.
pub fn position(keys: &Vec<Vec<u8>>, key: &Vec<u8>, end: usize) -> (r: Option<usize>)
    requires
        end <= keys@.len(),
    ensures
        match r {
            Some(i) => i < end && contents(keys@)[i as int] == key@ && forall|j: int|
                0 <= j < i ==> contents(keys@)[j] != key@,
            None => forall|j: int| 0 <= j < end ==> contents(keys@)[j] != key@,
        },
{
    let mut i: usize = 0;
    while i < end
        invariant
            i <= end <= keys@.len(),
            forall|j: int| 0 <= j < i ==> contents(keys@)[j] != key@,
        decreases end - i,
    {
        if same_bytes(&keys[i], key) {
            return Some(i);
        }
        i = i + 1;
    }
    None
}

/// Whether no key occurs twice.
pub fn all_distinct(keys: &Vec<Vec<u8>>) -> (b: bool)
    ensures
        b == distinct(contents(keys@)),
{
    let mut j: usize = 0;
    while j < keys.len()
        invariant
            j <= keys@.len(),
            forall|a: int, b: int| 0 <= a < b < j ==> contents(keys@)[a] != contents(keys@)[b],
        decreases keys@.len() - j,
    {
        match position(keys, &keys[j], j) {
            Some(i) => {
                assert(contents(keys@)[i as int] == contents(keys@)[j as int]);
                return false;
            },
            None => {},
        }
        j = j + 1;
    }
    true
}

/// Whether every byte of `tags` stands for a scheme.
pub fn all_known(tags: &Vec<u8>) -> (b: bool)
    ensures
        b == known_schemes(tags@),
{
    let mut i: usize = 0;
    while i < tags.len()
        invariant
            i <= tags@.len(),
            forall|j: int| 0 <= j < i ==> algorithm_tagged(#[trigger] tags@[j]) is Some,
        decreases tags@.len() - i,
    {
        if Algorithm::from_tag(tags[i]).is_none() {
            return false;
        }
        i = i + 1;
    }
    true
}

impl Metadata {
    /// The keys, in the order in which they were first added.
    pub closed spec fn keys_view(&self) -> Seq<Seq<u8>> {
        contents(self.keys@)
    }

    /// The values, each at the place of its key.
    pub closed spec fn values_view(&self) -> Seq<Seq<u8>> {
        contents(self.values@)
    }

    #[verifier::type_invariant]
    closed spec fn wf(&self) -> bool {
        entries_ok(self.keys_view(), self.values_view())
    }

    /// Metadata without an entry.
    pub fn new() -> (m: Metadata)
        ensures
            m.keys_view().len() == 0,
            m.values_view().len() == 0,
    {
        Metadata { keys: Vec::new(), values: Vec::new() }
    }

    /// Metadata of these keys and values, `values[i]` for `keys[i]`; `None`
    /// where their counts differ, a key occurs twice, or something does not
    /// fit the wire form.
    pub fn from_entries(keys: Vec<Vec<u8>>, values: Vec<Vec<u8>>) -> (r: Option<Metadata>)
        ensures
            r is Some <==> entries_ok(contents(keys@), contents(values@)),
            r is Some ==> r->Some_0.keys_view() == contents(keys@) && r->Some_0.values_view()
                == contents(values@),
    {
        if fits(&keys) && fits(&values) && keys.len() == values.len() && all_distinct(&keys) {
            Some(Metadata { keys, values })
        } else {
            None
        }
    }

    /// The keys, in the order in which they were first added.
    pub fn keys(&self) -> (r: &Vec<Vec<u8>>)
        ensures
            contents(r@) == self.keys_view(),
            entries_ok(self.keys_view(), self.values_view()),
    {
        proof {
            use_type_invariant(self);
        }
        &self.keys
    }

    /// The values, each at the place of its key.
    pub fn values(&self) -> (r: &Vec<Vec<u8>>)
        ensures
            contents(r@) == self.values_view(),
            entries_ok(self.keys_view(), self.values_view()),
    {
        proof {
            use_type_invariant(self);
        }
        &self.values
    }

    /// The value that belongs to `key`, if there is one.
    pub fn get(&self, key: &Vec<u8>) -> (r: Option<&Vec<u8>>)
        ensures
            match place_of(self.keys_view(), key@) {
                Some(i) => r is Some && r->Some_0@ == self.values_view()[i],
                None => r is None,
            },
    {
        proof {
            use_type_invariant(self);
        }
        match position(&self.keys, key, self.keys.len()) {
            Some(i) => {
                assert(place_of(contents(self.keys@), key@) == Some(i as int));
                Some(&self.values[i])
            },
            None => None,
        }
    }

    /// Sets the value that belongs to `key`: in place where the key is
    /// there, as a new entry behind the others where it is not. Where key or
    /// value does not fit the wire form, or no further entry does, the
    /// metadata stays as it was and the result is `false`.
    pub fn insert(&mut self, key: Vec<u8>, value: Vec<u8>) -> (set: bool)
        ensures
            set == (key@.len() <= MAX_LEN && value@.len() <= MAX_LEN && (place_of(
                old(self).keys_view(),
                key@,
            ) is Some || old(self).keys_view().len() < MAX_LEN)),
            set ==> match place_of(old(self).keys_view(), key@) {
                Some(i) => final(self).keys_view() == old(self).keys_view()
                    && final(self).values_view() == old(self).values_view().update(i, value@),
                None => final(self).keys_view() == old(self).keys_view().push(key@)
                    && final(self).values_view() == old(self).values_view().push(value@),
            },
            !set ==> final(self).keys_view() == old(self).keys_view() && final(self).values_view()
                == old(self).values_view(),
    {
        proof {
            use_type_invariant(&*self);
        }
        if key.len() > MAX_LEN || value.len() > MAX_LEN {
            return false;
        }
        let ghost keys = contents(self.keys@);
        let ghost values = contents(self.values@);
        let found = position(&self.keys, &key, self.keys.len());
        if found.is_none() && self.keys.len() >= MAX_LEN {
            assert(place_of(keys, key@) is None);
            return false;
        }
        let mut taken = Metadata::new();
        std::mem::swap(self, &mut taken);
        let Metadata { keys: mut new_keys, values: mut new_values } = taken;
        match found {
            Some(i) => {
                assert(place_of(keys, key@) == Some(i as int));
                new_values.set(i, value);
                assert(contents(new_values@) =~= values.update(i as int, value@));
                assert(contents(new_keys@) =~= keys);
            },
            None => {
                assert(place_of(keys, key@) is None);
                new_keys.push(key);
                new_values.push(value);
                assert(contents(new_keys@) =~= keys.push(key@));
                assert(contents(new_values@) =~= values.push(value@));
            },
        }
        *self = Metadata { keys: new_keys, values: new_values };
        true
    }
}

/// The bytes that identify the transaction made of `instructions` and
/// `metadata`, and that its signatures are made over.
pub fn payload_bytes(instructions: &Vec<Vec<u8>>, metadata: &Metadata) -> (out: Vec<u8>)
    requires
        list_fits(contents(instructions@)),
    ensures
        out@ == payload_form(
            contents(instructions@),
            metadata.keys_view(),
            metadata.values_view(),
        ),
{
    let mut out: Vec<u8> = Vec::new();
    out.push(VERSION);
    assert(out@ =~= seq![VERSION]);
    write_list(&mut out, instructions);
    write_list(&mut out, metadata.keys());
    write_list(&mut out, metadata.values());
    out
}

impl View for SignedTransaction {
    type V = TransactionView;

    closed spec fn view(&self) -> TransactionView {
        TransactionView {
            instructions: contents(self.instructions@),
            metadata_keys: self.metadata.keys_view(),
            metadata_values: self.metadata.values_view(),
            signers: contents(self.signers@),
            signatures: contents(self.signatures@),
            schemes: self.schemes@,
        }
    }
}

impl SignedTransaction {
    #[verifier::type_invariant]
    closed spec fn wf(&self) -> bool {
        well_formed(self@)
    }

    /// A transaction of `instructions`, in their order, and `metadata`, with
    /// its first signature. `Oversized` where the signature does not fit the
    /// wire form.
    pub fn build(instructions: Vec<Vec<u8>>, metadata: Metadata, signature: Signature) -> (r:
        Result<SignedTransaction, Error>)
        requires
            list_fits(contents(instructions@)),
        ensures
            r is Ok <==> signature.public_key@.len() <= MAX_LEN && signature.payload@.len()
                <= MAX_LEN,
            r is Err ==> r == Err::<SignedTransaction, Error>(Error::Crypto(CryptoError::Oversized)),
            r is Ok ==> well_formed(r->Ok_0@) && r->Ok_0@ == (TransactionView {
                instructions: contents(instructions@),
                metadata_keys: metadata.keys_view(),
                metadata_values: metadata.values_view(),
                signers: seq![signature.public_key@],
                signatures: seq![signature.payload@],
                schemes: seq![tag_of(signature.algorithm)],
            }),
    {
        proof {
            use_type_invariant(&metadata);
        }
        if signature.public_key.len() > MAX_LEN || signature.payload.len() > MAX_LEN {
            return Err(Error::Crypto(CryptoError::Oversized));
        }
        let mut signers: Vec<Vec<u8>> = Vec::new();
        let mut signatures: Vec<Vec<u8>> = Vec::new();
        let mut schemes: Vec<u8> = Vec::new();
        schemes.push(signature.algorithm.tag());
        assert(schemes@ =~= seq![tag_of(signature.algorithm)]);
        let ghost public_key = signature.public_key@;
        let ghost payload = signature.payload@;
        signers.push(signature.public_key);
        signatures.push(signature.payload);
        assert(contents(signers@) =~= seq![public_key]);
        assert(contents(signatures@) =~= seq![payload]);
        Ok(SignedTransaction { instructions, metadata, signers, signatures, schemes })
    }

    /// The transaction with one more signature behind those it has, and the
    /// same payload. `Oversized` where the signature does not fit the wire
    /// form or the transaction can hold no more.
    pub fn append_signature(self, signature: Signature) -> (r: Result<SignedTransaction, Error>)
        ensures
            r is Ok <==> signature.public_key@.len() <= MAX_LEN && signature.payload@.len()
                <= MAX_LEN && self@.signers.len() < MAX_LEN,
            r is Err ==> r == Err::<SignedTransaction, Error>(Error::Crypto(CryptoError::Oversized)),
            r is Ok ==> well_formed(r->Ok_0@) && r->Ok_0@ == (TransactionView {
                signers: self@.signers.push(signature.public_key@),
                signatures: self@.signatures.push(signature.payload@),
                schemes: self@.schemes.push(tag_of(signature.algorithm)),
                ..self@
            }),
    {
        proof {
            use_type_invariant(&self);
        }
        if signature.public_key.len() > MAX_LEN || signature.payload.len() > MAX_LEN
            || self.signers.len() >= MAX_LEN {
            return Err(Error::Crypto(CryptoError::Oversized));
        }
        let ghost before = self@;
        let ghost public_key = signature.public_key@;
        let ghost payload = signature.payload@;
        let SignedTransaction {
            instructions,
            metadata,
            signers: mut signers,
            signatures: mut signatures,
            schemes: mut schemes,
        } = self;
        schemes.push(signature.algorithm.tag());
        signers.push(signature.public_key);
        signatures.push(signature.payload);
        assert(contents(signers@) =~= before.signers.push(public_key));
        assert(contents(signatures@) =~= before.signatures.push(payload));
        Ok(SignedTransaction { instructions, metadata, signers, signatures, schemes })
    }

    /// The instructions, in their order.
    pub fn instructions(&self) -> (r: &Vec<Vec<u8>>)
        ensures
            contents(r@) == self@.instructions,
            well_formed(self@),
    {
        proof {
            use_type_invariant(self);
        }
        &self.instructions
    }

    /// The metadata.
    pub fn metadata(&self) -> (r: &Metadata)
        ensures
            r.keys_view() == self@.metadata_keys,
            r.values_view() == self@.metadata_values,
    {
        &self.metadata
    }

    /// The public keys of the signers, one for each signature.
    pub fn signers(&self) -> (r: &Vec<Vec<u8>>)
        ensures
            contents(r@) == self@.signers,
    {
        &self.signers
    }

    /// The signatures, in the order in which they were added.
    pub fn signatures(&self) -> (r: &Vec<Vec<u8>>)
        ensures
            contents(r@) == self@.signatures,
    {
        &self.signatures
    }

    /// One byte for the scheme of each signature.
    pub fn schemes(&self) -> (r: &Vec<u8>)
        ensures
            r@ == self@.schemes,
    {
        &self.schemes
    }

    /// The bytes that identify this transaction; no signature is among them.
    pub fn identity_bytes(&self) -> (out: Vec<u8>)
        ensures
            out@ == payload_form(self@.instructions, self@.metadata_keys, self@.metadata_values),
    {
        proof {
            use_type_invariant(self);
        }
        payload_bytes(&self.instructions, &self.metadata)
    }

    /// The wire form, from which the transaction is read back as it is.
    pub fn to_bytes(&self) -> (out: Vec<u8>)
        ensures
            out@ == wire_form(self@),
            parse_transaction(out@) == Ok::<TransactionView, DecodeError>(self@),
    {
        proof {
            use_type_invariant(self);
        }
        let mut out = payload_bytes(&self.instructions, &self.metadata);
        write_list(&mut out, &self.signers);
        write_list(&mut out, &self.signatures);
        write_blob(&mut out, &self.schemes);
        proof {
            lemma_transaction_round_trip(self@);
        }
        out
    }

    /// Reads a transaction from its wire form. The version byte is looked at
    /// first, and bytes of another version are not read any further.
    pub fn from_bytes(bytes: &[u8]) -> (r: Result<SignedTransaction, Error>)
        ensures
            match r {
                Ok(t) => parse_transaction(bytes@) == Ok::<TransactionView, DecodeError>(t@)
                    && wire_form(t@) == bytes@ && well_formed(t@),
                Err(e) => parse_transaction(bytes@) is Err && e == Error::Decode(
                    parse_transaction(bytes@)->Err_0,
                ),
            },
    {
        if bytes.len() == 0 {
            return Err(Error::Decode(DecodeError::Empty));
        }
        if bytes[0] != VERSION {
            return Err(Error::Decode(DecodeError::UnknownVersion(bytes[0])));
        }
        let malformed = Error::Decode(DecodeError::Malformed);
        let (instructions, end1) = match read_list(bytes, 1) {
            Some(pair) => pair,
            None => {
                return Err(malformed);
            },
        };
        let (keys, end2) = match read_list(bytes, end1) {
            Some(pair) => pair,
            None => {
                return Err(malformed);
            },
        };
        let (values, end3) = match read_list(bytes, end2) {
            Some(pair) => pair,
            None => {
                return Err(malformed);
            },
        };
        let (signers, end4) = match read_list(bytes, end3) {
            Some(pair) => pair,
            None => {
                return Err(malformed);
            },
        };
        let (signatures, end5) = match read_list(bytes, end4) {
            Some(pair) => pair,
            None => {
                return Err(malformed);
            },
        };
        let (schemes, end6) = match read_blob(bytes, end5) {
            Some(pair) => pair,
            None => {
                return Err(malformed);
            },
        };
        if end6 != bytes.len() || keys.len() != values.len() || signers.len() != signatures.len()
            || signers.len() != schemes.len() || !all_distinct(&keys) || !all_known(&schemes) {
            return Err(malformed);
        }
        proof {
            lemma_wire_form_is_canonical(bytes@);
        }
        Ok(
            SignedTransaction {
                instructions,
                metadata: Metadata { keys, values },
                signers,
                signatures,
                schemes,
            },
        )
    }

    /// The wire form as lower-case hexadecimal text, from which the
    /// transaction is read back as it is.
    pub fn encode(&self) -> (text: String)
        ensures
            text@ == lower_hex(wire_form(self@)),
            parse_transaction_hex(text@) == Ok::<TransactionView, DecodeError>(self@),
    {
        proof {
            use_type_invariant(self);
        }
        let bytes = self.to_bytes();
        proof {
            lemma_transaction_hex_round_trip(self@);
        }
        to_hex(bytes.as_slice())
    }

    /// Reads a transaction from the hexadecimal text of its wire form.
    pub fn decode(encoded: &str) -> (r: Result<SignedTransaction, Error>)
        ensures
            match r {
                Ok(t) => parse_transaction_hex(encoded@) == Ok::<TransactionView, DecodeError>(t@)
                    && well_formed(t@),
                Err(e) => parse_transaction_hex(encoded@) is Err && e == Error::Decode(
                    parse_transaction_hex(encoded@)->Err_0,
                ),
            },
    {
        match from_hex(encoded) {
            Some(bytes) => SignedTransaction::from_bytes(bytes.as_slice()),
            None => Err(Error::Decode(DecodeError::BadHex)),
        }
    }
}

} // verus!
