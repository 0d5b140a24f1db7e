//! Key material. The keys themselves are made, derived and used by a signing
//! backend outside this library; what it hands back is held here, and never
//! copied but for the public half.

use vstd::prelude::*;
use crate::error::CryptoError;
use crate::error::Error;
use crate::hextext::from_hex;
use crate::hextext::hex_bytes;
use crate::hextext::is_hex;
use crate::transaction::Signature;

verus! {

/// The signature schemes.
#[derive(Debug, Clone, Copy, PartialEq, Eq, Structural)]
pub enum Algorithm {
    Ed25519,
    Secp256k1,
    BlsNormal,
    BlsSmall,
}

/// The number of bytes of a content hash.
pub const HASH_LEN: usize = 32;

/// The scheme that `name` stands for.
pub open spec fn algorithm_named(name: Seq<char>) -> Option<Algorithm> {
    if name == "ed25519"@ {
        Some(Algorithm::Ed25519)
    } else if name == "secp256k1"@ {
        Some(Algorithm::Secp256k1)
    } else if name == "bls_normal"@ {
        Some(Algorithm::BlsNormal)
    } else if name == "bls_small"@ {
        Some(Algorithm::BlsSmall)
    } else {
        None
    }
}

/// The byte that stands for a scheme on the wire.
pub open spec fn tag_of(a: Algorithm) -> u8 {
    match a {
        Algorithm::Ed25519 => 0,
        Algorithm::Secp256k1 => 1,
        Algorithm::BlsNormal => 2,
        Algorithm::BlsSmall => 3,
    }
}

/// The scheme that a byte on the wire stands for.
pub open spec fn algorithm_tagged(tag: u8) -> Option<Algorithm> {
    if tag == 0 {
        Some(Algorithm::Ed25519)
    } else if tag == 1 {
        Some(Algorithm::Secp256k1)
    } else if tag == 2 {
        Some(Algorithm::BlsNormal)
    } else if tag == 3 {
        Some(Algorithm::BlsSmall)
    } else {
        None
    }
}

/// A scheme is read back from its byte.
pub proof fn lemma_tag_round_trip(a: Algorithm)
    ensures
        algorithm_tagged(tag_of(a)) == Some(a),
{
}

/// The scheme asked for, or the default where none is named.
pub open spec fn algorithm_chosen(name: Option<Seq<char>>) -> Option<Algorithm> {
    match name {
        Some(n) => algorithm_named(n),
        None => Some(Algorithm::Ed25519),
    }
}

fn same_text(a: &str, b: &str) -> (r: bool)
    ensures
        r == (a@ == b@),
{
    let x = a.to_owned();
    let y = b.to_owned();
    x == y
}

impl Algorithm {
    /// The scheme used where none is named.
    pub fn default_algorithm() -> (a: Algorithm)
        ensures
            a == Algorithm::Ed25519,
    {
        Algorithm::Ed25519
    }

    /// The byte that stands for the scheme on the wire.
    pub fn tag(&self) -> (t: u8)
        ensures
            t == tag_of(*self),
    {
        match self {
            Algorithm::Ed25519 => 0,
            Algorithm::Secp256k1 => 1,
            Algorithm::BlsNormal => 2,
            Algorithm::BlsSmall => 3,
        }
    }

    /// The scheme that `tag` stands for.
    pub fn from_tag(tag: u8) -> (r: Option<Algorithm>)
        ensures
            r == algorithm_tagged(tag),
    {
        if tag == 0 {
            Some(Algorithm::Ed25519)
        } else if tag == 1 {
            Some(Algorithm::Secp256k1)
        } else if tag == 2 {
            Some(Algorithm::BlsNormal)
        } else if tag == 3 {
            Some(Algorithm::BlsSmall)
        } else {
            None
        }
    }

    /// The scheme of that name, in lower case.
    pub fn from_name(name: &str) -> (r: Option<Algorithm>)
        ensures
            r == algorithm_named(name@),
    {
        if same_text(name, "ed25519") {
            Some(Algorithm::Ed25519)
        } else if same_text(name, "secp256k1") {
            Some(Algorithm::Secp256k1)
        } else if same_text(name, "bls_normal") {
            Some(Algorithm::BlsNormal)
        } else if same_text(name, "bls_small") {
            Some(Algorithm::BlsSmall)
        } else {
            None
        }
    }
}

/// The public half of a key pair.
#[derive(Debug, Clone, PartialEq, Eq)]
pub struct PublicKey {
    pub algorithm: Algorithm,
    pub bytes: Vec<u8>,
}

/// The private half of a key pair.
pub struct PrivateKey {
    pub algorithm: Algorithm,
    pub bytes: Vec<u8>,
}

/// The two halves of a key pair as a backend hands them over.
#[derive(Debug, Clone, PartialEq, Eq)]
pub struct KeyMaterial {
    pub public: Vec<u8>,
    pub private: Vec<u8>,
}

/// A key pair of one scheme. Neither half is empty, and nothing changes a
/// pair once it is made.
pub struct KeyPair {
    public: PublicKey,
    private: PrivateKey,
}

/// A content hash: `HASH_LEN` bytes.
#[derive(Debug, Clone, PartialEq, Eq)]
pub struct Hash {
    bytes: Vec<u8>,
}

/// What importing a private key from text gives.
pub open spec fn private_key_parsed(algorithm: Option<Seq<char>>, text: Seq<char>) -> Result<
    (Algorithm, Seq<u8>),
    CryptoError,
> {
    match algorithm_chosen(algorithm) {
        None => Err(CryptoError::UnknownAlgorithm),
        Some(a) => if !is_hex(text) {
            Err(CryptoError::MalformedHex)
        } else if text.len() == 0 {
            Err(CryptoError::InvalidKey)
        } else {
            Ok((a, hex_bytes(text)))
        },
    }
}

/// What a backend's key material makes.
pub open spec fn pair_made(algorithm: Algorithm, made: Option<(Seq<u8>, Seq<u8>)>) -> Result<
    (Algorithm, Seq<u8>, Seq<u8>),
    CryptoError,
> {
    match made {
        None => Err(CryptoError::Backend),
        Some((public, private)) => if public.len() == 0 || private.len() == 0 {
            Err(CryptoError::InvalidKey)
        } else {
            Ok((algorithm, public, private))
        },
    }
}

/// The characters of a name, where there is one.
pub open spec fn name_view(name: Option<&str>) -> Option<Seq<char>> {
    match name {
        Some(n) => Some(n@),
        None => None,
    }
}

/// The two halves of a backend's key material, where there is any.
pub open spec fn material_view(made: Option<KeyMaterial>) -> Option<(Seq<u8>, Seq<u8>)> {
    match made {
        Some(m) => Some((m.public@, m.private@)),
        None => None,
    }
}

impl PrivateKey {
    /// Imports a private key from hexadecimal text, for the scheme of that
    /// name or for the default one.
    pub fn from_hex(algorithm: Option<&str>, text: &str) -> (r: Result<PrivateKey, Error>)
        ensures
            match r {
                Ok(k) => private_key_parsed(name_view(algorithm), text@) == Ok::<
                    (Algorithm, Seq<u8>),
                    CryptoError,
                >((k.algorithm, k.bytes@)),
                Err(e) => private_key_parsed(name_view(algorithm), text@) is Err && e
                    == Error::Crypto(private_key_parsed(name_view(algorithm), text@)->Err_0),
            },
    {
        let chosen = match algorithm {
            Some(name) => Algorithm::from_name(name),
            None => Some(Algorithm::default_algorithm()),
        };
        let scheme = match chosen {
            Some(a) => a,
            None => {
                return Err(Error::Crypto(CryptoError::UnknownAlgorithm));
            },
        };
        match from_hex(text) {
            None => Err(Error::Crypto(CryptoError::MalformedHex)),
            Some(bytes) => {
                if bytes.len() == 0 {
                    Err(Error::Crypto(CryptoError::InvalidKey))
                } else {
                    Ok(PrivateKey { algorithm: scheme, bytes })
                }
            },
        }
    }
}

impl KeyPair {
    pub closed spec fn algorithm(&self) -> Algorithm {
        self.public.algorithm
    }

    pub closed spec fn public_bytes(&self) -> Seq<u8> {
        self.public.bytes@
    }

    pub closed spec fn private_bytes(&self) -> Seq<u8> {
        self.private.bytes@
    }

    /// Both halves are of one scheme and neither is empty.
    #[verifier::type_invariant]
    pub closed spec fn wf(&self) -> bool {
        &&& self.public.algorithm == self.private.algorithm
        &&& self.public.bytes@.len() > 0
        &&& self.private.bytes@.len() > 0
    }

    fn assemble(algorithm: Algorithm, made: Option<KeyMaterial>) -> (r: Result<KeyPair, Error>)
        ensures
            match r {
                Ok(k) => k.wf() && pair_made(algorithm, material_view(made)) == Ok::<
                    (Algorithm, Seq<u8>, Seq<u8>),
                    CryptoError,
                >((k.algorithm(), k.public_bytes(), k.private_bytes())),
                Err(e) => pair_made(algorithm, material_view(made)) is Err && e == Error::Crypto(
                    pair_made(algorithm, material_view(made))->Err_0,
                ),
            },
    {
        match made {
            None => Err(Error::Crypto(CryptoError::Backend)),
            Some(m) => {
                if m.public.len() == 0 || m.private.len() == 0 {
                    Err(Error::Crypto(CryptoError::InvalidKey))
                } else {
                    Ok(
                        KeyPair {
                            public: PublicKey { algorithm, bytes: m.public },
                            private: PrivateKey { algorithm, bytes: m.private },
                        },
                    )
                }
            },
        }
    }

    /// A pair of the default scheme from the material that a backend made
    /// at random; `made` is `None` where the backend failed.
    pub fn generate(made: Option<KeyMaterial>) -> (r: Result<KeyPair, Error>)
        ensures
            match r {
                Ok(k) => k.wf() && pair_made(Algorithm::Ed25519, material_view(made)) == Ok::<
                    (Algorithm, Seq<u8>, Seq<u8>),
                    CryptoError,
                >((k.algorithm(), k.public_bytes(), k.private_bytes())),
                Err(e) => pair_made(Algorithm::Ed25519, material_view(made)) is Err && e
                    == Error::Crypto(pair_made(Algorithm::Ed25519, material_view(made))->Err_0),
            },
    {
        KeyPair::assemble(Algorithm::default_algorithm(), made)
    }

    /// A pair of the default scheme from the material that a backend
    /// derived from a seed.
    pub fn with_seed(derived: Option<KeyMaterial>) -> (r: Result<KeyPair, Error>)
        ensures
            match r {
                Ok(k) => k.wf() && pair_made(Algorithm::Ed25519, material_view(derived)) == Ok::<
                    (Algorithm, Seq<u8>, Seq<u8>),
                    CryptoError,
                >((k.algorithm(), k.public_bytes(), k.private_bytes())),
                Err(e) => pair_made(Algorithm::Ed25519, material_view(derived)) is Err && e
                    == Error::Crypto(pair_made(Algorithm::Ed25519, material_view(derived))->Err_0),
            },
    {
        KeyPair::assemble(Algorithm::default_algorithm(), derived)
    }

    /// The pair of an imported private key and the public key that a backend
    /// derived from it; `InvalidKey` where the backend found none, or either
    /// half is empty.
    pub fn from_private(private: PrivateKey, derived: Option<Vec<u8>>) -> (r: Result<
        KeyPair,
        Error,
    >)
        ensures
            r is Ok <==> derived is Some && derived->Some_0@.len() > 0 && private.bytes@.len() > 0,
            r is Err ==> r == Err::<KeyPair, Error>(Error::Crypto(CryptoError::InvalidKey)),
            r is Ok ==> r->Ok_0.wf() && r->Ok_0.algorithm() == private.algorithm
                && r->Ok_0.private_bytes() == private.bytes@ && r->Ok_0.public_bytes()
                == derived->Some_0@,
    {
        match derived {
            None => Err(Error::Crypto(CryptoError::InvalidKey)),
            Some(public) => {
                if public.len() == 0 || private.bytes.len() == 0 {
                    Err(Error::Crypto(CryptoError::InvalidKey))
                } else {
                    let algorithm = private.algorithm;
                    Ok(KeyPair { public: PublicKey { algorithm, bytes: public }, private })
                }
            },
        }
    }

    /// The public half.
    pub fn public(&self) -> (k: &PublicKey)
        ensures
            k.algorithm == self.algorithm(),
            k.bytes@ == self.public_bytes(),
            k.bytes@.len() > 0,
    {
        proof {
            use_type_invariant(self);
        }
        &self.public
    }

    /// The private half.
    pub fn private(&self) -> (k: &PrivateKey)
        ensures
            k.algorithm == self.algorithm(),
            k.bytes@ == self.private_bytes(),
            k.bytes@.len() > 0,
    {
        proof {
            use_type_invariant(self);
        }
        &self.private
    }

    /// The signature that a backend made with this pair, together with the
    /// pair's public key; `made` is `None` where the backend refused. The
    /// pair stays as it is.
    pub fn sign(&self, made: Option<Vec<u8>>) -> (r: Result<Signature, Error>)
        ensures
            r is Ok <==> made is Some,
            r is Err ==> r == Err::<Signature, Error>(Error::Crypto(CryptoError::Backend)),
            r is Ok ==> r->Ok_0.algorithm == self.algorithm() && r->Ok_0.public_key@
                == self.public_bytes() && r->Ok_0.payload@ == made->Some_0@,
    {
        match made {
            None => Err(Error::Crypto(CryptoError::Backend)),
            Some(payload) => {
                let public_key = vstd::slice::slice_to_vec(self.public.bytes.as_slice());
                Ok(Signature { algorithm: self.public.algorithm, public_key, payload })
            },
        }
    }
}

impl Hash {
    pub closed spec fn view(&self) -> Seq<u8> {
        self.bytes@
    }

    /// The bytes of the hash.
    pub fn as_bytes(&self) -> (b: &Vec<u8>)
        ensures
            b@ == self.view(),
    {
        &self.bytes
    }
}

/// The content hash that a backend computed, if it has the length of one.
pub fn hash(digest: Vec<u8>) -> (r: Option<Hash>)
    ensures
        r is Some <==> digest@.len() == HASH_LEN,
        r is Some ==> r->Some_0.view() == digest@,
{
    if digest.len() == HASH_LEN {
        Some(Hash { bytes: digest })
    } else {
        None
    }
}

} // verus!
