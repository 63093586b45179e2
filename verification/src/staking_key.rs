//! Staking keys: from the text `algorithm:base58` to the Borsh encoding of a
//! post-quantum public key.

use vstd::prelude::*;
use vstd::string::StrSliceExecFns;
use vstd::string::StringExecFns;

use crate::signatures::{FNDSA_PUBLIC_KEY_LEN, MLDSA_PUBLIC_KEY_LEN, SLHDSA_PUBLIC_KEY_LEN};
use crate::text::{decimal, push_decimal, same_text};

verus! {

/// Length of an encoded ML-DSA public key.
pub const MLDSA_ENCODING_LEN: usize = 1957;

/// Length of an encoded FN-DSA public key.
pub const FNDSA_ENCODING_LEN: usize = 902;

/// Length of an encoded SLH-DSA public key.
pub const SLHDSA_ENCODING_LEN: usize = 37;

/// The post-quantum algorithms that a validator can sign with.
#[derive(Clone, Copy, Debug, PartialEq, Eq, Structural)]
pub enum KeyAlgorithm {
    MlDsa,
    FnDsa,
    SlhDsa,
}

impl KeyAlgorithm {
    /// The name of the algorithm in a key's text.
    pub open spec fn label(self) -> Seq<char> {
        match self {
            KeyAlgorithm::MlDsa => "mldsa"@,
            KeyAlgorithm::FnDsa => "fndsa"@,
            KeyAlgorithm::SlhDsa => "slhdsa"@,
        }
    }

    /// The first byte of an encoded key. Zero and one stand for the classical
    /// algorithms.
    pub open spec fn tag(self) -> u8 {
        match self {
            KeyAlgorithm::MlDsa => 2,
            KeyAlgorithm::FnDsa => 3,
            KeyAlgorithm::SlhDsa => 4,
        }
    }

    /// The length of the algorithm's public keys.
    pub open spec fn public_key_len(self) -> nat {
        match self {
            KeyAlgorithm::MlDsa => 1952,
            KeyAlgorithm::FnDsa => 897,
            KeyAlgorithm::SlhDsa => 32,
        }
    }

    /// The name of the algorithm in a key's text.
    pub fn name(self) -> (name: &'static str)
        ensures
            name@ == self.label(),
    {
        match self {
            KeyAlgorithm::MlDsa => "mldsa",
            KeyAlgorithm::FnDsa => "fndsa",
            KeyAlgorithm::SlhDsa => "slhdsa",
        }
    }

    /// The first byte of an encoded key.
    pub fn type_byte(self) -> (byte: u8)
        ensures
            byte == self.tag(),
    {
        match self {
            KeyAlgorithm::MlDsa => 2,
            KeyAlgorithm::FnDsa => 3,
            KeyAlgorithm::SlhDsa => 4,
        }
    }

    /// The length of the algorithm's public keys.
    pub fn key_len(self) -> (len: usize)
        ensures
            len == self.public_key_len(),
    {
        match self {
            KeyAlgorithm::MlDsa => MLDSA_PUBLIC_KEY_LEN,
            KeyAlgorithm::FnDsa => FNDSA_PUBLIC_KEY_LEN,
            KeyAlgorithm::SlhDsa => SLHDSA_PUBLIC_KEY_LEN,
        }
    }

    /// The algorithm of a name.
    pub fn from_name(name: &str) -> (algorithm: Option<KeyAlgorithm>)
        ensures
            algorithm == algorithm_named(name@),
    {
        if same_text(name, "mldsa") {
            Some(KeyAlgorithm::MlDsa)
        } else if same_text(name, "fndsa") {
            Some(KeyAlgorithm::FnDsa)
        } else if same_text(name, "slhdsa") {
            Some(KeyAlgorithm::SlhDsa)
        } else {
            None
        }
    }
}

/// The algorithm of a name, if it is one of the three.
pub open spec fn algorithm_named(name: Seq<char>) -> Option<KeyAlgorithm> {
    if name == KeyAlgorithm::MlDsa.label() {
        Some(KeyAlgorithm::MlDsa)
    } else if name == KeyAlgorithm::FnDsa.label() {
        Some(KeyAlgorithm::FnDsa)
    } else if name == KeyAlgorithm::SlhDsa.label() {
        Some(KeyAlgorithm::SlhDsa)
    } else {
        None
    }
}

/// Why a text is not a staking key.
#[derive(Debug)]
pub enum KeyError {
    /// There is no colon between the algorithm and the key.
    MissingSeparator,
    /// No algorithm has this name.
    UnknownAlgorithm(String),
    /// The key is not written in base58.
    InvalidBase58,
    /// The key has not the length of the algorithm's keys.
    WrongLength { algorithm: KeyAlgorithm, actual: usize },
}

impl KeyError {
    /// The text that describes this error.
    pub open spec fn text(&self) -> Seq<char> {
        match self {
            KeyError::MissingSeparator => "Key format: 'algo:base58'"@,
            KeyError::UnknownAlgorithm(name) => "Unknown key algorithm: "@ + name@,
            KeyError::InvalidBase58 => "Invalid base58"@,
            KeyError::WrongLength { algorithm, actual } => "Key must be exactly "@
                + decimal(algorithm.public_key_len()) + " bytes for "@
                + algorithm.label() + ", got "@ + decimal(*actual as nat),
        }
    }

    /// Describes this error.
    pub fn message(&self) -> (message: String)
        ensures
            message@ == self.text(),
    {
        let mut message = String::new();
        match self {
            KeyError::MissingSeparator => {
                message.append("Key format: 'algo:base58'");
            },
            KeyError::UnknownAlgorithm(name) => {
                message.append("Unknown key algorithm: ");
                message.append(name.as_str());
            },
            KeyError::InvalidBase58 => {
                message.append("Invalid base58");
            },
            KeyError::WrongLength { algorithm, actual } => {
                message.append("Key must be exactly ");
                push_decimal(&mut message, algorithm.key_len() as u128);
                message.append(" bytes for ");
                message.append(algorithm.name());
                message.append(", got ");
                push_decimal(&mut message, *actual as u128);
            },
        }
        assert(message@ =~= self.text());
        message
    }
}

/// The error of the base58 decoder.
#[verifier::external_type_specification]
#[verifier::external_body]
pub struct ExBase58Error(bs58::decode::Error);

/// Names what `bs58::decode(text).into_vec()` yields, with the crate's default
/// alphabet: the decoded bytes, or nothing where the decoder reports an error.
pub uninterp spec fn base58_decoding(text: Seq<char>) -> Option<Seq<u8>>;

/// Calls `bs58::decode` and `into_vec`: the result depends on the text alone.
#[verifier::external_body]
fn decode_base58(text: &str) -> (decoded: Result<Vec<u8>, bs58::decode::Error>)
    ensures
        match decoded {
            Ok(bytes) => base58_decoding(text@) == Some(bytes@),
            Err(_) => base58_decoding(text@) is None,
        },
{
    bs58::decode(text).into_vec()
}

/// The position of the first colon in a text, or its length where there is none.
pub open spec fn first_colon(text: Seq<char>) -> nat
    decreases text.len(),
{
    if text.len() == 0 || text[0] == ':' {
        0
    } else {
        1 + first_colon(text.drop_first())
    }
}

/// The part of a key's text before the colon.
pub open spec fn algorithm_part(text: Seq<char>) -> Seq<char> {
    text.take(first_colon(text) as int)
}

/// The part of a key's text after the colon.
pub open spec fn base58_part(text: Seq<char>) -> Seq<char> {
    text.skip(first_colon(text) as int + 1)
}

/// Four bytes of a length, the least significant first.
pub open spec fn length_prefix(len: nat) -> Seq<u8> {
    seq![
        (len % 256) as u8,
        (len / 256 % 256) as u8,
        (len / 65536 % 256) as u8,
        (len / 16777216 % 256) as u8,
    ]
}

/// The Borsh encoding of a public key: the algorithm's tag, the length, the bytes.
pub open spec fn key_encoding(algorithm: KeyAlgorithm, key: Seq<u8>) -> Seq<u8> {
    seq![algorithm.tag()] + length_prefix(key.len()) + key
}

/// The length is that of an encoded public key of one of the three algorithms.
pub open spec fn is_encoding_len(len: nat) -> bool {
    len == MLDSA_ENCODING_LEN || len == FNDSA_ENCODING_LEN || len == SLHDSA_ENCODING_LEN
}

/// The outcome of a key whose base58 part decodes to `decoded`, or does not decode.
pub open spec fn is_decoded_key_outcome(
    algorithm: KeyAlgorithm,
    decoded: Option<Seq<u8>>,
    outcome: Result<Vec<u8>, KeyError>,
) -> bool {
    match decoded {
        None => outcome == Err::<Vec<u8>, KeyError>(KeyError::InvalidBase58),
        Some(key) => if key.len() == algorithm.public_key_len() {
            outcome matches Ok(encoding) && encoding@ == key_encoding(algorithm, key)
        } else {
            outcome == Err::<Vec<u8>, KeyError>(
                KeyError::WrongLength { algorithm, actual: key.len() as usize },
            )
        },
    }
}

/// The outcome of parsing a key's text. What is wrong with the text is reported in
/// this order: no colon, unknown algorithm, not base58, wrong length.
pub open spec fn is_key_outcome(text: Seq<char>, outcome: Result<Vec<u8>, KeyError>) -> bool {
    if !text.contains(':') {
        outcome == Err::<Vec<u8>, KeyError>(KeyError::MissingSeparator)
    } else {
        match algorithm_named(algorithm_part(text)) {
            None => outcome matches Err(KeyError::UnknownAlgorithm(name)) && name@
                == algorithm_part(text),
            Some(algorithm) => is_decoded_key_outcome(
                algorithm,
                base58_decoding(base58_part(text)),
                outcome,
            ),
        }
    }
}

/// Encodes a decoded key, if it has the length of the algorithm's keys.
pub fn encode_decoded_key(algorithm: KeyAlgorithm, decoded: Option<Vec<u8>>) -> (outcome: Result<
    Vec<u8>,
    KeyError,
>)
    ensures
        is_decoded_key_outcome(
            algorithm,
            match decoded {
                Some(key) => Some(key@),
                None => None,
            },
            outcome,
        ),
{
    let key_bytes = match decoded {
        Some(key_bytes) => key_bytes,
        None => return Err(KeyError::InvalidBase58),
    };
    let len: usize = key_bytes.len();
    if len != algorithm.key_len() {
        return Err(KeyError::WrongLength { algorithm, actual: len });
    }
    let mut encoding: Vec<u8> = Vec::new();
    encoding.push(algorithm.type_byte());
    encoding.push((len % 256) as u8);
    encoding.push((len / 256 % 256) as u8);
    encoding.push((len / 65536 % 256) as u8);
    encoding.push((len / 16777216 % 256) as u8);
    encoding.extend_from_slice(key_bytes.as_slice());
    assert(encoding@ =~= key_encoding(algorithm, key_bytes@));
    Ok(encoding)
}

/// Parses the text `algorithm:base58` into the Borsh encoding of the public key.
pub fn parse_key_string(key_str: &str) -> (outcome: Result<Vec<u8>, KeyError>)
    ensures
        is_key_outcome(key_str@, outcome),
{
    let len: usize = key_str.unicode_len();
    let mut colon: usize = 0;
    while colon < len && key_str.get_char(colon) != ':'
        invariant
            colon <= len,
            len == key_str@.len(),
            forall|j: int| 0 <= j < colon ==> key_str@[j] != ':',
        decreases len - colon,
    {
        colon = colon + 1;
    }
    if colon == len {
        return Err(KeyError::MissingSeparator);
    }
    proof {
        lemma_first_colon(key_str@, colon as int);
        assert(key_str@.contains(':')) by {
            assert(key_str@[colon as int] == ':');
        }
        assert(key_str@.subrange(0, colon as int) =~= algorithm_part(key_str@));
        assert(key_str@.subrange(colon + 1, len as int) =~= base58_part(key_str@));
    }
    let algo = key_str.substring_char(0, colon);
    let b58 = key_str.substring_char(colon + 1, len);
    let algorithm = match KeyAlgorithm::from_name(algo) {
        Some(algorithm) => algorithm,
        None => return Err(KeyError::UnknownAlgorithm(algo.to_owned())),
    };
    let decoded = match decode_base58(b58) {
        Ok(key_bytes) => Some(key_bytes),
        Err(_) => None,
    };
    encode_decoded_key(algorithm, decoded)
}

/// A colon with none before it is the first one.
proof fn lemma_first_colon(text: Seq<char>, at: int)
    requires
        0 <= at < text.len(),
        text[at] == ':',
        forall|j: int| 0 <= j < at ==> text[j] != ':',
    ensures
        first_colon(text) == at,
    decreases text.len(),
{
    if at > 0 {
        let rest = text.drop_first();
        assert forall|j: int| 0 <= j < at - 1 implies rest[j] != ':' by {
            assert(rest[j] == text[j + 1]);
        }
        lemma_first_colon(rest, at - 1);
    }
}

/// The names of the algorithms differ, so every algorithm is found by its name.
pub proof fn law_algorithms_have_names(algorithm: KeyAlgorithm)
    ensures
        algorithm_named(algorithm.label()) == Some(algorithm),
{
    reveal_strlit("mldsa");
    reveal_strlit("fndsa");
    reveal_strlit("slhdsa");
    assert("mldsa"@[0] == 'm' && "fndsa"@[0] == 'f' && "slhdsa"@[0] == 's');
}

/// An algorithm is found by its name alone: every other text names none.
pub proof fn law_names_are_exact(name: Seq<char>)
    ensures
        algorithm_named(name) == Some(KeyAlgorithm::MlDsa) <==> name == "mldsa"@,
        algorithm_named(name) == Some(KeyAlgorithm::FnDsa) <==> name == "fndsa"@,
        algorithm_named(name) == Some(KeyAlgorithm::SlhDsa) <==> name == "slhdsa"@,
{
    law_algorithms_have_names(KeyAlgorithm::FnDsa);
    law_algorithms_have_names(KeyAlgorithm::SlhDsa);
}

/// The names, tags and key lengths of the algorithms.
pub proof fn law_algorithms(algorithm: KeyAlgorithm)
    ensures
        match algorithm {
            KeyAlgorithm::MlDsa => algorithm.label() == "mldsa"@ && algorithm.tag() == 2
                && algorithm.public_key_len() == 1952,
            KeyAlgorithm::FnDsa => algorithm.label() == "fndsa"@ && algorithm.tag() == 3
                && algorithm.public_key_len() == 897,
            KeyAlgorithm::SlhDsa => algorithm.label() == "slhdsa"@ && algorithm.tag() == 4
                && algorithm.public_key_len() == 32,
        },
{
}

/// What becomes of a key of an algorithm: where it decodes to `len` bytes, these
/// behind `prefix`; otherwise the error.
pub open spec fn is_result_of(
    outcome: Result<Vec<u8>, KeyError>,
    decoded: Option<Seq<u8>>,
    algorithm: KeyAlgorithm,
    len: nat,
    prefix: Seq<u8>,
) -> bool {
    match (decoded, outcome) {
        (None, Err(KeyError::InvalidBase58)) => true,
        (Some(key), Ok(encoding)) => key.len() == len && encoding@ == prefix + key,
        (Some(key), Err(KeyError::WrongLength { algorithm: reported, actual })) => {
            &&& key.len() != len
            &&& reported == algorithm
            &&& key.len() <= usize::MAX ==> actual == key.len()
        },
        _ => false,
    }
}

/// A decoded key of the right length is put behind its tag and length, and every other
/// one is refused.
pub proof fn law_decoded_key(
    algorithm: KeyAlgorithm,
    decoded: Option<Seq<u8>>,
    outcome: Result<Vec<u8>, KeyError>,
)
    requires
        is_decoded_key_outcome(algorithm, decoded, outcome),
    ensures
        algorithm == KeyAlgorithm::MlDsa ==> is_result_of(
            outcome,
            decoded,
            algorithm,
            1952,
            seq![2u8, 0xA0u8, 7u8, 0u8, 0u8],
        ),
        algorithm == KeyAlgorithm::FnDsa ==> is_result_of(
            outcome,
            decoded,
            algorithm,
            897,
            seq![3u8, 0x81u8, 3u8, 0u8, 0u8],
        ),
        algorithm == KeyAlgorithm::SlhDsa ==> is_result_of(
            outcome,
            decoded,
            algorithm,
            32,
            seq![4u8, 0x20u8, 0u8, 0u8, 0u8],
        ),
{
    if let Some(key) = decoded {
        if key.len() == algorithm.public_key_len() {
            let encoding = key_encoding(algorithm, key);
            law_encoding_layout(algorithm, key);
            assert(encoding =~= encoding.take(5) + encoding.skip(5));
        }
    }
}

/// A text without a colon is refused for that.
pub proof fn law_key_without_colon(text: Seq<char>, outcome: Result<Vec<u8>, KeyError>)
    requires
        !text.contains(':'),
        is_key_outcome(text, outcome),
    ensures
        outcome == Err::<Vec<u8>, KeyError>(KeyError::MissingSeparator),
{
}

/// A text is taken apart at its first colon: what stands before it names the algorithm,
/// and all that stands behind it is decoded.
pub proof fn law_key_with_colon(
    name: Seq<char>,
    rest: Seq<char>,
    outcome: Result<Vec<u8>, KeyError>,
)
    requires
        !name.contains(':'),
        is_key_outcome(name + seq![':'] + rest, outcome),
    ensures
        name == "mldsa"@ ==> is_result_of(
            outcome,
            base58_decoding(rest),
            KeyAlgorithm::MlDsa,
            1952,
            seq![2u8, 0xA0u8, 7u8, 0u8, 0u8],
        ),
        name == "fndsa"@ ==> is_result_of(
            outcome,
            base58_decoding(rest),
            KeyAlgorithm::FnDsa,
            897,
            seq![3u8, 0x81u8, 3u8, 0u8, 0u8],
        ),
        name == "slhdsa"@ ==> is_result_of(
            outcome,
            base58_decoding(rest),
            KeyAlgorithm::SlhDsa,
            32,
            seq![4u8, 0x20u8, 0u8, 0u8, 0u8],
        ),
        name != "mldsa"@ && name != "fndsa"@ && name != "slhdsa"@ ==> (outcome matches Err(
            KeyError::UnknownAlgorithm(unknown),
        ) && unknown@ == name),
{
    let text = name + seq![':'] + rest;
    let at = name.len() as int;
    assert(text[at] == ':');
    assert forall|j: int| 0 <= j < at implies text[j] != ':' by {
        assert(text[j] == name[j]);
        assert(name.contains(name[j]));
    }
    lemma_first_colon(text, at);
    assert(algorithm_part(text) =~= name);
    assert(base58_part(text) =~= rest);
    law_algorithms_have_names(KeyAlgorithm::MlDsa);
    law_algorithms_have_names(KeyAlgorithm::FnDsa);
    law_algorithms_have_names(KeyAlgorithm::SlhDsa);
    if let Some(algorithm) = algorithm_named(name) {
        law_decoded_key(algorithm, base58_decoding(rest), outcome);
    }
}

/// The texts of key errors give the name and the lengths in full.
pub proof fn law_key_error_texts(name: String, algorithm: KeyAlgorithm, actual: usize)
    ensures
        KeyError::UnknownAlgorithm(name).text() == "Unknown key algorithm: "@ + name@,
        (KeyError::WrongLength { algorithm, actual }).text() == "Key must be exactly "@ + decimal(
            algorithm.public_key_len(),
        ) + " bytes for "@ + algorithm.label() + ", got "@ + decimal(actual as nat),
{
}

/// An encoded key holds the tag, the length in four bytes, and the key, and nothing
/// else: the length of the encoding tells the algorithm too.
pub proof fn law_encoding_layout(algorithm: KeyAlgorithm, key: Seq<u8>)
    requires
        key.len() == algorithm.public_key_len(),
    ensures
        key_encoding(algorithm, key).len() == match algorithm {
            KeyAlgorithm::MlDsa => MLDSA_ENCODING_LEN as nat,
            KeyAlgorithm::FnDsa => FNDSA_ENCODING_LEN as nat,
            KeyAlgorithm::SlhDsa => SLHDSA_ENCODING_LEN as nat,
        },
        key_encoding(algorithm, key).take(5) == match algorithm {
            KeyAlgorithm::MlDsa => seq![0x02u8, 0xA0u8, 0x07u8, 0u8, 0u8],
            KeyAlgorithm::FnDsa => seq![0x03u8, 0x81u8, 0x03u8, 0u8, 0u8],
            KeyAlgorithm::SlhDsa => seq![0x04u8, 0x20u8, 0u8, 0u8, 0u8],
        },
        key_encoding(algorithm, key).skip(5) == key,
{
    let encoding = key_encoding(algorithm, key);
    assert(encoding.skip(5) =~= key);
    match algorithm {
        KeyAlgorithm::MlDsa => {
            assert(encoding.take(5) =~= seq![0x02u8, 0xA0u8, 0x07u8, 0u8, 0u8]);
        },
        KeyAlgorithm::FnDsa => {
            assert(encoding.take(5) =~= seq![0x03u8, 0x81u8, 0x03u8, 0u8, 0u8]);
        },
        KeyAlgorithm::SlhDsa => {
            assert(encoding.take(5) =~= seq![0x04u8, 0x20u8, 0u8, 0u8, 0u8]);
        },
    }
}

/// Different keys have different encodings.
pub proof fn law_encoding_is_injective(
    first: KeyAlgorithm,
    first_key: Seq<u8>,
    second: KeyAlgorithm,
    second_key: Seq<u8>,
)
    requires
        key_encoding(first, first_key) == key_encoding(second, second_key),
    ensures
        first == second,
        first_key == second_key,
{
    let encoding = key_encoding(first, first_key);
    assert(encoding[0] == first.tag());
    assert(key_encoding(second, second_key)[0] == second.tag());
    assert(encoding.skip(5) =~= first_key);
    assert(key_encoding(second, second_key).skip(5) =~= second_key);
}

/// A text that is taken for a key names one of the three algorithms, and what it
/// stands for is the encoding of a key of that algorithm's length, so that a pool
/// can stake with it.
pub proof fn law_parsed_key_is_encoded_key(text: Seq<char>, encoding: Vec<u8>)
    requires
        is_key_outcome(text, Ok(encoding)),
    ensures
        is_encoding_len(encoding@.len()),
        exists|algorithm: KeyAlgorithm, key: Seq<u8>|
            {
                &&& algorithm_part(text) == algorithm.label()
                &&& base58_decoding(base58_part(text)) == Some(key)
                &&& key.len() == algorithm.public_key_len()
                &&& encoding@ == #[trigger] key_encoding(algorithm, key)
            },
{
}

} // verus!
