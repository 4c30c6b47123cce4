//! The firmware-binary record assembled from the update service's
//! metadata response, and the selection of the decryption-key scheme from
//! the binary filename's suffix.

use vstd::prelude::*;

verus! {

use crate::auth::{calc_logic_check, logic_check};
use crate::crypto::{md5, md5_digest};
use crate::text::{clone_string, ends_with, parse_u64, parse_u64_spec, str_ends_with};
use vstd::string::{StrSliceExecFns, StringExecFns};
use vstd::utf8::encode_utf8;

/// The filename suffix of binaries under the model/region key scheme.
pub open spec fn enc2_suffix() -> Seq<char> {
    ".enc2"@
}

/// The filename suffix of binaries under the derived-keystream scheme.
pub open spec fn enc4_suffix() -> Seq<char> {
    ".enc4"@
}

/// The decryption-key scheme chosen for a firmware binary; `Unknown` is a
/// valid outcome meaning no decryption is possible, not an error.
#[derive(Debug)]
pub enum DecryptKey {
    /// Key for the model/region scheme.
    V2(Vec<u8>),
    /// Key for the derived-keystream scheme.
    V4(Vec<u8>),
    /// No scheme recognised: download only, do not decrypt.
    Unknown,
}

/// The key input of the model/region scheme.
pub open spec fn v2_key_input(model: Seq<char>, region: Seq<char>, version: Seq<char>) -> Seq<char> {
    region + seq![':'] + model + seq![':'] + version
}

/// The key of the model/region scheme: the MD5 digest of
/// `region:model:version`.
pub open spec fn v2_key(model: Seq<char>, region: Seq<char>, version: Seq<char>) -> Seq<u8> {
    md5_digest(encode_utf8(v2_key_input(model, region, version)))
}

/// The key of the derived-keystream scheme: the MD5 digest of the
/// character-selection transform of the version under the server's
/// keystream field.
pub open spec fn v4_key(version: Seq<char>, factory: Seq<char>) -> Seq<u8> {
    md5_digest(encode_utf8(logic_check(encode_utf8(version), factory)))
}

/// Which key a [`DecryptKey`] must hold for the given metadata: decided by
/// the filename suffix alone, with the model/region scheme taking
/// precedence.
pub open spec fn key_matches(
    k: DecryptKey,
    model: Seq<char>,
    region: Seq<char>,
    version: Seq<char>,
    name: Seq<char>,
    factory: Seq<char>,
) -> bool {
    if ends_with(name, enc2_suffix()) {
        k matches DecryptKey::V2(b) && b@ == v2_key(model, region, version)
    } else if ends_with(name, enc4_suffix()) {
        k matches DecryptKey::V4(b) && b@ == v4_key(version, factory)
    } else {
        k is Unknown
    }
}

/// Choose the decryption-key scheme for a binary and compute its key.
///
/// Total and deterministic: every input maps to exactly one scheme, decided
/// by the filename suffix alone; an empty keystream field is accepted and
/// simply yields the degenerate key of the empty selection.
pub fn select_key(
    model: &str,
    region: &str,
    version: &str,
    binary_name: &str,
    logic_value_factory: &str,
) -> (r: DecryptKey)
    ensures
        key_matches(r, model@, region@, version@, binary_name@, logic_value_factory@),
        !(r is Unknown) ==> (ends_with(binary_name@, enc2_suffix())
            || ends_with(binary_name@, enc4_suffix())),
{
    if str_ends_with(binary_name, ".enc2") {
        let mut input = String::new();
        input.append(region);
        input.append(":");
        input.append(model);
        input.append(":");
        input.append(version);
        proof {
            reveal_strlit(":");
            assert(input@ =~= v2_key_input(model@, region@, version@));
        }
        DecryptKey::V2(md5(input.as_str().as_bytes()))
    } else if str_ends_with(binary_name, ".enc4") {
        let check = calc_logic_check(version, logic_value_factory);
        DecryptKey::V4(md5(check.as_str().as_bytes()))
    } else {
        DecryptKey::Unknown
    }
}

/// The metadata fields read out of the service's binary-information
/// response, each absent where the response lacked the element.
pub struct BinaryFields {
    pub binary_name: Option<String>,
    pub binary_size: Option<String>,
    pub version: Option<String>,
    pub logic_value_factory: Option<String>,
    pub display_name: Option<String>,
    pub os_version: Option<String>,
    pub model_path: Option<String>,
}

/// The immutable record describing one firmware artifact.
#[derive(Debug)]
pub struct BinaryInfo {
    pub display_name: String,
    pub os_version: String,
    pub model_path: String,
    pub binary_name: String,
    pub binary_size: u64,
    pub version: String,
    pub decrypt_key: DecryptKey,
}

/// Failures of record assembly: a missing or unreadable metadata field.
#[derive(Clone, Copy, Debug, PartialEq, Eq, Structural)]
pub enum InfoError {
    MissingBinaryName,
    MissingBinarySize,
    InvalidBinarySize,
    MissingVersion,
    MissingLogicValueFactory,
    MissingDisplayName,
    MissingOsVersion,
    MissingModelPath,
}

/// The first fault in a field set, in the order the record is assembled;
/// the keystream field is required only for binaries under the
/// derived-keystream scheme.
pub open spec fn fields_error(f: BinaryFields) -> Option<InfoError> {
    match f.binary_name {
        Option::None => Some(InfoError::MissingBinaryName),
        Option::Some(name) => match f.binary_size {
            Option::None => Some(InfoError::MissingBinarySize),
            Option::Some(size) => if parse_u64_spec(size@) is None {
                Some(InfoError::InvalidBinarySize)
            } else {
                match f.version {
                    Option::None => Some(InfoError::MissingVersion),
                    Option::Some(_) => if !ends_with(name@, enc2_suffix())
                        && ends_with(name@, enc4_suffix())
                        && f.logic_value_factory is None {
                        Some(InfoError::MissingLogicValueFactory)
                    } else {
                        match f.display_name {
                            Option::None => Some(InfoError::MissingDisplayName),
                            Option::Some(_) => match f.os_version {
                                Option::None => Some(InfoError::MissingOsVersion),
                                Option::Some(_) => match f.model_path {
                                    Option::None => Some(InfoError::MissingModelPath),
                                    Option::Some(_) => None,
                                },
                            },
                        }
                    },
                }
            },
        },
    }
}

/// The keystream field's text, or empty where it was absent.
pub open spec fn factory_view(f: BinaryFields) -> Seq<char> {
    match f.logic_value_factory {
        Option::Some(v) => v@,
        Option::None => Seq::empty(),
    }
}

/// Assemble the firmware record from the extracted metadata fields,
/// choosing the decryption key by the binary filename's suffix.
pub fn from_fields(model: &str, region: &str, fields: &BinaryFields) -> (r: Result<
    BinaryInfo,
    InfoError,
>)
    ensures
        match r {
            Ok(info) => fields_error(*fields) is None
                && match (fields.binary_name, fields.binary_size, fields.version) {
                    (Some(n), Some(sz), Some(v)) => info.binary_name@ == n@
                        && Some(info.binary_size) == parse_u64_spec(sz@)
                        && info.version@ == v@
                        && key_matches(
                            info.decrypt_key,
                            model@,
                            region@,
                            v@,
                            n@,
                            factory_view(*fields),
                        ),
                    _ => false,
                }
                && match (fields.display_name, fields.os_version, fields.model_path) {
                    (Some(d), Some(o), Some(m)) => info.display_name@ == d@
                        && info.os_version@ == o@
                        && info.model_path@ == m@,
                    _ => false,
                },
            Err(e) => fields_error(*fields) == Some(e),
        },
{
    let binary_name = match &fields.binary_name {
        Some(n) => clone_string(n),
        None => {
            return Err(InfoError::MissingBinaryName);
        },
    };
    let size_text = match &fields.binary_size {
        Some(sz) => sz,
        None => {
            return Err(InfoError::MissingBinarySize);
        },
    };
    let binary_size = match parse_u64(size_text.as_str()) {
        Some(v) => v,
        None => {
            return Err(InfoError::InvalidBinarySize);
        },
    };
    let version = match &fields.version {
        Some(v) => clone_string(v),
        None => {
            return Err(InfoError::MissingVersion);
        },
    };
    let enc2 = str_ends_with(binary_name.as_str(), ".enc2");
    let enc4 = str_ends_with(binary_name.as_str(), ".enc4");
    let factory: &str = if !enc2 && enc4 {
        match &fields.logic_value_factory {
            Some(f) => f.as_str(),
            None => {
                return Err(InfoError::MissingLogicValueFactory);
            },
        }
    } else {
        match &fields.logic_value_factory {
            Some(f) => f.as_str(),
            None => "",
        }
    };
    proof {
        reveal_strlit("");
        assert(factory@ == factory_view(*fields) || !(ends_with(binary_name@, enc2_suffix())
            || ends_with(binary_name@, enc4_suffix())));
        if fields.logic_value_factory is None {
            assert(factory@ =~= factory_view(*fields));
        }
    }
    let decrypt_key = select_key(
        model,
        region,
        version.as_str(),
        binary_name.as_str(),
        factory,
    );
    let display_name = match &fields.display_name {
        Some(d) => clone_string(d),
        None => {
            return Err(InfoError::MissingDisplayName);
        },
    };
    let os_version = match &fields.os_version {
        Some(o) => clone_string(o),
        None => {
            return Err(InfoError::MissingOsVersion);
        },
    };
    let model_path = match &fields.model_path {
        Some(m) => clone_string(m),
        None => {
            return Err(InfoError::MissingModelPath);
        },
    };
    Ok(BinaryInfo {
        display_name,
        os_version,
        model_path,
        binary_name,
        binary_size,
        version,
        decrypt_key,
    })
}


} // verus!
