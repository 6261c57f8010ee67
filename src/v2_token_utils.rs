use vstd::prelude::*;
use vstd::string::StringSliceAdditionalSpecFns;
use vstd::utf8::{
    encode_utf8, encode_utf8_valid_utf8, is_char_boundary, is_char_boundary_start_end_of_seq,
    valid_utf8,
};

verus! {

/// The most bytes a token or collection name keeps.
pub const NAME_LENGTH: usize = 128;

/// The most bytes a token or collection URI keeps.
pub const URI_LENGTH: usize = 512;

/// `r` is the longest prefix of `b` that holds at most `max` bytes and ends on a
/// character boundary.
pub open spec fn is_truncation(b: Seq<u8>, max: int, r: Seq<u8>) -> bool {
    &&& r.len() <= max
    &&& r.len() <= b.len()
    &&& r == b.subrange(0, r.len() as int)
    &&& is_char_boundary(b, r.len() as int)
    &&& forall|j: int| r.len() < j <= b.len() && j <= max ==> !is_char_boundary(b, j)
}

/// `val` cut to at most `max_bytes` bytes, without splitting a character.
pub fn truncate_str(val: &str, max_bytes: usize) -> (r: String)
    ensures
        is_truncation(encode_utf8(val@), max_bytes as int, encode_utf8(r@)),
{
    let ghost b = encode_utf8(val@);
    proof {
        encode_utf8_valid_utf8(val@);
        is_char_boundary_start_end_of_seq(b);
    }
    let len = val.as_bytes().len();
    let mut m: usize = if max_bytes < len {
        max_bytes
    } else {
        len
    };
    let ghost top: int = m as int;
    while m > 0 && !val.is_char_boundary(m)
        invariant
            b == encode_utf8(val@),
            valid_utf8(b),
            len == b.len(),
            m <= top <= len,
            top <= max_bytes,
            top == len || top == max_bytes,
            is_char_boundary(b, 0),
            forall|j: int| m < j <= top ==> !is_char_boundary(b, j),
        decreases m,
    {
        m = m - 1;
    }
    let (head, _tail) = val.split_at(m);
    let r = head.to_owned();
    proof {
        assert(encode_utf8(r@) == head.spec_bytes());
    }
    r
}

/// The resource types the token indexer decodes.
pub open spec fn is_supported_type(t: Seq<char>) -> bool {
    ||| t == "0x1::object::ObjectCore"@
    ||| t == "0x4::collection::Collection"@
    ||| t == "0x4::collection::FixedSupply"@
    ||| t == "0x4::collection::UnlimitedSupply"@
    ||| t == "0x4::aptos_token::AptosCollection"@
    ||| t == "0x4::token::Token"@
    ||| t == "0x1::fungible_asset::Metadata"@
    ||| t == "0x1::fungible_asset::FungibleStore"@
}

fn same_text(a: &str, b: &str) -> (r: bool)
    ensures
        r == (a@ == b@),
{
    let x = a.to_owned();
    let y = b.to_owned();
    x == y
}

/// Whether the indexer decodes resources of type `data_type`
/// (`address::module::name`).
pub fn is_resource_supported(data_type: &str) -> (r: bool)
    ensures
        r == is_supported_type(data_type@),
{
    proof {
        reveal_strlit("0x1::object::ObjectCore");
        reveal_strlit("0x4::collection::Collection");
        reveal_strlit("0x4::collection::FixedSupply");
        reveal_strlit("0x4::collection::UnlimitedSupply");
        reveal_strlit("0x4::aptos_token::AptosCollection");
        reveal_strlit("0x4::token::Token");
        reveal_strlit("0x1::fungible_asset::Metadata");
        reveal_strlit("0x1::fungible_asset::FungibleStore");
    }
    if same_text(data_type, "0x1::object::ObjectCore") {
        return true;
    }
    if same_text(data_type, "0x4::collection::Collection") {
        return true;
    }
    if same_text(data_type, "0x4::collection::FixedSupply") {
        return true;
    }
    if same_text(data_type, "0x4::collection::UnlimitedSupply") {
        return true;
    }
    if same_text(data_type, "0x4::aptos_token::AptosCollection") {
        return true;
    }
    if same_text(data_type, "0x4::token::Token") {
        return true;
    }
    if same_text(data_type, "0x1::fungible_asset::Metadata") {
        return true;
    }
    if same_text(data_type, "0x1::fungible_asset::FungibleStore") {
        return true;
    }
    false
}

/// Which token standard a token or collection is built on.
#[derive(Clone, Copy, Debug, PartialEq, Eq, Structural)]
pub enum TokenStandard {
    V1,
    V2,
}

impl TokenStandard {
    /// The standard's name as stored: `"v1"` or `"v2"`.
    pub fn to_string_value(&self) -> (r: String)
        ensures
            *self == TokenStandard::V1 ==> r@ == seq!['v', '1'],
            *self == TokenStandard::V2 ==> r@ == seq!['v', '2'],
    {
        match self {
            TokenStandard::V1 => {
                let r = "v1".to_owned();
                proof {
                    reveal_strlit("v1");
                }
                r
            },
            TokenStandard::V2 => {
                let r = "v2".to_owned();
                proof {
                    reveal_strlit("v2");
                }
                r
            },
        }
    }
}

/// A reference to another resource, by address.
#[derive(Clone, Debug)]
pub struct ResourceReference {
    pub inner: String,
}

/// A token collection. Name and URI are read through their truncating getters only.
#[derive(Clone, Debug)]
pub struct Collection {
    pub creator: String,
    pub description: String,
    name: String,
    uri: String,
}

impl Collection {
    pub fn new(creator: String, description: String, name: String, uri: String) -> (r: Self)
        ensures
            r.spec_creator() == creator@,
            r.spec_description() == description@,
            r.spec_name() == name@,
            r.spec_uri() == uri@,
    {
        Collection { creator, description, name, uri }
    }

    pub closed spec fn spec_creator(&self) -> Seq<char> {
        self.creator@
    }

    pub closed spec fn spec_description(&self) -> Seq<char> {
        self.description@
    }

    pub closed spec fn spec_name(&self) -> Seq<char> {
        self.name@
    }

    pub closed spec fn spec_uri(&self) -> Seq<char> {
        self.uri@
    }

    /// The URI, cut to `URI_LENGTH` bytes.
    pub fn get_uri_trunc(&self) -> (r: String)
        ensures
            is_truncation(encode_utf8(self.spec_uri()), URI_LENGTH as int, encode_utf8(r@)),
    {
        truncate_str(self.uri.as_str(), URI_LENGTH)
    }

    /// The name, cut to `NAME_LENGTH` bytes.
    pub fn get_name_trunc(&self) -> (r: String)
        ensures
            is_truncation(encode_utf8(self.spec_name()), NAME_LENGTH as int, encode_utf8(r@)),
    {
        truncate_str(self.name.as_str(), NAME_LENGTH)
    }
}

/// What a collection made through the Aptos token module lets its creator change.
#[derive(Clone, Copy, Debug, PartialEq, Eq, Structural)]
pub struct AptosCollection {
    pub mutable_description: bool,
    pub mutable_uri: bool,
}

/// A token. Name and URI are read through their truncating getters only.
#[derive(Clone, Debug)]
pub struct Token {
    pub collection: ResourceReference,
    pub description: String,
    name: String,
    uri: String,
}

impl Token {
    pub fn new(collection: ResourceReference, description: String, name: String, uri: String) -> (r:
        Self)
        ensures
            r.spec_collection() == collection.inner@,
            r.spec_description() == description@,
            r.spec_name() == name@,
            r.spec_uri() == uri@,
    {
        Token { collection, description, name, uri }
    }

    pub closed spec fn spec_collection(&self) -> Seq<char> {
        self.collection.inner@
    }

    pub closed spec fn spec_description(&self) -> Seq<char> {
        self.description@
    }

    pub closed spec fn spec_name(&self) -> Seq<char> {
        self.name@
    }

    pub closed spec fn spec_uri(&self) -> Seq<char> {
        self.uri@
    }

    /// The URI, cut to `URI_LENGTH` bytes.
    pub fn get_uri_trunc(&self) -> (r: String)
        ensures
            is_truncation(encode_utf8(self.spec_uri()), URI_LENGTH as int, encode_utf8(r@)),
    {
        truncate_str(self.uri.as_str(), URI_LENGTH)
    }

    /// The name, cut to `NAME_LENGTH` bytes.
    pub fn get_name_trunc(&self) -> (r: String)
        ensures
            is_truncation(encode_utf8(self.spec_name()), NAME_LENGTH as int, encode_utf8(r@)),
    {
        truncate_str(self.name.as_str(), NAME_LENGTH)
    }
}

} // verus!
