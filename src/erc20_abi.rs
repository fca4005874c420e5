//! The ERC-20 `transfer` function and the call data that invokes it.
use crate::text::decimal_digits;
use crate::text::decimal_string;
use ethers::abi::Token;
use ethers::types::Address;
use ethers::types::U256;
use vstd::prelude::*;

verus! {

/// The ABI type of a parameter.
#[derive(Clone, Copy, Debug, PartialEq, Eq, Structural)]
pub enum ParamType {
    Address,
    Uint(u32),
    Bool,
}

/// How a function may touch chain state.
#[derive(Clone, Copy, Debug, PartialEq, Eq, Structural)]
pub enum StateMutability {
    Pure,
    View,
    NonPayable,
    Payable,
}

/// A named parameter of a contract function.
#[derive(Clone, Debug)]
pub struct Param {
    pub name: String,
    pub kind: ParamType,
}

/// A contract function's interface.
#[derive(Clone, Debug)]
pub struct Function {
    pub name: String,
    pub inputs: Vec<Param>,
    pub outputs: Vec<Param>,
    pub constant: bool,
    pub state_mutability: StateMutability,
}

/// The canonical name of an ABI type.
pub open spec fn canonical_type(k: ParamType) -> Seq<char> {
    match k {
        ParamType::Address => "address"@,
        ParamType::Uint(bits) => "uint"@ + decimal_digits(bits as nat),
        ParamType::Bool => "bool"@,
    }
}

/// The canonical names of the parameters' types, separated by commas.
pub open spec fn type_list(params: Seq<Param>) -> Seq<char>
    decreases params.len(),
{
    if params.len() == 0 {
        Seq::empty()
    } else if params.len() == 1 {
        canonical_type(params[0].kind)
    } else {
        type_list(params.drop_last()) + ","@ + canonical_type(params.last().kind)
    }
}

/// The canonical signature `name(type,...)` that a function's selector hashes.
pub open spec fn signature_of(f: Function) -> Seq<char> {
    f.name@ + "("@ + type_list(f.inputs@) + ")"@
}

/// The ERC-20 `transfer(address _to, uint256 _value) returns (bool)` function.
pub fn transfer() -> (r: Function)
    ensures
        r.name@ == "transfer"@,
        r.inputs@.len() == 2,
        r.inputs@[0].name@ == "_to"@,
        r.inputs@[0].kind == ParamType::Address,
        r.inputs@[1].name@ == "_value"@,
        r.inputs@[1].kind == ParamType::Uint(256),
        r.outputs@.len() == 1,
        r.outputs@[0].name@.len() == 0,
        r.outputs@[0].kind == ParamType::Bool,
        !r.constant,
        r.state_mutability == StateMutability::NonPayable,
{
    let input_address = Param { name: String::from_str("_to"), kind: ParamType::Address };
    let input_amount = Param { name: String::from_str("_value"), kind: ParamType::Uint(256) };
    let output = Param { name: String::new(), kind: ParamType::Bool };
    Function {
        name: String::from_str("transfer"),
        inputs: vec![input_address, input_amount],
        outputs: vec![output],
        constant: false,
        state_mutability: StateMutability::NonPayable,
    }
}

fn canonical_type_string(k: ParamType) -> (r: String)
    ensures
        r@ == canonical_type(k),
{
    match k {
        ParamType::Address => String::from_str("address"),
        ParamType::Uint(bits) => String::from_str("uint").concat(
            decimal_string(bits as u128).as_str(),
        ),
        ParamType::Bool => String::from_str("bool"),
    }
}

impl Function {
    /// The canonical signature `name(type,...)`.
    pub fn signature(&self) -> (r: String)
        ensures
            r@ == signature_of(*self),
    {
        let mut list = String::new();
        let mut i: usize = 0;
        while i < self.inputs.len()
            invariant
                i <= self.inputs.len(),
                list@ == type_list(self.inputs@.subrange(0, i as int)),
            decreases self.inputs.len() - i,
        {
            let ghost before = self.inputs@.subrange(0, i as int);
            let ghost after = self.inputs@.subrange(0, i + 1);
            assert(after.drop_last() =~= before);
            let t = canonical_type_string(self.inputs[i].kind);
            if i > 0 {
                list.append(",");
            }
            list.append(t.as_str());
            i = i + 1;
        }
        assert(self.inputs@.subrange(0, self.inputs.len() as int) =~= self.inputs@);
        let mut r = self.name.clone();
        r.append("(");
        r.append(list.as_str());
        r.append(")");
        r
    }
}

/// The Keccak-256 digest of a byte string.
pub uninterp spec fn keccak_of(b: Seq<u8>) -> Seq<u8>;

/// Relies on `ethers::utils::keccak256`: the Keccak-256 digest of the bytes.
#[verifier::external_body]
fn keccak256(b: &[u8]) -> (r: [u8; 32])
    ensures
        r@ == keccak_of(b@),
{
    ethers::utils::keccak256(b)
}

/// `n` bytes holding `v` big-endian.
pub open spec fn be_bytes(v: nat, n: nat) -> Seq<u8>
    decreases n,
{
    if n == 0 {
        Seq::empty()
    } else {
        be_bytes(v / 256, (n - 1) as nat).push((v % 256) as u8)
    }
}

proof fn lemma_be_bytes_len(v: nat, n: nat)
    ensures
        be_bytes(v, n).len() == n,
    decreases n,
{
    if n > 0 {
        lemma_be_bytes_len(v / 256, (n - 1) as nat);
    }
}

/// The 32-byte ABI word of an address: twelve zero bytes, then its twenty bytes.
pub open spec fn address_word(a: Seq<u8>) -> Seq<u8> {
    Seq::new(12, |i: int| 0u8) + a
}

/// The 32-byte ABI word of an unsigned integer: its value big-endian.
pub open spec fn uint_word(v: nat) -> Seq<u8> {
    be_bytes(v, 32)
}

/// Relies on `ethers::abi::encode` (ethabi): an address token is encoded as twelve
/// zero bytes and its twenty bytes, a uint token as its 32-byte big-endian value, in
/// order, with nothing else for these static types.
#[verifier::external_body]
fn abi_encode_address_uint(to: &[u8; 20], value: u128) -> (r: Vec<u8>)
    ensures
        r@ == address_word(to@) + uint_word(value as nat),
{
    ethers::abi::encode(&[Token::Address(Address::from(*to)), Token::Uint(U256::from(value))])
}

/// The signature bytes that the `transfer` selector hashes.
pub open spec fn transfer_signature() -> Seq<char> {
    "transfer(address,uint256)"@
}

/// The call data of `transfer(to, amount)`: the first four bytes of the Keccak-256
/// digest of the signature, then the ABI words of the two arguments.
pub open spec fn transfer_call(to: Seq<u8>, amount: nat) -> Seq<u8> {
    keccak_of(vstd::utf8::encode_utf8(transfer_signature())).subrange(0, 4) + address_word(to)
        + uint_word(amount)
}

/// The call data that invokes `transfer(to, amount)` on an ERC-20 contract.
pub fn transfer_call_data(to: &[u8; 20], amount: u128) -> (r: Vec<u8>)
    ensures
        r@ == transfer_call(to@, amount as nat),
        r@.len() == 68,
{
    let f = transfer();
    let sig = f.signature();
    proof {
        reveal_strlit("transfer");
        reveal_strlit("address");
        reveal_strlit("uint");
        reveal_strlit("transfer(address,uint256)");
        reveal_strlit(",");
        reveal_strlit("(");
        reveal_strlit(")");
        assert(decimal_digits(2) == seq!['2']);
        assert(decimal_digits(25) == seq!['2', '5']);
        assert(decimal_digits(256) =~= seq!['2', '5', '6']);
        reveal_strlit("address,uint256");
        let inputs = f.inputs@;
        assert(inputs.drop_last().len() == 1);
        assert(inputs.drop_last()[0] == inputs[0]);
        assert(type_list(inputs.drop_last()) == "address"@);
        assert(canonical_type(inputs.last().kind) =~= "uint256"@) by {
            reveal_strlit("uint256");
        }
        assert(type_list(inputs) == "address"@ + ","@ + "uint256"@);
        assert(type_list(inputs) =~= "address,uint256"@);
        assert(sig@ =~= transfer_signature());
    }
    let digest = keccak256(sig.as_str().as_bytes());
    let mut data: Vec<u8> = Vec::new();
    let mut i: usize = 0;
    while i < 4
        invariant
            i <= 4,
            data@ == digest@.subrange(0, i as int),
        decreases 4 - i,
    {
        data.push(digest[i]);
        assert(data@ =~= digest@.subrange(0, i + 1));
        i = i + 1;
    }
    let mut args = abi_encode_address_uint(to, amount);
    proof {
        lemma_be_bytes_len(amount as nat, 32);
        assert(address_word(to@).len() == 32);
        assert(args@.len() == 64);
    }
    data.append(&mut args);
    data
}

} // verus!
