use vstd::prelude::*;
use vstd::std_specs::cmp::PartialEqSpecImpl;

verus! {

/// Width of an account address in bytes.
pub const ADDRESS_LEN: usize = 32;

/// A fixed-width account address: the identifier of a participant or a
/// program. Two addresses are equal when all of their bytes are.
#[derive(Clone, Copy, Debug)]
pub struct Address {
    pub bytes: [u8; ADDRESS_LEN],
}

impl View for Address {
    type V = Seq<u8>;

    open spec fn view(&self) -> Seq<u8> {
        self.bytes@
    }
}

impl PartialEq for Address {
    fn eq(&self, other: &Address) -> (same: bool) {
        let mut i: usize = 0;
        while i < ADDRESS_LEN
            invariant
                i <= ADDRESS_LEN,
                forall|j: int| 0 <= j < i ==> self.bytes[j] == other.bytes[j],
            decreases ADDRESS_LEN - i,
        {
            if self.bytes[i] != other.bytes[i] {
                return false;
            }
            i += 1;
        }
        proof {
            assert(self.bytes =~= other.bytes);
        }
        true
    }
}

impl Eq for Address {

}

impl PartialEqSpecImpl for Address {
    open spec fn obeys_eq_spec() -> bool {
        true
    }

    open spec fn eq_spec(&self, other: &Address) -> bool {
        *self == *other
    }
}

/// Why a text is not the base-58 form of an address.
#[derive(Clone, Copy, Debug, PartialEq, Eq, Structural)]
pub enum ParseAddressError {
    /// The text does not stand for exactly 32 bytes.
    WrongSize,
    /// The text holds a character outside the base-58 alphabet.
    Invalid,
}

impl ParseAddressError {
    /// The reason in words.
    pub fn describe(&self) -> (words: &'static str)
        ensures
            words@ == match *self {
                ParseAddressError::WrongSize => "String is the wrong size"@,
                ParseAddressError::Invalid => "Invalid Base58 string"@,
            },
    {
        match self {
            ParseAddressError::WrongSize => "String is the wrong size",
            ParseAddressError::Invalid => "Invalid Base58 string",
        }
    }
}

/// What `solana_pubkey` makes of a text that should be the base-58 form of
/// an address: the address, or the reason why it is none.
pub uninterp spec fn base58_address(text: Seq<char>) -> Result<Address, ParseAddressError>;

/// Parses `text` with the `FromStr` impl of `solana_pubkey::Pubkey`.
///
/// Not proved: that the outcome depends on the characters of `text` alone.
/// Nothing is claimed of which texts are accepted.
#[verifier::external_body]
fn parse_base58(text: &str) -> (parsed: Result<Address, ParseAddressError>)
    ensures
        parsed == base58_address(text@),
{
    match text.parse::<solana_pubkey::Pubkey>() {
        Ok(key) => Ok(Address { bytes: key.to_bytes() }),
        Err(solana_pubkey::ParsePubkeyError::WrongSize) => Err(ParseAddressError::WrongSize),
        Err(solana_pubkey::ParsePubkeyError::Invalid) => Err(ParseAddressError::Invalid),
    }
}

impl Address {
    /// The address whose bytes are all zero.
    pub open spec fn zero() -> Address {
        Address { bytes: vstd::array::spec_array_fill_for_copy_type::<u8, 32>(0u8) }
    }

    /// The address whose bytes are all zero.
    pub fn zeroed() -> (address: Address)
        ensures
            address == Address::zero(),
            forall|i: int| 0 <= i < ADDRESS_LEN ==> address@[i] == 0u8,
    {
        Address { bytes: [0u8; 32] }
    }

    /// Reads an address from its base-58 form.
    pub fn from_base58(text: &str) -> (parsed: Result<Address, ParseAddressError>)
        ensures
            parsed == base58_address(text@),
    {
        parse_base58(text)
    }
}

/// Whether `target` occurs in `keys`.
pub open spec fn occurs(keys: Seq<Address>, target: Address) -> bool {
    exists|i: int| 0 <= i < keys.len() && keys[i] == target
}

/// Linear search for `target` among `keys`.
pub fn contains_address(keys: &Vec<Address>, target: &Address) -> (found: bool)
    ensures
        found == occurs(keys@, *target),
{
    let mut i: usize = 0;
    while i < keys.len()
        invariant
            i <= keys.len(),
            forall|j: int| 0 <= j < i ==> keys@[j] != *target,
        decreases keys.len() - i,
    {
        if keys[i] == *target {
            return true;
        }
        i += 1;
    }
    false
}

} // verus!
