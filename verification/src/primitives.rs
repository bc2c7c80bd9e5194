//! Basic Ethereum value types: addresses, hashes, numeric newtypes, storage
//! slots, byte strings, and accounts.

use vstd::prelude::*;

verus! {

/// 20-byte account identity.
#[derive(Clone, Copy, Debug)]
#[verifier::ext_equal]
pub struct Address {
    pub bytes: [u8; 20],
}

impl Address {
    /// The all-zero address, used as the caller of read-only calls and
    /// rejected as a transaction signer.
    pub fn zero() -> (r: Address)
        ensures
            r.is_zero(),
    {
        Address { bytes: [0u8; 20] }
    }

    pub fn new(bytes: [u8; 20]) -> (r: Address)
        ensures
            r.bytes@ == bytes@,
    {
        Address { bytes }
    }

    /// An address is zero when every byte is zero.
    pub open spec fn is_zero(self) -> bool {
        forall|i: int| 0 <= i < 20 ==> self.bytes@[i] == 0u8
    }

    /// Runtime check for the zero address.
    pub fn check_zero(&self) -> (r: bool)
        ensures
            r == self.is_zero(),
    {
        let mut i: usize = 0;
        while i < 20
            invariant
                i <= 20,
                forall|j: int| 0 <= j < i ==> self.bytes@[j] == 0u8,
            decreases 20 - i,
        {
            if self.bytes[i] != 0 {
                return false;
            }
            i = i + 1;
        }
        true
    }

    /// Byte-for-byte equality of two addresses.
    pub fn eq_addr(&self, other: &Address) -> (r: bool)
        ensures
            r == (self@ == other@),
            r == (*self == *other),
    {
        let mut i: usize = 0;
        while i < 20
            invariant
                i <= 20,
                forall|j: int| 0 <= j < i ==> self.bytes@[j] == other.bytes@[j],
            decreases 20 - i,
        {
            if self.bytes[i] != other.bytes[i] {
                return false;
            }
            i = i + 1;
        }
        proof {
            assert(self.bytes@ =~= other.bytes@);
            assert(self.bytes =~= other.bytes);
            assert(*self =~= *other);
        }
        true
    }
}

impl View for Address {
    type V = Seq<u8>;

    open spec fn view(&self) -> Seq<u8> {
        self.bytes@
    }
}

/// 32-byte digest identifying a transaction or a block.
#[derive(Clone, Copy, Debug)]
#[verifier::ext_equal]
pub struct Hash256 {
    pub bytes: [u8; 32],
}

impl Hash256 {
    pub fn zero() -> (r: Hash256)
        ensures
            r@ == Seq::new(32, |i: int| 0u8),
    {
        let h = Hash256 { bytes: [0u8; 32] };
        proof {
            assert(h.bytes@ =~= Seq::new(32, |i: int| 0u8));
        }
        h
    }

    pub fn new(bytes: [u8; 32]) -> (r: Hash256)
        ensures
            r.bytes@ == bytes@,
    {
        Hash256 { bytes }
    }

    /// Byte-for-byte equality of two hashes.
    pub fn eq_hash(&self, other: &Hash256) -> (r: bool)
        ensures
            r == (self@ == other@),
            r == (*self == *other),
    {
        let mut i: usize = 0;
        while i < 32
            invariant
                i <= 32,
                forall|j: int| 0 <= j < i ==> self.bytes@[j] == other.bytes@[j],
            decreases 32 - i,
        {
            if self.bytes[i] != other.bytes[i] {
                return false;
            }
            i = i + 1;
        }
        proof {
            assert(self.bytes@ =~= other.bytes@);
            assert(self.bytes =~= other.bytes);
            assert(*self =~= *other);
        }
        true
    }
}

impl View for Hash256 {
    type V = Seq<u8>;

    open spec fn view(&self) -> Seq<u8> {
        self.bytes@
    }
}

/// Transaction counter of an account.
#[derive(Clone, Copy, Debug, PartialEq, Eq, Structural)]
pub struct Nonce {
    pub value: u64,
}

impl Nonce {
    pub fn new(value: u64) -> (r: Nonce)
        ensures
            r.value == value,
    {
        Nonce { value }
    }
}

/// Native token amount (wei).
#[derive(Clone, Copy, Debug, PartialEq, Eq, Structural)]
pub struct Amount {
    pub value: u64,
}

impl Amount {
    pub fn new(value: u64) -> (r: Amount)
        ensures
            r.value == value,
    {
        Amount { value }
    }
}

/// Gas unit count.
#[derive(Clone, Copy, Debug, PartialEq, Eq, Structural)]
pub struct Gas {
    pub value: u64,
}

impl Gas {
    pub fn new(value: u64) -> (r: Gas)
        ensures
            r.value == value,
    {
        Gas { value }
    }
}

/// 32-byte key of a contract storage slot.
#[derive(Clone, Copy, Debug)]
#[verifier::ext_equal]
pub struct SlotIndex {
    pub bytes: [u8; 32],
}

impl SlotIndex {
    pub fn new(bytes: [u8; 32]) -> (r: SlotIndex)
        ensures
            r.bytes@ == bytes@,
    {
        SlotIndex { bytes }
    }

    /// Byte-for-byte equality of two slot indexes.
    pub fn eq_index(&self, other: &SlotIndex) -> (r: bool)
        ensures
            r == (self@ == other@),
            r == (*self == *other),
    {
        let mut i: usize = 0;
        while i < 32
            invariant
                i <= 32,
                forall|j: int| 0 <= j < i ==> self.bytes@[j] == other.bytes@[j],
            decreases 32 - i,
        {
            if self.bytes[i] != other.bytes[i] {
                return false;
            }
            i = i + 1;
        }
        proof {
            assert(self.bytes@ =~= other.bytes@);
            assert(self.bytes =~= other.bytes);
            assert(*self =~= *other);
        }
        true
    }
}

impl View for SlotIndex {
    type V = Seq<u8>;

    open spec fn view(&self) -> Seq<u8> {
        self.bytes@
    }
}

/// 32-byte value held by a contract storage slot.
#[derive(Clone, Copy, Debug)]
#[verifier::ext_equal]
pub struct SlotValue {
    pub bytes: [u8; 32],
}

impl SlotValue {
    pub fn zero() -> (r: SlotValue)
        ensures
            r@ == Seq::new(32, |i: int| 0u8),
    {
        let v = SlotValue { bytes: [0u8; 32] };
        proof {
            assert(v.bytes@ =~= Seq::new(32, |i: int| 0u8));
        }
        v
    }

    pub fn new(bytes: [u8; 32]) -> (r: SlotValue)
        ensures
            r.bytes@ == bytes@,
    {
        SlotValue { bytes }
    }

    /// Byte-for-byte equality of two slot values.
    pub fn eq_value(&self, other: &SlotValue) -> (r: bool)
        ensures
            r == (self@ == other@),
            r == (*self == *other),
    {
        let mut i: usize = 0;
        while i < 32
            invariant
                i <= 32,
                forall|j: int| 0 <= j < i ==> self.bytes@[j] == other.bytes@[j],
            decreases 32 - i,
        {
            if self.bytes[i] != other.bytes[i] {
                return false;
            }
            i = i + 1;
        }
        proof {
            assert(self.bytes@ =~= other.bytes@);
            assert(self.bytes =~= other.bytes);
            assert(*self =~= *other);
        }
        true
    }
}

impl View for SlotValue {
    type V = Seq<u8>;

    open spec fn view(&self) -> Seq<u8> {
        self.bytes@
    }
}

/// A storage slot: an index together with its value.
#[derive(Clone, Copy, Debug)]
#[verifier::ext_equal]
pub struct Slot {
    pub index: SlotIndex,
    pub value: SlotValue,
}

impl Slot {
    pub fn new(index: SlotIndex, value: SlotValue) -> (r: Slot)
        ensures
            r.index == index,
            r.value == value,
    {
        Slot { index, value }
    }

    /// A slot whose value is all zeroes, returned when a read misses.
    pub fn new_empty(index: SlotIndex) -> (r: Slot)
        ensures
            r.index == index,
            r.value@ == Seq::new(32, |i: int| 0u8),
    {
        Slot { index, value: SlotValue::zero() }
    }
}

/// Opaque byte string: calldata, return data, or contract bytecode.
#[derive(Debug)]
#[verifier::ext_equal]
pub struct Bytes {
    pub data: Vec<u8>,
}

impl Clone for Bytes {
    fn clone(&self) -> (r: Self)
        ensures
            r@ == self@,
    {
        let data = self.data.clone();
        proof {
            assert(data@ =~= self.data@);
        }
        Bytes { data }
    }
}

impl Bytes {
    pub fn new(data: Vec<u8>) -> (r: Bytes)
        ensures
            r.data@ == data@,
    {
        Bytes { data }
    }

    pub fn empty() -> (r: Bytes)
        ensures
            r.data@ == Seq::<u8>::empty(),
    {
        let b = Bytes { data: Vec::new() };
        proof {
            assert(b.data@ =~= Seq::<u8>::empty());
        }
        b
    }

    /// Byte-for-byte equality of two byte strings.
    pub fn eq_bytes(&self, other: &Bytes) -> (r: bool)
        ensures
            r == (self@ == other@),
    {
        if self.data.len() != other.data.len() {
            return false;
        }
        let n = self.data.len();
        let mut i: usize = 0;
        while i < n
            invariant
                i <= n,
                n == self.data@.len(),
                n == other.data@.len(),
                forall|j: int| 0 <= j < i ==> self.data@[j] == other.data@[j],
            decreases n - i,
        {
            if self.data[i] != other.data[i] {
                return false;
            }
            i = i + 1;
        }
        proof {
            assert(self.data@ =~= other.data@);
        }
        true
    }
}

impl View for Bytes {
    type V = Seq<u8>;

    open spec fn view(&self) -> Seq<u8> {
        self.data@
    }
}

/// View of an optional byte string as an optional byte sequence.
pub open spec fn opt_bytes_view(x: Option<Bytes>) -> Option<Seq<u8>> {
    match x {
        None => None,
        Some(b) => Some(b@),
    }
}

/// Clones an optional byte string, keeping its contents.
pub fn clone_opt_bytes(x: &Option<Bytes>) -> (r: Option<Bytes>)
    ensures
        opt_bytes_view(r) == opt_bytes_view(*x),
{
    match x {
        None => None,
        Some(b) => Some(b.clone()),
    }
}

/// View of an optional list of slot indexes.
pub open spec fn opt_indexes_view(x: Option<Vec<SlotIndex>>) -> Option<Seq<SlotIndex>> {
    match x {
        None => None,
        Some(v) => Some(v@),
    }
}

/// Clones an optional list of slot indexes, keeping its contents.
pub fn clone_opt_indexes(x: &Option<Vec<SlotIndex>>) -> (r: Option<Vec<SlotIndex>>)
    ensures
        opt_indexes_view(r) == opt_indexes_view(*x),
{
    match x {
        None => None,
        Some(v) => {
            let c = v.clone();
            proof {
                assert(c@ =~= v@);
            }
            Some(c)
        },
    }
}

/// Account state: identity, transaction counter, balance, code with its
/// hash, and the indexed slot sets the EVM tracks for the account.
#[derive(Debug)]
pub struct Account {
    pub address: Address,
    pub nonce: Nonce,
    pub balance: Amount,
    pub bytecode: Option<Bytes>,
    pub code_hash: Option<Hash256>,
    pub static_slot_indexes: Option<Vec<SlotIndex>>,
    pub mapping_slot_indexes: Option<Vec<SlotIndex>>,
}

/// Mathematical value of an [`Account`].
#[verifier::ext_equal]
pub ghost struct AccountV {
    pub address: Address,
    pub nonce: Nonce,
    pub balance: Amount,
    pub bytecode: Option<Seq<u8>>,
    pub code_hash: Option<Hash256>,
    pub static_slot_indexes: Option<Seq<SlotIndex>>,
    pub mapping_slot_indexes: Option<Seq<SlotIndex>>,
}

impl AccountV {
    /// A fresh account at the given address with zeroed state: no code, no
    /// code hash, and no indexed slot sets yet.
    pub open spec fn new_empty(address: Address) -> AccountV {
        AccountV {
            address,
            nonce: Nonce { value: 0 },
            balance: Amount { value: 0 },
            bytecode: None,
            code_hash: None,
            static_slot_indexes: None,
            mapping_slot_indexes: None,
        }
    }
}

impl View for Account {
    type V = AccountV;

    open spec fn view(&self) -> AccountV {
        AccountV {
            address: self.address,
            nonce: self.nonce,
            balance: self.balance,
            bytecode: opt_bytes_view(self.bytecode),
            code_hash: self.code_hash,
            static_slot_indexes: opt_indexes_view(self.static_slot_indexes),
            mapping_slot_indexes: opt_indexes_view(self.mapping_slot_indexes),
        }
    }
}

impl Clone for Account {
    fn clone(&self) -> (r: Self)
        ensures
            r@ == self@,
    {
        let r = Account {
            address: self.address,
            nonce: self.nonce,
            balance: self.balance,
            bytecode: clone_opt_bytes(&self.bytecode),
            code_hash: self.code_hash,
            static_slot_indexes: clone_opt_indexes(&self.static_slot_indexes),
            mapping_slot_indexes: clone_opt_indexes(&self.mapping_slot_indexes),
        };
        proof {
            assert(r@ =~= self@);
        }
        r
    }
}

impl Account {
    /// A fresh account at the given address with zeroed state.
    pub fn new_empty(address: Address) -> (r: Account)
        ensures
            r@ == AccountV::new_empty(address),
    {
        let r = Account {
            address,
            nonce: Nonce::new(0),
            balance: Amount::new(0),
            bytecode: None,
            code_hash: None,
            static_slot_indexes: None,
            mapping_slot_indexes: None,
        };
        proof {
            assert(r@ =~= AccountV::new_empty(address));
        }
        r
    }
}

} // verus!
