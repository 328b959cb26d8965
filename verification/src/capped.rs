//! A capped token supply, as a behavior module would provide it.
//!
//! The cap lives in a storage fragment with one lazy field. It is set once,
//! to a value above zero, and minting more than the cap allows is reported
//! as exceeding it.

use vstd::prelude::*;
use vstd::string::StringExecFns;

verus! {

/// An amount of tokens.
pub type Balance = u128;

/// Why an operation on the token was refused.
#[derive(Debug, PartialEq, Eq)]
pub enum PSP22Error {
    /// A refusal with a message of its own.
    Custom(String),
}

impl PSP22Error {
    /// The text of the refusal.
    pub open spec fn message(self) -> Seq<char> {
        match self {
            PSP22Error::Custom(m) => m@,
        }
    }
}

/// The storage fragment of the capped supply. Its one field is lazy: unset
/// until first written, and read as zero until then.
#[derive(Debug, PartialEq, Eq)]
pub struct Data {
    pub cap: Option<Balance>,
}

impl Data {
    /// The cap as it reads: what was written last, or zero.
    pub open spec fn value(&self) -> Balance {
        match self.cap {
            Some(cap) => cap,
            None => 0,
        }
    }

    /// The fragment with its field unset.
    pub fn new() -> (d: Data)
        ensures
            d.cap is None,
    {
        Data { cap: None }
    }

    /// The cap, or zero while it is unset.
    pub fn get_or_default(&self) -> (r: Balance)
        ensures
            r == self.value(),
    {
        match self.cap {
            Some(cap) => cap,
            None => 0,
        }
    }

    /// Writes the cap.
    pub fn set(&mut self, cap: Balance)
        ensures
            final(self).cap == Some(cap),
    {
        self.cap = Some(cap);
    }
}

/// What the rest of a token relies on from its capped supply.
pub trait Internal {
    /// The cap in force.
    spec fn cap_in_force(&self) -> Balance;

    /// The tokens in existence.
    spec fn supply(&self) -> Balance;

    /// Initializes the token's cap. A cap of zero is refused and leaves
    /// the cap as it was.
    fn _init_cap(&mut self, cap: Balance) -> (r: Result<(), PSP22Error>)
        ensures
            final(self).supply() == old(self).supply(),
            match r {
                Ok(_) => cap != 0 && final(self).cap_in_force() == cap,
                Err(e) => cap == 0 && final(self).cap_in_force() == old(self).cap_in_force()
                    && e.message() == "Cap must be above 0"@,
            },
    ;

    /// Whether `amount` more tokens would take the supply above the cap.
    fn _is_cap_exceeded(&self, amount: &Balance) -> (r: bool)
        ensures
            r == (self.supply() + *amount > self.cap_in_force()),
    ;

    /// The cap in force.
    fn _cap(&self) -> (r: Balance)
        ensures
            r == self.cap_in_force(),
    ;
}

/// The externally callable side of the capped supply.
pub trait PSP22CappedImpl: Internal {
    /// The cap in force.
    fn cap(&self) -> (r: Balance)
        ensures
            r == self.cap_in_force(),
    {
        self._cap()
    }
}

/// The default logic of the capped supply, over the storage fragment of the
/// object and its total supply. An object provides the three accessors and
/// gets the rest.
pub trait InternalImpl {
    /// The capped-supply fragment of the object.
    spec fn capped(&self) -> Data;

    /// The tokens in existence.
    spec fn minted(&self) -> Balance;

    /// The capped-supply fragment of the object.
    fn data(&self) -> (d: &Data)
        ensures
            *d == self.capped(),
    ;

    /// Writes the cap into the object's fragment and changes nothing else.
    fn put_cap(&mut self, cap: Balance)
        ensures
            final(self).capped().cap == Some(cap),
            final(self).minted() == old(self).minted(),
    ;

    /// The tokens in existence.
    fn total_supply(&self) -> (s: Balance)
        ensures
            s == self.minted(),
    ;

    /// Initializes the token's cap. A cap of zero is refused and leaves
    /// storage as it was.
    fn _init_cap(&mut self, cap: Balance) -> (r: Result<(), PSP22Error>)
        ensures
            final(self).minted() == old(self).minted(),
            match r {
                Ok(_) => cap != 0 && final(self).capped().cap == Some(cap),
                Err(e) => cap == 0 && final(self).capped() == old(self).capped() && e.message()
                    == "Cap must be above 0"@,
            },
    {
        if cap == 0 {
            return Err(PSP22Error::Custom(String::from_str("Cap must be above 0")));
        }
        self.put_cap(cap);
        Ok(())
    }

    /// Whether `amount` more tokens would take the supply above the cap.
    fn _is_cap_exceeded(&self, amount: &Balance) -> (r: bool)
        ensures
            r == (self.minted() + *amount > self.capped().value()),
    {
        let supply = self.total_supply();
        let cap = self._cap();
        supply > cap || *amount > cap - supply
    }

    /// The cap as it reads from storage: zero while it is unset.
    fn _cap(&self) -> (r: Balance)
        ensures
            r == self.capped().value(),
    {
        self.data().get_or_default()
    }
}

/// The smallest object with a capped supply: the fragment and a count of the
/// tokens in existence.
#[derive(Debug, PartialEq, Eq)]
pub struct CappedSupply {
    pub capped: Data,
    pub total_supply: Balance,
}

impl InternalImpl for CappedSupply {
    open spec fn capped(&self) -> Data {
        self.capped
    }

    open spec fn minted(&self) -> Balance {
        self.total_supply
    }

    fn data(&self) -> (d: &Data) {
        &self.capped
    }

    fn put_cap(&mut self, cap: Balance) {
        self.capped.set(cap);
    }

    fn total_supply(&self) -> (s: Balance) {
        self.total_supply
    }
}

impl Internal for CappedSupply {
    open spec fn cap_in_force(&self) -> Balance {
        self.capped.value()
    }

    open spec fn supply(&self) -> Balance {
        self.total_supply
    }

    fn _init_cap(&mut self, cap: Balance) -> (r: Result<(), PSP22Error>) {
        InternalImpl::_init_cap(self, cap)
    }

    fn _is_cap_exceeded(&self, amount: &Balance) -> (r: bool) {
        InternalImpl::_is_cap_exceeded(self, amount)
    }

    fn _cap(&self) -> (r: Balance) {
        InternalImpl::_cap(self)
    }
}

impl PSP22CappedImpl for CappedSupply {

}

} // verus!
