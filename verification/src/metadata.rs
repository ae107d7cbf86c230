//! The token's name, symbol and supply counter.

use vstd::prelude::*;

verus! {

/// Name, symbol and the number of tokens ever issued.
#[derive(Debug)]
pub struct TokenMetadata {
    name: String,
    symbol: String,
    total_supply: u128,
}

/// The metadata as mathematics sees it.
pub struct MetadataView {
    pub name: Seq<char>,
    pub symbol: Seq<char>,
    pub total_supply: nat,
}

impl View for TokenMetadata {
    type V = MetadataView;

    closed spec fn view(&self) -> MetadataView {
        MetadataView {
            name: self.name@,
            symbol: self.symbol@,
            total_supply: self.total_supply as nat,
        }
    }
}

impl TokenMetadata {
    /// Metadata of a token that was never named and has issued nothing.
    pub fn new() -> (metadata: TokenMetadata)
        ensures
            metadata@ == (MetadataView {
                name: Seq::<char>::empty(),
                symbol: Seq::<char>::empty(),
                total_supply: 0,
            }),
    {
        TokenMetadata { name: String::new(), symbol: String::new(), total_supply: 0 }
    }

    /// The supply fits in 128 bits.
    pub proof fn lemma_supply_fits(&self)
        ensures
            self@.total_supply <= u128::MAX,
    {
    }

    /// Metadata with the given name, symbol and supply.
    pub fn from_parts(name: String, symbol: String, total_supply: u128) -> (metadata:
        TokenMetadata)
        ensures
            metadata@ == (MetadataView {
                name: name@,
                symbol: symbol@,
                total_supply: total_supply as nat,
            }),
    {
        TokenMetadata { name, symbol, total_supply }
    }

    /// The token's name.
    pub fn name(&self) -> (name: &String)
        ensures
            name@ == self@.name,
    {
        &self.name
    }

    /// The token's symbol.
    pub fn symbol(&self) -> (symbol: &String)
        ensures
            symbol@ == self@.symbol,
    {
        &self.symbol
    }

    /// The number of tokens issued so far.
    pub fn total_supply(&self) -> (supply: u128)
        ensures
            supply == self@.total_supply,
    {
        self.total_supply
    }

    /// Replaces name and symbol; the supply stays.
    pub fn set_name_and_symbol(&mut self, name: String, symbol: String)
        ensures
            final(self)@ == (MetadataView { name: name@, symbol: symbol@, ..old(self)@ }),
    {
        self.name = name;
        self.symbol = symbol;
    }

    /// Adds `amount` to the supply where the sum fits in 128 bits, and says
    /// whether it did; otherwise nothing changes.
    pub fn increase_total_supply(&mut self, amount: u128) -> (increased: bool)
        ensures
            increased == (old(self)@.total_supply + amount <= u128::MAX),
            increased ==> final(self)@ == (MetadataView {
                total_supply: (old(self)@.total_supply + amount) as nat,
                ..old(self)@
            }),
            !increased ==> final(self)@ == old(self)@,
    {
        match self.total_supply.checked_add(amount) {
            Some(sum) => {
                self.total_supply = sum;
                true
            },
            None => false,
        }
    }
}

} // verus!
