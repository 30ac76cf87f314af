use crate::address::{base58_address, occurs, Address, ParseAddressError};
use crate::decoder::PumpfunDecoder;
use crate::pipeline::{process, transaction_events, EventRecord};
use crate::registry::DecoderRegistry;
use crate::transaction::TransactionRecord;
use vstd::prelude::*;

verus! {

/// Why a plugin could not be constructed: the configured text is not an
/// address.
#[derive(Clone, Debug, PartialEq, Eq)]
pub struct ConfigError {
    /// The text as it was configured.
    pub text: String,
    pub reason: ParseAddressError,
}

/// What a plugin reports when it is loaded.
#[derive(Clone, Copy, Debug, PartialEq, Eq)]
pub struct StartupRecord {
    pub mint_address: Address,
}

/// Reports the pump.fun trades in the transactions that involve one mint.
#[derive(Clone, Copy, Debug)]
pub struct MintTrackingPlugin {
    /// The mint address to check for.
    pub mint_address: Address,
}

impl MintTrackingPlugin {
    /// A plugin that tracks `mint_address`.
    pub fn new(mint_address: Address) -> (plugin: Self)
        ensures
            plugin.mint_address == mint_address,
    {
        MintTrackingPlugin { mint_address }
    }

    /// The plugin for a configured text, given what parsing the text gave:
    /// a plugin for the address, or an error that names the text and the
    /// reason.
    pub fn configured(text: &str, parsed: Result<Address, ParseAddressError>) -> (made: Result<
        Self,
        ConfigError,
    >)
        ensures
            match parsed {
                Ok(address) => made matches Ok(plugin) && plugin.mint_address == address,
                Err(reason) => made matches Err(error) && error.reason == reason && error.text@
                    == text@,
            },
    {
        match parsed {
            Ok(address) => Ok(MintTrackingPlugin::new(address)),
            Err(reason) => Err(ConfigError { text: text.to_owned(), reason }),
        }
    }

    /// A plugin that tracks the mint whose address is `text` in base 58.
    /// Fails when `text` is not an address.
    pub fn from_base58(text: &str) -> (made: Result<Self, ConfigError>)
        ensures
            match base58_address(text@) {
                Ok(address) => made matches Ok(plugin) && plugin.mint_address == address,
                Err(reason) => made matches Err(error) && error.reason == reason && error.text@
                    == text@,
            },
    {
        Self::configured(text, Address::from_base58(text))
    }

    /// The name under which the plugin is registered.
    pub fn name(&self) -> (name: &'static str)
        ensures
            name@ == "Mint Tracking"@,
    {
        "Mint Tracking"
    }

    /// The decoders that the plugin runs: the pump.fun decoder alone.
    pub fn decoders() -> (registry: DecoderRegistry<PumpfunDecoder>)
        ensures
            registry@ == seq![PumpfunDecoder],
    {
        let mut registry = DecoderRegistry::new();
        registry.register(PumpfunDecoder);
        registry
    }

    /// Called when the plugin is loaded: reports which mint is tracked.
    pub fn on_load(&self) -> (record: StartupRecord)
        ensures
            record.mint_address == self.mint_address,
    {
        StartupRecord { mint_address: self.mint_address }
    }

    /// Called for every transaction.
    ///
    /// Returns `None` when the transaction does not involve the mint: then
    /// nothing is flattened or decoded. Otherwise returns one record for
    /// every pump.fun trade among the instructions that the transaction
    /// executed, in execution order.
    pub fn on_transaction(
        &self,
        _thread_id: usize,
        transaction: &TransactionRecord,
    ) -> (found: Option<Vec<EventRecord>>)
        ensures
            match found {
                Some(records) => transaction_events(
                    seq![PumpfunDecoder],
                    self.mint_address,
                    *transaction,
                ) == Some(records@),
                None => transaction_events(seq![PumpfunDecoder], self.mint_address, *transaction)
                    is None,
            },
            !occurs(transaction.message.body().account_keys@, self.mint_address) ==> found is None,
            transaction.message.body().instructions@.len() == 0 ==> found is None,
    {
        let registry = Self::decoders();
        process(&self.mint_address, &registry, transaction)
    }

    /// Called for every block. This plugin does no work per block: it
    /// reports nothing.
    pub fn on_block(&self, _thread_id: usize, _slot: u64) -> (records: Vec<EventRecord>)
        ensures
            records@.len() == 0,
    {
        Vec::new()
    }

    /// Called once when the orchestrator stops. Nothing is left to do.
    pub fn on_exit(&self) {
    }
}

} // verus!
