//! The configuration of a marketplace client.

use vstd::prelude::*;

use crate::address::RawId;

verus! {

/// The network, the account and the gas budget of a client.
#[derive(Debug)]
pub struct SuiConfig {
    pub network: String,
    pub rpc_url: String,
    pub gas_budget: u64,
    /// Path to the directory containing `sui.keystore` (e.g. `~/.sui/sui_config`).
    pub keystore: String,
    /// Signing account address.
    pub address: RawId,
}

/// The marketplace that a client works with.
#[derive(Debug)]
pub struct MarketplaceConfig {
    pub package_id: RawId,
    pub marketplace_id: RawId,
    pub coin_type: String,
}

/// The configuration of a marketplace client.
#[derive(Debug)]
pub struct MarketConfig {
    pub sui: SuiConfig,
    pub marketplace: MarketplaceConfig,
}

impl Clone for SuiConfig {
    fn clone(&self) -> (r: Self)
        ensures
            r == *self,
    {
        SuiConfig {
            network: self.network.clone(),
            rpc_url: self.rpc_url.clone(),
            gas_budget: self.gas_budget,
            keystore: self.keystore.clone(),
            address: self.address,
        }
    }
}

impl Clone for MarketplaceConfig {
    fn clone(&self) -> (r: Self)
        ensures
            r == *self,
    {
        MarketplaceConfig {
            package_id: self.package_id,
            marketplace_id: self.marketplace_id,
            coin_type: self.coin_type.clone(),
        }
    }
}

impl Clone for MarketConfig {
    fn clone(&self) -> (r: Self)
        ensures
            r == *self,
    {
        MarketConfig { sui: self.sui.clone(), marketplace: self.marketplace.clone() }
    }
}

}
