//! Contract name and version metadata carried inside the state.

use vstd::prelude::*;

verus! {

/// Name and version of the deployed contract.
#[derive(Clone, Debug, PartialEq, Eq)]
pub struct ContractVersionBase {
    /// Contract name.
    pub contract_name: String,
    /// Contract version.
    pub version: String,
}

impl ContractVersionBase {
    /// Creates the version metadata from a name and a version string.
    pub fn new(name: &str, version: &str) -> (r: ContractVersionBase)
        ensures
            r.contract_name@ == name@,
            r.version@ == version@,
    {
        ContractVersionBase {
            contract_name: String::from_str(name),
            version: String::from_str(version),
        }
    }

    /// Overwrites both the name and the version.
    pub fn set_contract_version(&mut self, name: &str, version: &str)
        ensures
            final(self).contract_name@ == name@,
            final(self).version@ == version@,
    {
        self.contract_name = String::from_str(name);
        self.version = String::from_str(version);
    }

    /// Returns the current contract name.
    pub fn get_contract_name(&self) -> (r: String)
        ensures
            r@ == self.contract_name@,
    {
        self.contract_name.clone()
    }

    /// Returns the current contract version.
    pub fn get_contract_version(&self) -> (r: String)
        ensures
            r@ == self.version@,
    {
        self.version.clone()
    }
}

} // verus!
