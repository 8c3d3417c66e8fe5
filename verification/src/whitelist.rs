use vstd::prelude::*;

verus! {

/// Rejection of a whitelist administration call.
#[derive(Clone, Copy, Debug, PartialEq, Eq, Structural)]
pub enum WhitelistError {
    /// The caller is not the whitelist's owner.
    UnauthorizedOwner,
}

/// Administrative state of the resolver whitelist: who may register and
/// deregister resolvers. Which resolvers are registered is the host's
/// account store, keyed by resolver identity; this core only decides whether
/// a change is authorized.
#[derive(Clone, Copy, Debug, PartialEq, Eq)]
pub struct WhitelistState {
    pub owner: [u8; 32],
}

impl WhitelistState {
    /// Opens the whitelist with its first owner.
    pub fn initialize(owner: [u8; 32]) -> (s: Self)
        ensures
            s.owner == owner,
    {
        WhitelistState { owner }
    }

    /// Decides a request to register a resolver: only the owner may.
    /// On `Ok` the host adds `user` to its store of registered resolvers.
    pub fn register(&self, caller: &[u8; 32], user: &[u8; 32]) -> (r: Result<(), WhitelistError>)
        ensures
            r is Ok <==> caller@ == self.owner@,
            r is Err ==> r == Err::<(), WhitelistError>(WhitelistError::UnauthorizedOwner),
    {
        let _ = user;
        if crate::identity::bytes32_eq(caller, &self.owner) {
            Ok(())
        } else {
            Err(WhitelistError::UnauthorizedOwner)
        }
    }

    /// Decides a request to deregister a resolver: only the owner may.
    /// On `Ok` the host removes `user` from its store of registered resolvers.
    pub fn deregister(&self, caller: &[u8; 32], user: &[u8; 32]) -> (r: Result<
        (),
        WhitelistError,
    >)
        ensures
            r is Ok <==> caller@ == self.owner@,
            r is Err ==> r == Err::<(), WhitelistError>(WhitelistError::UnauthorizedOwner),
    {
        let _ = user;
        if crate::identity::bytes32_eq(caller, &self.owner) {
            Ok(())
        } else {
            Err(WhitelistError::UnauthorizedOwner)
        }
    }

    /// Hands the whitelist to a new owner; only the current owner may.
    pub fn transfer_ownership(&mut self, caller: &[u8; 32], new_owner: [u8; 32]) -> (r: Result<
        (),
        WhitelistError,
    >)
        ensures
            r is Ok <==> caller@ == old(self).owner@,
            r is Ok ==> final(self).owner == new_owner,
            r is Err ==> *final(self) == *old(self) && r == Err::<(), WhitelistError>(
                WhitelistError::UnauthorizedOwner,
            ),
    {
        if crate::identity::bytes32_eq(caller, &self.owner) {
            self.owner = new_owner;
            Ok(())
        } else {
            Err(WhitelistError::UnauthorizedOwner)
        }
    }
}

} // verus!
