use fusion_swap::whitelist::{WhitelistError, WhitelistState};

const OWNER: [u8; 32] = [1u8; 32];
const STRANGER: [u8; 32] = [2u8; 32];
const RESOLVER: [u8; 32] = [3u8; 32];

#[test]
fn owner_may_register_and_deregister() {
    let state = WhitelistState::initialize(OWNER);
    assert_eq!(state.register(&OWNER, &RESOLVER), Ok(()));
    assert_eq!(state.deregister(&OWNER, &RESOLVER), Ok(()));
}

#[test]
fn strangers_may_not_administer() {
    let mut state = WhitelistState::initialize(OWNER);
    assert_eq!(
        state.register(&STRANGER, &RESOLVER),
        Err(WhitelistError::UnauthorizedOwner)
    );
    assert_eq!(
        state.deregister(&STRANGER, &RESOLVER),
        Err(WhitelistError::UnauthorizedOwner)
    );
    assert_eq!(
        state.transfer_ownership(&STRANGER, STRANGER),
        Err(WhitelistError::UnauthorizedOwner)
    );
    assert_eq!(state.owner, OWNER);
}

#[test]
fn ownership_transfer_hands_over_control() {
    let mut state = WhitelistState::initialize(OWNER);
    assert_eq!(state.transfer_ownership(&OWNER, STRANGER), Ok(()));
    assert_eq!(state.owner, STRANGER);
    assert_eq!(
        state.register(&OWNER, &RESOLVER),
        Err(WhitelistError::UnauthorizedOwner)
    );
    assert_eq!(state.register(&STRANGER, &RESOLVER), Ok(()));
}
