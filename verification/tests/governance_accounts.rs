use quorumkeys::account::Account;
use quorumkeys::council::Council;
use quorumkeys::governance::{Event, GenesisConfig, GovernanceError, Pallet};

#[test]
fn test_account_lifecycle() {
    let mut account = Account::new();
    assert!(account.active);
    account.deactivate();
    assert!(!account.active);
}

#[test]
fn test_council_quorum() {
    assert!(!Council::new(9).has_quorum());
    assert!(Council::new(10).has_quorum());
    assert!(Council::new(25).has_quorum());
}

#[test]
fn test_membership_add_remove() {
    let mut pallet = Pallet::new(vec![1, 2, 3], 3);

    assert_eq!(pallet.add_member(4).unwrap(), Event::MemberAdded(4));
    assert_eq!(pallet.members, vec![1, 2, 3, 4]);

    assert_eq!(pallet.add_member(2).unwrap_err(), GovernanceError::AlreadyMember);
    assert_eq!(pallet.members, vec![1, 2, 3, 4]);

    assert_eq!(pallet.remove_member(2).unwrap(), Event::MemberRemoved(2));
    assert_eq!(pallet.members, vec![1, 3, 4]);

    assert_eq!(pallet.remove_member(9).unwrap_err(), GovernanceError::NotMember);
    assert_eq!(pallet.members, vec![1, 3, 4]);
}

#[test]
fn test_membership_quorum_check() {
    let mut pallet = Pallet::new(vec![10, 20], 3);
    assert_eq!(pallet.check_quorum().unwrap_err(), GovernanceError::QuorumNotMet);
    pallet.add_member(30).unwrap();
    assert_eq!(pallet.check_quorum().unwrap(), Event::QuorumReached(3));
}

#[test]
fn test_genesis_build() {
    let genesis = GenesisConfig { initial_members: vec![7, 8] };
    let pallet = genesis.build(2);
    assert_eq!(pallet.members, vec![7, 8]);
    assert_eq!(pallet.check_quorum().unwrap(), Event::QuorumReached(2));
}
