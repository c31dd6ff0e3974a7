use kitties::greeter::{Error, Event, Member, Membership, Pallet};

#[test]
fn it_works_for_default_value() {
    let mut g = Pallet::new();
    assert_eq!(g.greet(1), Ok(()));
    let before = g.member(1);
    let events_before = g.events().len();
    // a standard member greets only once
    assert_eq!(g.greet(1), Err(Error::QuotaExceeded));
    assert_eq!(g.member(1), before);
    assert_eq!(g.events().len(), events_before);
}

#[test]
fn test_alter_membership() {
    let mut g = Pallet::new();
    assert_eq!(g.alter_membership(1, "gold".into()), Ok(()));
}

#[test]
fn test_should_fail_alter_membership() {
    let mut g = Pallet::new();
    assert_eq!(g.alter_membership(1, "invalid_membership_string".into()), Err(Error::InvalidUpgrade));
    assert_eq!(g.member(1), None);
    assert!(g.events().is_empty());
}

#[test]
fn first_greeting_initializes_account() {
    let mut g = Pallet::new();
    assert_eq!(g.greet(7), Ok(()));
    assert_eq!(g.member(7), Some(Member { greet_count: 1, member_type: Membership::Standard, id: 7 }));
    assert_eq!(g.events(), &vec![Event::AccountInitialized { user: 7 }, Event::Greeted { user: 7 }]);
}

#[test]
fn gold_member_greets_up_to_quota() {
    let mut g = Pallet::new();
    assert_eq!(g.alter_membership(2, "GoLd".into()), Ok(()));
    assert_eq!(g.member(2), Some(Member { greet_count: 0, member_type: Membership::Gold, id: 2 }));
    // counts 0..=5 may greet: six greetings
    for _ in 0..6 {
        assert_eq!(g.greet(2), Ok(()));
    }
    assert_eq!(g.member(2).unwrap().greet_count, 6);
    assert_eq!(g.greet(2), Err(Error::QuotaExceeded));
    assert_eq!(g.member(2).unwrap().greet_count, 6);
}

#[test]
fn upgrade_keeps_count_and_downgrade_blocks_greeting() {
    let mut g = Pallet::new();
    assert_eq!(g.greet(3), Ok(()));
    assert_eq!(g.alter_membership(3, "platinum".into()), Ok(()));
    assert_eq!(g.member(3), Some(Member { greet_count: 1, member_type: Membership::Platinum, id: 3 }));
    assert_eq!(g.greet(3), Ok(()));
    assert_eq!(g.do_alter_membership(3, "standard"), Ok(()));
    assert_eq!(g.greet(3), Err(Error::QuotaExceeded));
    assert_eq!(
        g.events().last(),
        Some(&Event::MembershipUpgraded { user: 3, new_membership: Membership::Standard })
    );
}

#[test]
fn membership_name_too_long_or_not_utf8() {
    let mut g = Pallet::new();
    let long = vec![b'a'; 51];
    assert_eq!(g.alter_membership(4, long), Err(Error::InvalidUpgrade));
    assert_eq!(g.alter_membership(4, vec![0xff, 0xfe]), Err(Error::InvalidUpgrade));
    assert_eq!(g.member(4), None);
}

#[test]
fn quotas_and_names() {
    assert_eq!(Membership::Platinum.get_quota(), 10);
    assert_eq!(Membership::Gold.get_quota(), 5);
    assert_eq!(Membership::Standard.get_quota(), 1);
    assert_eq!(Membership::from_str("gold"), Ok(Membership::Gold));
    assert_eq!(Membership::from_str("Platinum"), Ok(Membership::Platinum));
    assert_eq!(Membership::from_str("STANDARD"), Ok(Membership::Standard));
    assert_eq!(Membership::from_str("silver"), Err(String::from("Invalid membership specified")));
}
