use kitties::dna::encode_payload;
use kitties::{gen_dna, gender_from_dna, Balances, Error, Event, Gender, Kitty, Ledger, LedgerError, Pallet};

const A: u64 = 1;
const B: u64 = 2;
const C: u64 = 3;

fn dna(n: u8) -> [u8; 16] {
    let mut d = [0u8; 16];
    d[0] = n;
    d[15] = 0xaa;
    d
}

fn funded() -> Balances {
    let mut l = Balances::new(1);
    l.set_balance(A, 1_000);
    l.set_balance(B, 1_000);
    l.set_balance(C, 10);
    l
}

#[test]
fn mint_then_capacity_reached() {
    let mut p = Pallet::new(1);
    assert_eq!(p.count_for_kitties(), 0);
    assert_eq!(p.mint(A, dna(1), Gender::Male), Ok(dna(1)));
    assert_eq!(p.count_for_kitties(), 1);
    assert_eq!(p.mint(A, dna(2), Gender::Female), Err(Error::TooManyOwned));
    assert_eq!(p.count_for_kitties(), 1);
    assert_eq!(p.kitty(&dna(2)), None);
    assert_eq!(p.kitties_owned(A), vec![dna(1)]);
}

#[test]
fn mint_record_and_event() {
    let mut p = Pallet::new(5);
    assert_eq!(p.kitty(&dna(9)), None);
    assert_eq!(p.mint(A, dna(9), Gender::Female), Ok(dna(9)));
    assert_eq!(p.kitty(&dna(9)), Some(Kitty { dna: dna(9), price: None, gender: Gender::Female, owner: A }));
    assert_eq!(p.events(), &vec![Event::Created { kitty: dna(9), owner: A }]);
}

#[test]
fn mint_duplicate_rejected() {
    let mut p = Pallet::new(5);
    assert_eq!(p.mint(A, dna(1), Gender::Male), Ok(dna(1)));
    assert_eq!(p.mint(B, dna(1), Gender::Female), Err(Error::DuplicateKitty));
    assert_eq!(p.count_for_kitties(), 1);
    assert!(p.kitties_owned(B).is_empty());
    assert_eq!(p.kitty(&dna(1)).unwrap().owner, A);
}

#[test]
fn zero_capacity_refuses_every_mint() {
    let mut p = Pallet::new(0);
    assert_eq!(p.mint(A, dna(1), Gender::Male), Err(Error::TooManyOwned));
    assert_eq!(p.max_kitties_owned(), 0);
}

#[test]
fn transfer_to_self_fails() {
    let mut p = Pallet::new(5);
    p.mint(A, dna(1), Gender::Male).unwrap();
    p.set_price(A, dna(1), Some(7)).unwrap();
    let events = p.events().len();
    assert_eq!(p.transfer(A, A, dna(1)), Err(Error::TransferToSelf));
    assert_eq!(p.kitty(&dna(1)).unwrap().owner, A);
    assert_eq!(p.kitty(&dna(1)).unwrap().price, Some(7));
    assert_eq!(p.kitties_owned(A), vec![dna(1)]);
    assert_eq!(p.events().len(), events);
}

#[test]
fn transfer_errors() {
    let mut p = Pallet::new(1);
    p.mint(A, dna(1), Gender::Male).unwrap();
    p.mint(B, dna(2), Gender::Male).unwrap();
    assert_eq!(p.transfer(A, B, dna(3)), Err(Error::NoKitty));
    assert_eq!(p.transfer(B, C, dna(1)), Err(Error::NotOwner));
    assert_eq!(p.transfer(A, B, dna(1)), Err(Error::TooManyOwned));
    assert_eq!(p.kitties_owned(A), vec![dna(1)]);
    assert_eq!(p.kitties_owned(B), vec![dna(2)]);
    assert_eq!(p.do_transfer(dna(3), B), Err(Error::NoKitty));
    assert_eq!(p.do_transfer(dna(1), A), Err(Error::TransferToSelf));
}

#[test]
fn transfer_and_back_clears_price() {
    let mut p = Pallet::new(5);
    p.mint(A, dna(1), Gender::Male).unwrap();
    p.mint(A, dna(2), Gender::Female).unwrap();
    p.mint(A, dna(3), Gender::Female).unwrap();
    p.set_price(A, dna(1), Some(40)).unwrap();
    assert_eq!(p.transfer(A, B, dna(1)), Ok(()));
    assert_eq!(p.kitty(&dna(1)).unwrap().owner, B);
    assert_eq!(p.kitty(&dna(1)).unwrap().price, None);
    // swap removal: the last one takes the place of the removed one
    assert_eq!(p.kitties_owned(A), vec![dna(3), dna(2)]);
    assert_eq!(p.kitties_owned(B), vec![dna(1)]);
    p.set_price(B, dna(1), Some(50)).unwrap();
    assert_eq!(p.transfer(B, A, dna(1)), Ok(()));
    assert_eq!(p.kitty(&dna(1)), Some(Kitty { dna: dna(1), price: None, gender: Gender::Male, owner: A }));
    assert!(p.kitties_owned(B).is_empty());
    assert_eq!(p.kitties_owned(A), vec![dna(3), dna(2), dna(1)]);
    assert_eq!(p.events().last(), Some(&Event::Transferred { from: B, to: A, kitty: dna(1) }));
}

#[test]
fn set_price_errors_and_event() {
    let mut p = Pallet::new(5);
    p.mint(A, dna(1), Gender::Male).unwrap();
    assert_eq!(p.set_price(A, dna(2), Some(1)), Err(Error::NoKitty));
    assert_eq!(p.set_price(B, dna(1), Some(1)), Err(Error::NotOwner));
    assert_eq!(p.set_price(A, dna(1), Some(100)), Ok(()));
    assert_eq!(p.events().last(), Some(&Event::PriceSet { kitty: dna(1), price: Some(100) }));
    assert_eq!(p.set_price(A, dna(1), None), Ok(()));
    assert_eq!(p.kitty(&dna(1)).unwrap().price, None);
}

#[test]
fn buy_at_price() {
    let mut p = Pallet::new(5);
    let mut l = funded();
    p.mint(A, dna(1), Gender::Male).unwrap();
    p.set_price(A, dna(1), Some(100)).unwrap();
    let n = p.events().len();
    assert_eq!(p.do_buy_kitty(&mut l, dna(1), B, 100), Ok(()));
    assert_eq!(
        p.events()[n..].to_vec(),
        vec![
            Event::Sold { seller: A, buyer: B, kitty: dna(1), price: 100 },
            Event::Transferred { from: A, to: B, kitty: dna(1) },
        ]
    );
    assert_eq!(p.kitty(&dna(1)).unwrap().owner, B);
    assert_eq!(p.kitties_owned(B), vec![dna(1)]);
    assert!(p.kitties_owned(A).is_empty());
    assert_eq!(l.free_balance(A), 1_100);
    assert_eq!(l.free_balance(B), 900);
}

#[test]
fn buy_with_low_bid_fails() {
    let mut p = Pallet::new(5);
    let mut l = funded();
    p.mint(A, dna(1), Gender::Male).unwrap();
    p.set_price(A, dna(1), Some(100)).unwrap();
    assert_eq!(p.do_buy_kitty(&mut l, dna(1), B, 50), Err(Error::BidPriceTooLow));
    assert_eq!(p.kitty(&dna(1)).unwrap().owner, A);
    assert_eq!(p.kitties_owned(A), vec![dna(1)]);
    assert_eq!(l.free_balance(A), 1_000);
    assert_eq!(l.free_balance(B), 1_000);
}

#[test]
fn second_buy_not_for_sale() {
    let mut p = Pallet::new(5);
    let mut l = funded();
    p.mint(A, dna(1), Gender::Male).unwrap();
    p.set_price(A, dna(1), Some(100)).unwrap();
    assert_eq!(p.do_buy_kitty(&mut l, dna(1), B, 150), Ok(()));
    assert_eq!(p.kitty(&dna(1)).unwrap().price, None);
    assert_eq!(p.do_buy_kitty(&mut l, dna(1), A, 150), Err(Error::NotForSale));
    // the price paid is the asking price, not the bid
    assert_eq!(l.free_balance(B), 900);
}

#[test]
fn buy_errors() {
    let mut p = Pallet::new(1);
    let mut l = funded();
    p.mint(A, dna(1), Gender::Male).unwrap();
    p.mint(B, dna(2), Gender::Male).unwrap();
    p.set_price(A, dna(1), Some(100)).unwrap();
    assert_eq!(p.do_buy_kitty(&mut l, dna(5), B, 100), Err(Error::NoKitty));
    assert_eq!(p.do_buy_kitty(&mut l, dna(1), A, 100), Err(Error::TransferToSelf));
    assert_eq!(p.do_buy_kitty(&mut l, dna(1), B, 100), Err(Error::TooManyOwned));
    assert_eq!(p.do_buy_kitty(&mut l, dna(2), C, 100), Err(Error::NotForSale));
    // C holds 10: the ledger refuses
    assert_eq!(p.do_buy_kitty(&mut l, dna(1), C, 100), Err(Error::PaymentFailed));
    assert_eq!(p.kitty(&dna(1)).unwrap().owner, A);
    assert_eq!(p.kitty(&dna(1)).unwrap().price, Some(100));
    assert_eq!(l.free_balance(C), 10);
    assert_eq!(l.free_balance(A), 1_000);
}

#[test]
fn ledger_keeps_payer_alive() {
    let mut l = Balances::new(10);
    l.set_balance(A, 100);
    assert!(l.transfer(A, B, 95).is_err());
    assert!(l.transfer(A, B, 5).is_err());
    assert!(l.transfer(A, B, 101).is_err());
    assert_eq!(l.transfer(A, B, 90), Ok(()));
    assert_eq!(l.free_balance(A), 10);
    assert_eq!(l.free_balance(B), 90);
    assert_eq!(l.transfer(A, B, 0), Ok(()));
}

#[test]
fn payload_layout() {
    let mut random = [0u8; 32];
    random[0] = 9;
    random[31] = 4;
    let p = encode_payload(&random, 0x0102_0304, 7);
    assert_eq!(p.len(), 40);
    assert_eq!(&p[..32], &random[..]);
    assert_eq!(&p[32..], &[4, 3, 2, 1, 7, 0, 0, 0]);
}

#[test]
fn generated_dna_is_a_digest() {
    let random = [5u8; 32];
    let (d1, g1) = gen_dna(&random, 0, 1);
    let (d2, _) = gen_dna(&random, 0, 1);
    let (d3, _) = gen_dna(&random, 1, 1);
    let (d4, _) = gen_dna(&random, 0, 2);
    assert_eq!(d1, d2);
    assert_ne!(d1, d3);
    assert_ne!(d1, d4);
    assert_ne!(&d1[..], &encode_payload(&random, 0, 1)[..16]);
    assert_eq!(g1, gender_from_dna(&d1));
}

#[test]
fn gender_from_first_byte() {
    assert_eq!(gender_from_dna(&dna(4)), Gender::Male);
    assert_eq!(gender_from_dna(&dna(7)), Gender::Female);
}

#[test]
fn create_kitty_mints_generated_dna() {
    let mut p = Pallet::new(2);
    let random = [3u8; 32];
    let (expected, gender) = gen_dna(&random, 2, 10);
    assert_eq!(p.create_kitty(A, &random, 2, 10), Ok(expected));
    assert_eq!(p.kitty(&expected).unwrap().gender, gender);
    // the same entropy in the same place gives the same identity
    assert_eq!(p.create_kitty(B, &random, 2, 10), Err(Error::DuplicateKitty));
    assert_eq!(p.count_for_kitties(), 1);
}

#[test]
fn every_listed_kitty_has_one_owner() {
    let mut p = Pallet::new(3);
    let mut l = funded();
    for i in 0..3u8 {
        p.mint(A, dna(i), Gender::Male).unwrap();
    }
    p.transfer(A, B, dna(0)).unwrap();
    p.set_price(A, dna(1), Some(5)).unwrap();
    p.do_buy_kitty(&mut l, dna(1), C, 5).unwrap();
    for acct in [A, B, C] {
        for d in p.kitties_owned(acct) {
            assert_eq!(p.kitty(&d).unwrap().owner, acct);
            let holders = [A, B, C].iter().filter(|x| p.kitties_owned(**x).contains(&d)).count();
            assert_eq!(holders, 1);
        }
    }
}

#[test]
fn ledger_refusals() {
    let mut l = Balances::new(10);
    l.set_balance(A, 100);
    l.set_balance(C, u128::MAX - 5);
    assert_eq!(l.pay(A, B, 101), Err(LedgerError::InsufficientBalance));
    assert_eq!(l.pay(A, B, 95), Err(LedgerError::KeepAlive));
    assert_eq!(l.pay(A, B, 5), Err(LedgerError::ExistentialDeposit));
    assert_eq!(l.pay(A, C, 6), Err(LedgerError::Overflow));
    assert_eq!(l.free_balance(A), 100);
    assert_eq!(l.free_balance(B), 0);
    assert_eq!(l.pay(A, C, 5), Ok(()));
    assert_eq!(l.free_balance(C), u128::MAX);
    assert_eq!(l.free_balance(A), 95);
}

#[test]
fn contains_after_mint() {
    let mut p = Pallet::new(2);
    assert!(!p.contains_kitty(&dna(1)));
    p.mint(A, dna(1), Gender::Male).unwrap();
    assert!(p.contains_kitty(&dna(1)));
    assert!(!p.contains_kitty(&dna(2)));
}
