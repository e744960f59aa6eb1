use adobe::error::Failure;
use adobe::identity::Identity;
use adobe::registry::{add_pool, initialize, set_fee, AddPool, Initialize, Registry, SetFee};
use adobe::state::{Pool, State, DEFAULT_FEE_BPS, POOL_LEN, STATE_LEN};

fn key(n: u8) -> Identity {
    Identity::new([n; 32])
}

fn pool_accounts(authority: u8, asset: u8) -> AddPool {
    AddPool {
        authority: key(authority),
        token_mint: key(asset),
        pool_token: key(asset + 100),
        voucher_mint: key(asset + 200),
    }
}

fn started(authority: u8) -> Registry {
    let mut registry = Registry::new();
    initialize(&mut registry, &Initialize { authority: key(authority) }, 255).unwrap();
    registry
}

#[test]
fn initialize_makes_the_caller_the_authority_at_thirty_basis_points() {
    let mut registry = Registry::new();
    assert_eq!(registry.state(), None);
    assert_eq!(initialize(&mut registry, &Initialize { authority: key(1) }, 253), Ok(()));
    assert_eq!(registry.state(), Some(State { bump: 253, authority: key(1), fee_bps: 30 }));
    assert_eq!(DEFAULT_FEE_BPS, 30);
    assert_eq!(registry.pool_count(), 0);
}

#[test]
fn initialize_happens_once() {
    let mut registry = started(1);
    let before = registry.state();
    assert_eq!(
        initialize(&mut registry, &Initialize { authority: key(2) }, 7),
        Err(Failure::AlreadyInitialized)
    );
    assert_eq!(
        initialize(&mut registry, &Initialize { authority: key(1) }, 255),
        Err(Failure::AlreadyInitialized)
    );
    assert_eq!(registry.state(), before);
}

#[test]
fn nothing_is_administered_before_initialize() {
    let mut registry = Registry::new();
    assert_eq!(set_fee(&mut registry, &SetFee { authority: key(1) }, 5), Err(Failure::NotInitialized));
    assert_eq!(add_pool(&mut registry, &pool_accounts(1, 20), 9), Err(Failure::NotInitialized));
    assert_eq!(registry.state(), None);
    assert_eq!(registry.pool_count(), 0);
}

#[test]
fn set_fee_is_the_authoritys_alone() {
    let mut registry = started(1);
    assert_eq!(set_fee(&mut registry, &SetFee { authority: key(2) }, 5), Err(Failure::Unauthorized));
    assert_eq!(registry.state().unwrap().fee_bps, 30);
    assert_eq!(set_fee(&mut registry, &SetFee { authority: key(1) }, 5), Ok(()));
    assert_eq!(registry.state(), Some(State { bump: 255, authority: key(1), fee_bps: 5 }));
}

#[test]
fn set_fee_refuses_no_fee() {
    let mut registry = started(1);
    assert_eq!(set_fee(&mut registry, &SetFee { authority: key(1) }, 10_001), Ok(()));
    assert_eq!(registry.state().unwrap().fee_bps, 10_001);
    assert_eq!(set_fee(&mut registry, &SetFee { authority: key(1) }, u16::MAX), Ok(()));
    assert_eq!(registry.state().unwrap().fee_bps, u16::MAX);
    assert_eq!(set_fee(&mut registry, &SetFee { authority: key(1) }, 0), Ok(()));
    assert_eq!(registry.state().unwrap().fee_bps, 0);
}

#[test]
fn add_pool_creates_an_idle_pool_with_the_current_fee() {
    let mut registry = started(1);
    assert_eq!(registry.pool(&key(20)), None);
    assert_eq!(add_pool(&mut registry, &pool_accounts(1, 20), 251), Ok(()));
    assert_eq!(
        registry.pool(&key(20)),
        Some(Pool {
            bump: 251,
            borrowing: false,
            token_mint: key(20),
            pool_token: key(120),
            voucher_mint: key(220),
            fee_bps: 30,
        })
    );
    assert_eq!(registry.pool_count(), 1);
    assert_eq!(registry.pool(&key(21)), None);
}

#[test]
fn add_pool_is_the_authoritys_alone() {
    let mut registry = started(1);
    assert_eq!(add_pool(&mut registry, &pool_accounts(2, 20), 251), Err(Failure::Unauthorized));
    assert_eq!(registry.pool_count(), 0);
    assert_eq!(registry.pool(&key(20)), None);
}

#[test]
fn a_second_pool_for_the_same_asset_is_refused() {
    let mut registry = started(1);
    assert_eq!(add_pool(&mut registry, &pool_accounts(1, 20), 251), Ok(()));
    let first = registry.pool(&key(20));
    assert_eq!(add_pool(&mut registry, &pool_accounts(1, 20), 251), Err(Failure::DuplicatePool));
    let mut other_accounts = pool_accounts(1, 20);
    other_accounts.pool_token = key(77);
    other_accounts.voucher_mint = key(78);
    assert_eq!(add_pool(&mut registry, &other_accounts, 3), Err(Failure::DuplicatePool));
    assert_eq!(add_pool(&mut registry, &pool_accounts(2, 20), 251), Err(Failure::Unauthorized));
    assert_eq!(registry.pool_count(), 1);
    assert_eq!(registry.pool(&key(20)), first);
    assert_eq!(add_pool(&mut registry, &pool_accounts(1, 21), 250), Ok(()));
    assert_eq!(registry.pool_count(), 2);
}

#[test]
fn a_new_fee_reaches_later_pools_only() {
    let mut registry = started(1);
    add_pool(&mut registry, &pool_accounts(1, 20), 251).unwrap();
    set_fee(&mut registry, &SetFee { authority: key(1) }, 75).unwrap();
    add_pool(&mut registry, &pool_accounts(1, 21), 250).unwrap();
    assert_eq!(registry.pool(&key(20)).unwrap().fee_bps, 30);
    assert_eq!(registry.pool(&key(21)).unwrap().fee_bps, 75);
    assert_eq!(set_fee(&mut registry, &SetFee { authority: key(9) }, 1), Err(Failure::Unauthorized));
    add_pool(&mut registry, &pool_accounts(1, 22), 249).unwrap();
    assert_eq!(registry.pool(&key(22)).unwrap().fee_bps, 75);
    assert_eq!(registry.pool(&key(20)).unwrap().fee_bps, 30);
}

#[test]
fn records_kept_elsewhere_are_taken_if_no_asset_has_two_pools() {
    let state = State { bump: 1, authority: key(1), fee_bps: 12 };
    let a = Pool { bump: 2, borrowing: true, token_mint: key(20), pool_token: key(120), voucher_mint: key(220), fee_bps: 30 };
    let b = Pool { token_mint: key(21), ..a };
    let c = Pool { token_mint: key(22), borrowing: false, ..a };
    let mut registry = Registry::load(Some(state), vec![a, b, c]).unwrap();
    assert_eq!(registry.state(), Some(state));
    assert_eq!(registry.pool_count(), 3);
    assert_eq!(registry.pool(&key(21)), Some(b));
    assert_eq!(add_pool(&mut registry, &pool_accounts(1, 22), 0), Err(Failure::DuplicatePool));
    assert_eq!(add_pool(&mut registry, &pool_accounts(1, 23), 0), Ok(()));
    assert_eq!(registry.pool(&key(23)).unwrap().fee_bps, 12);
    assert!(Registry::load(None, vec![a, b, Pool { bump: 9, ..a }]).is_none());
    assert!(Registry::load(None, vec![a, a]).is_none());
    assert!(Registry::load(None, vec![]).is_some());
}

#[test]
fn the_state_record_is_bump_authority_fee() {
    let mut authority = [0u8; 32];
    for (i, b) in authority.iter_mut().enumerate() {
        *b = i as u8 + 1;
    }
    let state = State { bump: 254, authority: Identity::new(authority), fee_bps: 0x1234 };
    let bytes = state.encode();
    assert_eq!(bytes.len(), STATE_LEN);
    assert_eq!(STATE_LEN, 35);
    assert_eq!(bytes[0], 254);
    assert_eq!(&bytes[1..33], &authority);
    assert_eq!(&bytes[33..], &[0x34, 0x12]);
    assert_eq!(State::decode(&bytes), Some(state));
    let mut longer = bytes.clone();
    longer.push(99);
    assert_eq!(State::decode(&longer), Some(state));
    assert_eq!(State::decode(&bytes[..34]), None);
    assert_eq!(State::decode(&[]), None);
}

#[test]
fn the_pool_record_is_bump_flag_three_identities_fee() {
    let pool = Pool {
        bump: 3,
        borrowing: true,
        token_mint: key(0xaa),
        pool_token: key(0xbb),
        voucher_mint: key(0xcc),
        fee_bps: 30,
    };
    let bytes = pool.encode();
    assert_eq!(bytes.len(), POOL_LEN);
    assert_eq!(POOL_LEN, 100);
    assert_eq!(&bytes[..2], &[3, 1]);
    assert_eq!(&bytes[2..34], &[0xaa; 32]);
    assert_eq!(&bytes[34..66], &[0xbb; 32]);
    assert_eq!(&bytes[66..98], &[0xcc; 32]);
    assert_eq!(&bytes[98..], &[30, 0]);
    assert_eq!(Pool::decode(&bytes), Some(pool));
    let idle = Pool { borrowing: false, fee_bps: 0xfffe, ..pool };
    let idle_bytes = idle.encode();
    assert_eq!(idle_bytes[1], 0);
    assert_eq!(&idle_bytes[98..], &[0xfe, 0xff]);
    assert_eq!(Pool::decode(&idle_bytes), Some(idle));
    let mut bad_flag = bytes.clone();
    bad_flag[1] = 2;
    assert_eq!(Pool::decode(&bad_flag), None);
    assert_eq!(Pool::decode(&bytes[..99]), None);
    let mut longer = bytes.clone();
    longer.extend_from_slice(&[1, 2, 3]);
    assert_eq!(Pool::decode(&longer), Some(pool));
}

#[test]
fn identities_are_compared_byte_by_byte() {
    let mut bytes = [7u8; 32];
    let a = Identity::new(bytes);
    bytes[31] = 8;
    let b = Identity::new(bytes);
    assert!(a.same(&a));
    assert!(!a.same(&b));
    assert!(a == key(7));
    assert!(a != b);
    let mut out = vec![1u8];
    b.write(&mut out);
    assert_eq!(out.len(), 33);
    assert_eq!(Identity::read(&out, 1), Some(b));
    assert_eq!(Identity::read(&out, 2), None);
    assert_eq!(Identity::read(&out, usize::MAX), None);
    assert_eq!(Identity::read(&out, 0).unwrap().bytes[0], 1);
}
