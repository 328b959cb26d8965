use brush_codegen::capped::{CappedSupply, Data, Internal, InternalImpl, PSP22CappedImpl, PSP22Error};

fn token(supply: u128) -> CappedSupply {
    CappedSupply { capped: Data::new(), total_supply: supply }
}

#[test]
fn cap_reads_zero_until_set() {
    let t = token(5);
    assert_eq!(t.capped.cap, None);
    assert_eq!(t.capped.get_or_default(), 0);
    assert_eq!(InternalImpl::_cap(&t), 0);
    assert_eq!(Internal::_cap(&t), 0);
    assert_eq!(t.cap(), 0);
}

#[test]
fn init_cap_refuses_zero() {
    let mut t = token(5);
    assert_eq!(
        InternalImpl::_init_cap(&mut t, 0),
        Err(PSP22Error::Custom("Cap must be above 0".to_string()))
    );
    assert_eq!(t.capped.cap, None);
    assert!(InternalImpl::_init_cap(&mut t, 9).is_ok());
    assert_eq!(
        Internal::_init_cap(&mut t, 0),
        Err(PSP22Error::Custom("Cap must be above 0".to_string()))
    );
    assert_eq!(t.cap(), 9);
}

#[test]
fn init_cap_sets_the_cap() {
    let mut t = token(5);
    assert_eq!(Internal::_init_cap(&mut t, 100), Ok(()));
    assert_eq!(t.capped.cap, Some(100));
    assert_eq!(t.cap(), 100);
    assert_eq!(t.total_supply, 5);
    assert_eq!(InternalImpl::_init_cap(&mut t, u128::MAX), Ok(()));
    assert_eq!(t.cap(), u128::MAX);
}

#[test]
fn cap_is_exceeded_only_above_it() {
    let mut t = token(60);
    assert!(InternalImpl::_init_cap(&mut t, 100).is_ok());
    assert!(!InternalImpl::_is_cap_exceeded(&t, &0));
    assert!(!InternalImpl::_is_cap_exceeded(&t, &39));
    assert!(!InternalImpl::_is_cap_exceeded(&t, &40));
    assert!(InternalImpl::_is_cap_exceeded(&t, &41));
    assert!(Internal::_is_cap_exceeded(&t, &41));
    assert!(!Internal::_is_cap_exceeded(&t, &40));
}

#[test]
fn cap_is_exceeded_when_the_supply_is_above_it() {
    let mut t = token(101);
    assert!(InternalImpl::_init_cap(&mut t, 100).is_ok());
    assert!(InternalImpl::_is_cap_exceeded(&t, &0));
}

#[test]
fn cap_is_exceeded_by_any_amount_while_unset() {
    let t = token(0);
    assert!(!InternalImpl::_is_cap_exceeded(&t, &0));
    assert!(InternalImpl::_is_cap_exceeded(&t, &1));
}

#[test]
fn cap_check_does_not_wrap_around() {
    let mut t = token(u128::MAX);
    assert!(InternalImpl::_init_cap(&mut t, u128::MAX).is_ok());
    assert!(!InternalImpl::_is_cap_exceeded(&t, &0));
    assert!(InternalImpl::_is_cap_exceeded(&t, &1));
    assert!(InternalImpl::_is_cap_exceeded(&t, &u128::MAX));
    let mut t = token(1);
    assert!(InternalImpl::_init_cap(&mut t, 10).is_ok());
    assert!(InternalImpl::_is_cap_exceeded(&t, &u128::MAX));
}

#[test]
fn data_set_overwrites() {
    let mut d = Data::new();
    d.set(3);
    d.set(4);
    assert_eq!(d.get_or_default(), 4);
    assert_eq!(d, Data { cap: Some(4) });
}
