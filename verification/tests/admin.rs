use astrolend::account::{
    flag_can_be_set, LendingAccount, DISABLED_FLAG, FLASHLOAN_ENABLED_FLAG, IN_FLASHLOAN_FLAG,
    TRANSFER_AUTHORITY_ALLOWED_FLAG,
};
use astrolend::errors::AstrolendError;
use astrolend::instructions::{
    astrolend_group_configure, astrolend_group_initialize, set_account_flag,
    set_new_account_authority, unset_account_flag,
};

#[test]
fn test_check_flag() {
    let flag1 = FLASHLOAN_ENABLED_FLAG;
    let flag2 = FLASHLOAN_ENABLED_FLAG + IN_FLASHLOAN_FLAG;
    let flag3 = IN_FLASHLOAN_FLAG + DISABLED_FLAG + FLASHLOAN_ENABLED_FLAG;
    let flag4 = DISABLED_FLAG + IN_FLASHLOAN_FLAG;
    let flag5 = FLASHLOAN_ENABLED_FLAG + TRANSFER_AUTHORITY_ALLOWED_FLAG;
    let flag6 = DISABLED_FLAG + FLASHLOAN_ENABLED_FLAG + TRANSFER_AUTHORITY_ALLOWED_FLAG;
    let flag7 = DISABLED_FLAG
        + FLASHLOAN_ENABLED_FLAG
        + IN_FLASHLOAN_FLAG
        + TRANSFER_AUTHORITY_ALLOWED_FLAG;

    // Malformed flags should fail
    assert!(!flag_can_be_set(flag2));
    assert!(!flag_can_be_set(flag3));
    assert!(!flag_can_be_set(flag4));
    assert!(!flag_can_be_set(flag6));
    assert!(!flag_can_be_set(flag7));

    // Good flags should succeed
    assert!(flag_can_be_set(flag1));
    assert!(flag_can_be_set(flag5));
}

#[test]
fn astrolend_group_create_success() {
    let group = astrolend_group_initialize(11, 21);
    assert_eq!(group.admin, 21);
    assert_eq!(group.key, 11);
    assert_eq!(group.banks.len(), 0);
}

#[test]
fn astrolend_group_configure_rotates_admin() {
    let mut group = astrolend_group_initialize(11, 21);
    astrolend_group_configure(&mut group, None);
    assert_eq!(group.admin, 21);
    astrolend_group_configure(&mut group, Some(22));
    assert_eq!(group.admin, 22);
}

#[test]
fn astrolend_account_create_success() {
    let group = astrolend_group_initialize(11, 21);
    let account: LendingAccount =
        astrolend::instructions::astrolend_account_initialize(&group, 21);

    assert_eq!(account.group, group.key);
    assert_eq!(account.authority, 21);
    assert!(account.balances.iter().all(|slot| !slot.active));
}

#[test]
fn astrolend_account_authority_transfer_no_flag_set() {
    let group = astrolend_group_initialize(11, 21);
    // Default account with no flags set.
    let mut account = astrolend::instructions::astrolend_account_initialize(&group, 21);
    let new_authority = 31;

    let res = set_new_account_authority(&mut account, new_authority);

    // Check transfer authority is unchanged.
    assert_eq!(account.authority, 21);
    // The response is an error for lack of the transfer flag.
    assert_eq!(res, Err(AstrolendError::IllegalAction));

    // Set the flag on the account.
    set_account_flag(&mut account, TRANSFER_AUTHORITY_ALLOWED_FLAG).unwrap();
    assert!(account.account_flags & TRANSFER_AUTHORITY_ALLOWED_FLAG != 0);

    let new_authority_2 = 32;
    set_new_account_authority(&mut account, new_authority_2).unwrap();
    assert_eq!(account.authority, new_authority_2);
}

#[test]
fn account_flag_instructions_reject_unconfigurable_bits() {
    let group = astrolend_group_initialize(11, 21);
    let mut account = astrolend::instructions::astrolend_account_initialize(&group, 21);

    // The disabled bit is not admin-configurable.
    assert_eq!(
        set_account_flag(&mut account, DISABLED_FLAG),
        Err(AstrolendError::IllegalFlag)
    );
    assert_eq!(
        unset_account_flag(&mut account, IN_FLASHLOAN_FLAG),
        Err(AstrolendError::IllegalFlag)
    );

    set_account_flag(&mut account, FLASHLOAN_ENABLED_FLAG).unwrap();
    assert!(account.account_flags & FLASHLOAN_ENABLED_FLAG != 0);
    unset_account_flag(&mut account, FLASHLOAN_ENABLED_FLAG).unwrap();
    assert!(account.account_flags & FLASHLOAN_ENABLED_FLAG == 0);
}
