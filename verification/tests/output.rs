use staking_core::address::{Address, FarmKey, FarmerKey, LockKey};
use staking_core::ledger::Ledger;
use staking_core::output::{
    address_string, output_command, u64_string, FarmCreateOutput, FarmListOutput,
    FarmManagerListOutput, LockListOutput, WhitelistListOutput,
};
use staking_core::state::{Farm, LockConfig, StakeReceipt, WhitelistType};

#[test]
fn decimal_rendering() {
    assert_eq!(u64_string(0), ("0".to_string(), 1));
    assert_eq!(u64_string(7), ("7".to_string(), 1));
    assert_eq!(u64_string(42), ("42".to_string(), 2));
    assert_eq!(u64_string(1000), ("1000".to_string(), 4));
    assert_eq!(
        u64_string(u64::MAX),
        ("18446744073709551615".to_string(), 20)
    );
}

#[test]
fn address_rendering() {
    let farm = FarmKey { authority: 7, reward_mint: 9 };
    assert_eq!(address_string(&Address::Farm(farm)), ("farm:7.9".to_string(), 8));
    assert_eq!(
        address_string(&Address::FarmManager(farm, 21)),
        ("farm_manager:7.9.21".to_string(), 19)
    );
    assert_eq!(
        address_string(&Address::WhitelistProof(farm, 55)),
        ("collection_data:7.9.55".to_string(), 22)
    );
    assert_eq!(
        address_string(&Address::Lock(LockKey { farm, duration: 100, cooldown: 50 })),
        ("lock:7.9.100.50".to_string(), 15)
    );
    let farmer = FarmerKey { farm, owner: 21 };
    assert_eq!(
        address_string(&Address::Farmer(farmer)),
        ("farmer:7.9.21".to_string(), 13)
    );
    assert_eq!(
        address_string(&Address::StakeReceipt(farmer, 55)),
        ("stake_receipt:7.9.21.55".to_string(), 23)
    );
}

#[test]
fn farm_create_output() {
    let out = FarmCreateOutput(Address::Farm(FarmKey { authority: 7, reward_mint: 9 }));
    assert_eq!(output_command(&out), "Created a new farm at: farm:7.9\n");
}

#[test]
fn farm_list_output() {
    let farms = vec![Farm { authority: 7, reward_mint: 9, vault_balance: 0 }];
    let rendered = output_command(&FarmListOutput(farms));
    let expected = format!("{:^44} | {:^44}\n", "Address", "Reward mint")
        + &format!("{:^44} | {:^44}\n", "farm:7.9", "9");
    assert_eq!(rendered, expected);
}

#[test]
fn whitelist_list_output() {
    let mut l = Ledger::new();
    let farm = l.create_farm(7, 9).unwrap();
    l.add_to_whitelist(farm, 7, 55, WhitelistType::Mint, 5).unwrap();
    l.add_to_whitelist(farm, 7, 77, WhitelistType::Creator, 3).unwrap();
    let rendered = output_command(&WhitelistListOutput(l.get_farm_whitelists(farm)));
    let expected = format!("{:^44} | {:^22} | {:^22}\n", "Address", "Reward rate", "Type")
        + &format!("{:^44} | {:^22} | {:^22}\n", "collection_data:7.9.55", "5", "Mint")
        + &format!("{:^44} | {:^22} | {:^22}\n", "collection_data:7.9.77", "3", "Creator");
    assert_eq!(rendered, expected);
}

#[test]
fn manager_list_output() {
    let mut l = Ledger::new();
    let farm = l.create_farm(7, 9).unwrap();
    let rendered = output_command(&FarmManagerListOutput(l.get_farm_managers(farm)));
    let expected = format!("{:^44} | {:^44}\n", "Address", "Owner")
        + &format!("{:^44} | {:^44}\n", "farm_manager:7.9.7", "7");
    assert_eq!(rendered, expected);
}

#[test]
fn lock_list_output() {
    let mut l = Ledger::new();
    let farm = l.create_farm(7, 9).unwrap();
    l.create_locks(
        farm,
        7,
        &vec![LockConfig { duration: 100, cooldown: 50, bonus_factor: 10 }],
    )
    .unwrap();
    let rendered = output_command(&LockListOutput(l.list_locks(farm)));
    let expected = format!(
        "{:^44} | {:^22} | {:^22} | {:^22}\n",
        "Address", "Duration", "Cooldown", "Bonus factor"
    ) + &format!(
        "{:^44} | {:^22} | {:^22} | {:^22}\n",
        "lock:7.9.100.50", "100", "50", "10"
    );
    assert_eq!(rendered, expected);
}

#[test]
fn receipt_construction() {
    let farmer = FarmerKey { farm: FarmKey { authority: 7, reward_mint: 9 }, owner: 21 };
    let r = StakeReceipt::new(farmer, 55, None, 1000, 1, 12);
    assert_eq!(r.farmer, farmer);
    assert_eq!(r.mint, 55);
    assert_eq!(r.lock, None);
    assert_eq!(r.start_ts, 1000);
    assert_eq!(r.end_ts, None);
    assert_eq!(r.amount, 1);
    assert_eq!(r.reward_rate, 12);
    assert_eq!(r.vault_balance, 1);
    assert!(r.is_running());
}
