use astroport_juno_types::factory::PairType;
use astroport_juno_types::keep_set::{
    balance_or_zero, deployer_genesis_coins, DeployAction, DeployEvent, KeepSetCode,
    KeepSetDeploy, DEPLOYER, INITIAL_BALANCE, MOCK_ATOM, MOCK_USDC, UJUNO,
};

#[test]
fn genesis_coins_seed_every_denom() {
    let coins = deployer_genesis_coins();
    let denoms: Vec<&str> = coins.iter().map(|c| c.denom.as_str()).collect();
    assert_eq!(denoms, vec![UJUNO, MOCK_USDC, MOCK_ATOM]);
    assert!(coins.iter().all(|c| c.amount == INITIAL_BALANCE));
    assert_eq!(INITIAL_BALANCE, 1_000_000_000_000);
}

#[test]
fn balance_defaults_to_zero() {
    assert_eq!(balance_or_zero(None), 0);
    assert_eq!(balance_or_zero(Some(17)), 17);
}

#[test]
fn deploy_sequence_wires_the_keep_set() {
    let mut d = KeepSetDeploy::new();
    let order = [
        KeepSetCode::Pair,
        KeepSetCode::Factory,
        KeepSetCode::Router,
        KeepSetCode::Whitelist,
        KeepSetCode::Registry,
        KeepSetCode::Cw20,
    ];
    for (i, code) in order.iter().enumerate() {
        assert_eq!(d.next_action(), DeployAction::StoreCode(*code));
        d.record(DeployEvent::CodeStored(10 + i as u64));
    }
    match d.next_action() {
        DeployAction::InstantiateRegistry {
            sender,
            funds,
            admin,
            code_id,
            owner,
            label,
        } => {
            assert_eq!(sender, DEPLOYER);
            assert!(funds.is_empty());
            assert_eq!(admin, None);
            assert_eq!(code_id, 14);
            assert_eq!(owner, DEPLOYER);
            assert_eq!(label, "native_coin_registry");
        }
        other => panic!("unexpected {:?}", other),
    }
    d.record(DeployEvent::Instantiated("contract0".to_string()));
    match d.next_action() {
        DeployAction::RegisterNativeCoins {
            sender,
            funds,
            registry,
            native_coins,
        } => {
            assert_eq!(sender, DEPLOYER);
            assert!(funds.is_empty());
            assert_eq!(registry, "contract0");
            assert_eq!(
                native_coins,
                vec![
                    ("ujuno".to_string(), 6),
                    ("ibc/USDC".to_string(), 6),
                    ("ibc/ATOM".to_string(), 6)
                ]
            );
        }
        other => panic!("unexpected {:?}", other),
    }
    d.record(DeployEvent::Executed);
    match d.next_action() {
        DeployAction::InstantiateWhitelist {
            sender,
            funds,
            admin,
            code_id,
            admins,
            mutable,
            label,
        } => {
            assert_eq!(sender, DEPLOYER);
            assert!(funds.is_empty());
            assert_eq!(admin, None);
            assert_eq!(code_id, 13);
            assert_eq!(admins, vec!["deployer".to_string()]);
            assert!(mutable);
            assert_eq!(label, "whitelist");
        }
        other => panic!("unexpected {:?}", other),
    }
    d.record(DeployEvent::Instantiated("contract1".to_string()));
    match d.next_action() {
        DeployAction::InstantiateFactory {
            sender,
            funds,
            admin,
            code_id,
            config,
            label,
        } => {
            assert_eq!(sender, DEPLOYER);
            assert!(funds.is_empty());
            assert_eq!(admin, None);
            assert_eq!(code_id, 11);
            assert_eq!(label, "factory");
            assert_eq!(config.pair_configs.len(), 1);
            let pc = &config.pair_configs[0];
            assert_eq!(pc.code_id, 10);
            assert_eq!(pc.pair_type, PairType::Xyk {});
            assert_eq!((pc.total_fee_bps, pc.maker_fee_bps), (30, 0));
            assert!(!pc.is_disabled && pc.is_generator_disabled && !pc.permissioned);
            assert_eq!(pc.whitelist, None);
            assert_eq!(config.token_code_id, 15);
            assert_eq!(config.whitelist_code_id, 13);
            assert_eq!(config.owner, "deployer");
            assert_eq!(config.coin_registry_address, "contract0");
            assert_eq!(config.fee_address, None);
            assert_eq!(config.generator_address, None);
            assert_eq!(config.tracker_config, None);
        }
        other => panic!("unexpected {:?}", other),
    }
    d.record(DeployEvent::Instantiated("contract2".to_string()));
    match d.next_action() {
        DeployAction::InstantiateRouter {
            sender,
            funds,
            admin,
            code_id,
            astroport_factory,
            label,
        } => {
            assert_eq!(sender, DEPLOYER);
            assert!(funds.is_empty());
            assert_eq!(admin, None);
            assert_eq!(code_id, 12);
            assert_eq!(astroport_factory, "contract2");
            assert_eq!(label, "router");
        }
        other => panic!("unexpected {:?}", other),
    }
    d.record(DeployEvent::Instantiated("contract3".to_string()));
    match d.next_action() {
        DeployAction::Finished(h) => {
            assert_eq!(h.deployer, "deployer");
            assert_eq!(h.native_coin_registry, "contract0");
            assert_eq!(h.whitelist, "contract1");
            assert_eq!(h.factory, "contract2");
            assert_eq!(h.router, "contract3");
            assert_eq!(
                (h.pair_code_id, h.whitelist_code_id, h.token_code_id),
                (10, 13, 15)
            );
        }
        other => panic!("unexpected {:?}", other),
    }
}

#[test]
fn finished_deploy_ignores_further_events() {
    let mut d = KeepSetDeploy::new();
    for i in 0..6 {
        d.record(DeployEvent::CodeStored(i));
    }
    d.record(DeployEvent::Instantiated("a".to_string()));
    d.record(DeployEvent::Executed);
    for a in ["b", "c", "d"] {
        d.record(DeployEvent::Instantiated(a.to_string()));
    }
    let before = d.clone();
    d.record(DeployEvent::Instantiated("e".to_string()));
    d.record(DeployEvent::CodeStored(99));
    d.record(DeployEvent::Executed);
    assert_eq!(d, before);
    assert!(matches!(d.next_action(), DeployAction::Finished(_)));
}

#[test]
fn unexpected_events_change_nothing() {
    let mut d = KeepSetDeploy::new();
    let fresh = d.clone();
    d.record(DeployEvent::Executed);
    d.record(DeployEvent::Instantiated("x".to_string()));
    assert_eq!(d, fresh);
    for i in 0..6 {
        d.record(DeployEvent::CodeStored(i));
    }
    let at_registry = d.clone();
    d.record(DeployEvent::CodeStored(7));
    d.record(DeployEvent::Executed);
    assert_eq!(d, at_registry);
}
