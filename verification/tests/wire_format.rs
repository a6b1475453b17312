use astroport_juno_types::asset::{Asset, AssetInfo};
use astroport_juno_types::factory::PairType;
use astroport_juno_types::incentives::{
    ExecuteMsg as IncentivesExecuteMsg, InputSchedule, PoolInfoResponse,
    QueryMsg as IncentivesQueryMsg, RewardInfo, RewardType,
};
use astroport_juno_types::pair::{
    Cw20HookMsg, Cw20ReceiveMsg, ExecuteMsg as PairExecuteMsg, FeeShareConfig, InstantiateMsg,
    PoolResponse, QueryMsg as PairQueryMsg, ReverseSimulationResponse, SimulationResponse,
};
use astroport_juno_types::primitives::{Binary, Decimal, Decimal256, Timestamp, Uint256};
use astroport_juno_types::router::{ExecuteMsg as RouterExecuteMsg, SwapOperation};
use astroport_juno_types::wire::to_json;

fn native(denom: &str) -> AssetInfo {
    AssetInfo::NativeToken {
        denom: denom.to_string(),
    }
}

fn ujuno(amount: u128) -> Asset {
    Asset {
        info: native("ujuno"),
        amount,
    }
}

fn dec256(hi: u128, lo: u128) -> Decimal256 {
    Decimal256 {
        atomics: Uint256 { hi, lo },
    }
}

fn cw_dec256(hi: u128, lo: u128) -> cosmwasm_std::Decimal256 {
    let mut be = [0u8; 32];
    be[..16].copy_from_slice(&hi.to_be_bytes());
    be[16..].copy_from_slice(&lo.to_be_bytes());
    cosmwasm_std::Decimal256::new(cosmwasm_std::Uint256::from_be_bytes(be))
}

#[test]
fn string_escapes_follow_cosmwasm() {
    for s in [
        "plain",
        "",
        "quote\"back\\slash",
        "ctl\u{8}\u{9}\u{a}\u{c}\u{d}",
        "raw\u{1}\u{1f}\u{7f}",
        "unicode é ✓ 🚀",
    ] {
        let ours = to_json(&s.to_string());
        assert_eq!(ours, cosmwasm_std::to_json_string(s).unwrap());
    }
    assert_eq!(to_json(&"a\"b".to_string()), r#""a\"b""#);
    assert_eq!(to_json(&"\u{1}".to_string()), r#""\u0001""#);
    assert_eq!(to_json(&"\u{1f}".to_string()), r#""\u001F""#);
}

#[test]
fn numbers_follow_cosmwasm() {
    for v in [0u128, 7, 10, 1_000_000, u128::MAX] {
        assert_eq!(
            to_json(&v),
            cosmwasm_std::to_json_string(&cosmwasm_std::Uint128::new(v)).unwrap()
        );
    }
    assert_eq!(to_json(&0u64), "0");
    assert_eq!(to_json(&u64::MAX), "18446744073709551615");
    assert_eq!(to_json(&30u16), "30");
    assert_eq!(to_json(&6u8), "6");
    assert_eq!(to_json(&true), "true");
    assert_eq!(to_json(&false), "false");
    assert_eq!(to_json(&None::<u64>), "null");
    assert_eq!(to_json(&Some(5u64)), "5");
}

#[test]
fn decimals_follow_cosmwasm() {
    for a in [
        0u128,
        1,
        500_000_000_000_000_000,
        1_000_000_000_000_000_000,
        1_230_000_000_000_000_000,
        123_456_789_000_000_000_001,
        u128::MAX,
    ] {
        assert_eq!(
            to_json(&Decimal { atomics: a }),
            cosmwasm_std::to_json_string(&cosmwasm_std::Decimal::raw(a)).unwrap()
        );
    }
    assert_eq!(to_json(&Decimal { atomics: 1 }), r#""0.000000000000000001""#);
    assert_eq!(
        to_json(&Decimal {
            atomics: 1_230_000_000_000_000_000
        }),
        r#""1.23""#
    );
    for (hi, lo) in [(0u128, 0u128), (0, 5), (1, 0), (u128::MAX, u128::MAX), (3, 1_500_000_000_000_000_000)] {
        assert_eq!(
            to_json(&dec256(hi, lo)),
            cosmwasm_std::to_json_string(&cw_dec256(hi, lo)).unwrap()
        );
    }
    assert_eq!(to_json(&dec256(0, 2_500_000_000_000_000_000)), r#""2.5""#);
}

#[test]
fn timestamps_and_binary_follow_cosmwasm() {
    for n in [0u64, 1, 1_750_000_000_000_000_000, u64::MAX] {
        assert_eq!(
            to_json(&Timestamp { nanos: n }),
            cosmwasm_std::to_json_string(&cosmwasm_std::Timestamp::from_nanos(n)).unwrap()
        );
    }
    for bytes in [&b""[..], b"o", b"op", b"opa", b"opaque", &[0u8, 255, 254, 62, 63][..]] {
        assert_eq!(
            to_json(&Binary {
                bytes: bytes.to_vec()
            }),
            cosmwasm_std::to_json_string(&cosmwasm_std::Binary::from(bytes)).unwrap()
        );
    }
    assert_eq!(
        to_json(&Binary {
            bytes: b"opaque".to_vec()
        }),
        r#""b3BhcXVl""#
    );
}

#[test]
fn cw20_receive_msg_matches_cw20() {
    let ours = Cw20ReceiveMsg {
        sender: "sender0".to_string(),
        amount: 42,
        msg: Binary {
            bytes: br#"{"swap":{}}"#.to_vec(),
        },
    };
    let theirs = cw20::Cw20ReceiveMsg {
        sender: "sender0".to_string(),
        amount: cosmwasm_std::Uint128::new(42),
        msg: cosmwasm_std::Binary::from(br#"{"swap":{}}"#.to_vec()),
    };
    assert_eq!(to_json(&ours), cosmwasm_std::to_json_string(&theirs).unwrap());
    let receive = PairExecuteMsg::Receive(ours);
    assert_eq!(
        to_json(&receive),
        format!(
            r#"{{"receive":{}}}"#,
            cosmwasm_std::to_json_string(&theirs).unwrap()
        )
    );
}

#[test]
fn incentives_execute_messages() {
    let schedule = InputSchedule {
        reward: ujuno(1_000),
        duration_periods: 4,
    };
    assert_eq!(
        to_json(&schedule),
        r#"{"reward":{"info":{"native_token":{"denom":"ujuno"}},"amount":"1000"},"duration_periods":4}"#
    );
    let cases = vec![
        (
            IncentivesExecuteMsg::SetupPools {
                pools: vec![("lp1".to_string(), 100), ("lp2".to_string(), 50)],
            },
            r#"{"setup_pools":{"pools":[["lp1","100"],["lp2","50"]]}}"#.to_string(),
        ),
        (
            IncentivesExecuteMsg::ClaimRewards {
                lp_tokens: vec!["lp1".to_string()],
            },
            r#"{"claim_rewards":{"lp_tokens":["lp1"]}}"#.to_string(),
        ),
        (
            IncentivesExecuteMsg::ClaimRewards { lp_tokens: vec![] },
            r#"{"claim_rewards":{"lp_tokens":[]}}"#.to_string(),
        ),
        (
            IncentivesExecuteMsg::Deposit { recipient: None },
            r#"{"deposit":{"recipient":null}}"#.to_string(),
        ),
        (
            IncentivesExecuteMsg::Deposit {
                recipient: Some("juno1abc".to_string()),
            },
            r#"{"deposit":{"recipient":"juno1abc"}}"#.to_string(),
        ),
        (
            IncentivesExecuteMsg::Withdraw {
                lp_token: "lp1".to_string(),
                amount: 7,
            },
            r#"{"withdraw":{"lp_token":"lp1","amount":"7"}}"#.to_string(),
        ),
        (
            IncentivesExecuteMsg::SetTokensPerSecond { amount: 3 },
            r#"{"set_tokens_per_second":{"amount":"3"}}"#.to_string(),
        ),
        (
            IncentivesExecuteMsg::Incentivize {
                lp_token: "lp1".to_string(),
                schedule: schedule.clone(),
            },
            format!(
                r#"{{"incentivize":{{"lp_token":"lp1","schedule":{}}}}}"#,
                to_json(&schedule)
            ),
        ),
        (
            IncentivesExecuteMsg::IncentivizeMany(vec![("lp1".to_string(), schedule.clone())]),
            format!(r#"{{"incentivize_many":[["lp1",{}]]}}"#, to_json(&schedule)),
        ),
    ];
    for (msg, json) in cases {
        assert_eq!(to_json(&msg), json);
    }
}

#[test]
fn incentives_queries_and_responses() {
    let cases = [
        (
            IncentivesQueryMsg::Deposit {
                lp_token: "lp".to_string(),
                user: "u".to_string(),
            },
            r#"{"deposit":{"lp_token":"lp","user":"u"}}"#,
        ),
        (
            IncentivesQueryMsg::PendingRewards {
                lp_token: "lp".to_string(),
                user: "u".to_string(),
            },
            r#"{"pending_rewards":{"lp_token":"lp","user":"u"}}"#,
        ),
        (
            IncentivesQueryMsg::RewardInfo {
                lp_token: "lp".to_string(),
            },
            r#"{"reward_info":{"lp_token":"lp"}}"#,
        ),
        (
            IncentivesQueryMsg::PoolInfo {
                lp_token: "lp".to_string(),
            },
            r#"{"pool_info":{"lp_token":"lp"}}"#,
        ),
        (IncentivesQueryMsg::ActivePools {}, r#"{"active_pools":{}}"#),
    ];
    for (msg, json) in cases {
        assert_eq!(to_json(&msg), json);
    }
    assert_eq!(
        to_json(&RewardType::Int(native("ujuno"))),
        r#"{"int":{"native_token":{"denom":"ujuno"}}}"#
    );
    let ext = RewardType::Ext {
        info: AssetInfo::Token {
            contract_addr: "cw20".to_string(),
        },
        next_update_ts: 1_700_000_000,
    };
    assert_eq!(
        to_json(&ext),
        r#"{"ext":{"info":{"token":{"contract_addr":"cw20"}},"next_update_ts":1700000000}}"#
    );
    let info = RewardInfo {
        reward: ext,
        rps: dec256(0, 1_500_000_000_000_000_000),
        index: dec256(0, 0),
        orphaned: dec256(0, 1),
    };
    let info_json = r#"{"reward":{"ext":{"info":{"token":{"contract_addr":"cw20"}},"next_update_ts":1700000000}},"rps":"1.5","index":"0","orphaned":"0.000000000000000001"}"#;
    assert_eq!(to_json(&info), info_json);
    let pool = PoolInfoResponse {
        total_lp: 10,
        rewards: vec![info.clone(), info],
        last_update_ts: 5,
    };
    assert_eq!(
        to_json(&pool),
        format!(
            r#"{{"total_lp":"10","rewards":[{},{}],"last_update_ts":5}}"#,
            info_json, info_json
        )
    );
}

#[test]
fn pair_messages() {
    let inst = InstantiateMsg {
        asset_infos: vec![native("ujuno"), native("ibc/USDC")],
        token_code_id: 3,
        factory_addr: "factory".to_string(),
        init_params: Some(Binary {
            bytes: b"opaque".to_vec(),
        }),
        pair_type: PairType::Xyk {},
    };
    assert_eq!(
        to_json(&inst),
        r#"{"asset_infos":[{"native_token":{"denom":"ujuno"}},{"native_token":{"denom":"ibc/USDC"}}],"token_code_id":3,"factory_addr":"factory","init_params":"b3BhcXVl","pair_type":{"xyk":{}}}"#
    );
    let fee_share = FeeShareConfig {
        bps: 250,
        recipient: "juno1fee".to_string(),
    };
    assert_eq!(to_json(&fee_share), r#"{"bps":250,"recipient":"juno1fee"}"#);
    let provide = PairExecuteMsg::ProvideLiquidity {
        assets: vec![ujuno(1)],
        slippage_tolerance: Some(Decimal {
            atomics: 20_000_000_000_000_000,
        }),
        auto_stake: Some(false),
        receiver: None,
        min_lp_to_receive: Some(9),
    };
    assert_eq!(
        to_json(&provide),
        r#"{"provide_liquidity":{"assets":[{"info":{"native_token":{"denom":"ujuno"}},"amount":"1"}],"slippage_tolerance":"0.02","auto_stake":false,"receiver":null,"min_lp_to_receive":"9"}}"#
    );
    let withdraw = PairExecuteMsg::WithdrawLiquidity {
        assets: vec![],
        min_assets_to_receive: Some(vec![ujuno(2)]),
    };
    assert_eq!(
        to_json(&withdraw),
        r#"{"withdraw_liquidity":{"assets":[],"min_assets_to_receive":[{"info":{"native_token":{"denom":"ujuno"}},"amount":"2"}]}}"#
    );
    let hook = Cw20HookMsg::Swap {
        ask_asset_info: Some(native("ujuno")),
        belief_price: None,
        max_spread: Some(Decimal {
            atomics: 5_000_000_000_000_000,
        }),
        to: Some("juno1to".to_string()),
    };
    assert_eq!(
        to_json(&hook),
        r#"{"swap":{"ask_asset_info":{"native_token":{"denom":"ujuno"}},"belief_price":null,"max_spread":"0.005","to":"juno1to"}}"#
    );
    let hook_withdraw = Cw20HookMsg::WithdrawLiquidity {
        assets: vec![],
        min_assets_to_receive: None,
    };
    assert_eq!(
        to_json(&hook_withdraw),
        r#"{"withdraw_liquidity":{"assets":[],"min_assets_to_receive":null}}"#
    );
}

#[test]
fn pair_queries_and_responses() {
    assert_eq!(to_json(&PairQueryMsg::Pair {}), r#"{"pair":{}}"#);
    assert_eq!(to_json(&PairQueryMsg::Pool {}), r#"{"pool":{}}"#);
    assert_eq!(
        to_json(&PairQueryMsg::Simulation {
            offer_asset: ujuno(5),
            ask_asset_info: None
        }),
        r#"{"simulation":{"offer_asset":{"info":{"native_token":{"denom":"ujuno"}},"amount":"5"},"ask_asset_info":null}}"#
    );
    assert_eq!(
        to_json(&PairQueryMsg::ReverseSimulation {
            offer_asset_info: Some(native("ibc/USDC")),
            ask_asset: ujuno(5)
        }),
        r#"{"reverse_simulation":{"offer_asset_info":{"native_token":{"denom":"ibc/USDC"}},"ask_asset":{"info":{"native_token":{"denom":"ujuno"}},"amount":"5"}}}"#
    );
    assert_eq!(
        to_json(&PoolResponse {
            assets: vec![ujuno(1), ujuno(2)],
            total_share: 3
        }),
        r#"{"assets":[{"info":{"native_token":{"denom":"ujuno"}},"amount":"1"},{"info":{"native_token":{"denom":"ujuno"}},"amount":"2"}],"total_share":"3"}"#
    );
    assert_eq!(
        to_json(&SimulationResponse {
            return_amount: 1,
            spread_amount: 2,
            commission_amount: 3
        }),
        r#"{"return_amount":"1","spread_amount":"2","commission_amount":"3"}"#
    );
    assert_eq!(
        to_json(&ReverseSimulationResponse {
            offer_amount: 4,
            spread_amount: 5,
            commission_amount: 6
        }),
        r#"{"offer_amount":"4","spread_amount":"5","commission_amount":"6"}"#
    );
}

#[test]
fn distinct_values_have_distinct_texts() {
    let texts = vec![
        to_json(&native("ujuno")),
        to_json(&native("ujuno ")),
        to_json(&AssetInfo::Token {
            contract_addr: "ujuno".to_string(),
        }),
        to_json(&"a\"b".to_string()),
        to_json(&"a\\\"b".to_string()),
        to_json(&Decimal { atomics: 15 }),
        to_json(&Decimal { atomics: 150 }),
        to_json(&dec256(1, 0)),
        to_json(&dec256(0, 1)),
        to_json(&Binary { bytes: vec![0] }),
        to_json(&Binary { bytes: vec![0, 0] }),
        to_json(&PairType::Xyk {}),
        to_json(&PairType::Custom("xyk".to_string())),
        to_json(&PairQueryMsg::Pair {}),
        to_json(&PairQueryMsg::Pool {}),
    ];
    for (i, a) in texts.iter().enumerate() {
        for b in texts.iter().skip(i + 1) {
            assert_ne!(a, b);
        }
    }
}

#[test]
fn router_native_swap_hops() {
    let value = RouterExecuteMsg::ExecuteSwapOperations {
        operations: vec![
            SwapOperation::NativeSwap {
                offer_denom: "ujuno".to_string(),
                ask_denom: "ibc/ATOM".to_string(),
            },
            SwapOperation::AstroSwap {
                offer_asset_info: native("ibc/ATOM"),
                ask_asset_info: AssetInfo::Token {
                    contract_addr: "cw20token".to_string(),
                },
            },
        ],
        minimum_receive: None,
        to: None,
        max_spread: Some(Decimal {
            atomics: 5_000_000_000_000_000,
        }),
    };
    assert_eq!(
        to_json(&value),
        r#"{"execute_swap_operations":{"operations":[{"native_swap":{"offer_denom":"ujuno","ask_denom":"ibc/ATOM"}},{"astro_swap":{"offer_asset_info":{"native_token":{"denom":"ibc/ATOM"}},"ask_asset_info":{"token":{"contract_addr":"cw20token"}}}}],"minimum_receive":null,"to":null,"max_spread":"0.005"}}"#
    );
    let empty = RouterExecuteMsg::ExecuteSwapOperations {
        operations: vec![],
        minimum_receive: Some(0),
        to: None,
        max_spread: None,
    };
    assert_eq!(
        to_json(&empty),
        r#"{"execute_swap_operations":{"operations":[],"minimum_receive":"0","to":null,"max_spread":null}}"#
    );
}
