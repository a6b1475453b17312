use astroport_juno_types::asset::{Asset, AssetInfo};
use astroport_juno_types::factory::{ExecuteMsg as FactoryExecuteMsg, PairConfig, PairType};
use astroport_juno_types::pair::{ExecuteMsg, XYKPoolParams};
use astroport_juno_types::primitives::{Binary, Decimal, Timestamp};
use astroport_juno_types::router::{ExecuteMsg as RouterExecuteMsg, SwapOperation};
use astroport_juno_types::wire::to_json;
use cosmwasm_std::Uint128;

fn native(denom: &str) -> AssetInfo {
    AssetInfo::NativeToken {
        denom: denom.to_string(),
    }
}

#[test]
fn asset_info_roundtrip() {
    let native_info = native("ujuno");
    assert_eq!(to_json(&native_info), r#"{"native_token":{"denom":"ujuno"}}"#);

    let token_info = AssetInfo::Token {
        contract_addr: "contract0000".to_string(),
    };
    assert_eq!(
        to_json(&token_info),
        r#"{"token":{"contract_addr":"contract0000"}}"#
    );
}

#[test]
fn asset_roundtrip() {
    let value = Asset {
        info: native("ujuno"),
        amount: 1_000_000,
    };
    let json = to_json(&value);
    assert_eq!(
        json,
        r#"{"info":{"native_token":{"denom":"ujuno"}},"amount":"1000000"}"#
    );
    let amount: Uint128 = cosmwasm_std::from_json(r#""1000000""#).unwrap();
    assert_eq!(amount, Uint128::new(1_000_000));
    assert_eq!(
        cosmwasm_std::to_json_string(&Uint128::new(1_000_000)).unwrap(),
        r#""1000000""#
    );
}

#[test]
fn factory_pair_type_roundtrip() {
    let cases = [
        (PairType::Xyk {}, r#"{"xyk":{}}"#, "xyk"),
        (PairType::Stable {}, r#"{"stable":{}}"#, "stable"),
        (
            PairType::Custom("concentrated".to_string()),
            r#"{"custom":"concentrated"}"#,
            "custom-concentrated",
        ),
    ];
    for (value, json, name) in cases {
        assert_eq!(to_json(&value), json);
        assert_eq!(value.to_string(), name);
    }
}

#[test]
fn factory_pair_config_roundtrip() {
    let value = PairConfig {
        code_id: 42,
        pair_type: PairType::Xyk {},
        total_fee_bps: 30,
        maker_fee_bps: 0,
        is_disabled: false,
        is_generator_disabled: true,
        permissioned: false,
        whitelist: None,
    };
    assert_eq!(
        to_json(&value),
        r#"{"code_id":42,"pair_type":{"xyk":{}},"total_fee_bps":30,"maker_fee_bps":0,"is_disabled":false,"is_generator_disabled":true,"permissioned":false,"whitelist":null}"#
    );
}

#[test]
fn factory_create_pair_roundtrip() {
    let value = FactoryExecuteMsg::CreatePair {
        pair_type: PairType::Xyk {},
        asset_infos: vec![native("ujuno"), native("ibc/USDC")],
        init_params: Some(Binary {
            bytes: b"opaque".to_vec(),
        }),
    };
    assert_eq!(
        to_json(&value),
        r#"{"create_pair":{"pair_type":{"xyk":{}},"asset_infos":[{"native_token":{"denom":"ujuno"}},{"native_token":{"denom":"ibc/USDC"}}],"init_params":"b3BhcXVl"}}"#
    );
    let init_params: cosmwasm_std::Binary = cosmwasm_std::from_json(r#""b3BhcXVl""#).unwrap();
    assert_eq!(init_params.to_vec(), b"opaque".to_vec());
}

#[test]
fn pair_xyk_pool_params_roundtrip_with_unpause() {
    let unpause_at = cosmwasm_std::Timestamp::from_seconds(1_750_000_000);
    let value = XYKPoolParams {
        track_asset_balances: Some(true),
        pool_unpause_at: Some(Timestamp {
            nanos: unpause_at.nanos(),
        }),
    };
    assert_eq!(
        to_json(&value),
        r#"{"track_asset_balances":true,"pool_unpause_at":"1750000000000000000"}"#
    );
    assert_eq!(
        to_json(&value.pool_unpause_at.unwrap()),
        cosmwasm_std::to_json_string(&unpause_at).unwrap()
    );
}

#[test]
fn pair_xyk_pool_params_omitted_unpause_field() {
    let value = XYKPoolParams {
        track_asset_balances: Some(false),
        pool_unpause_at: None,
    };
    assert_eq!(
        to_json(&value),
        r#"{"track_asset_balances":false,"pool_unpause_at":null}"#
    );
}

#[test]
fn pair_swap_execute_roundtrip() {
    let value = ExecuteMsg::Swap {
        offer_asset: Asset {
            info: native("ujuno"),
            amount: 123,
        },
        ask_asset_info: None,
        belief_price: Some(Decimal {
            atomics: cosmwasm_std::Decimal::percent(50).atomics().u128(),
        }),
        max_spread: None,
        to: None,
    };
    assert_eq!(
        to_json(&value),
        r#"{"swap":{"offer_asset":{"info":{"native_token":{"denom":"ujuno"}},"amount":"123"},"ask_asset_info":null,"belief_price":"0.5","max_spread":null,"to":null}}"#
    );
}

#[test]
fn router_swap_operations_roundtrip() {
    let value = RouterExecuteMsg::ExecuteSwapOperations {
        operations: vec![SwapOperation::AstroSwap {
            offer_asset_info: native("ujuno"),
            ask_asset_info: native("ibc/USDC"),
        }],
        minimum_receive: Some(900),
        to: Some("recipient".to_string()),
        max_spread: None,
    };
    assert_eq!(
        to_json(&value),
        r#"{"execute_swap_operations":{"operations":[{"astro_swap":{"offer_asset_info":{"native_token":{"denom":"ujuno"}},"ask_asset_info":{"native_token":{"denom":"ibc/USDC"}}}}],"minimum_receive":"900","to":"recipient","max_spread":null}}"#
    );
}
