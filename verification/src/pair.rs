//! Wire types of the pair contract that downstream consumers need, with the
//! Juno-specific `pool_unpause_at` pause window of XYK pools.
use vstd::prelude::*;
use crate::asset::{Asset, AssetInfo};
use crate::factory::PairType;
use crate::primitives::{Binary, Decimal, Timestamp};
use crate::unambiguous::{
    lemma_cancel_prefix, lemma_object_readable, lemma_object_unique, lemma_readable,
    lemma_wire_injective, lemma_tag_unique, lemma_tagged_unique, members, quote_free, readable,
    WireUnique, WireValue,
};
use crate::wire::{
    begin_object, end_object, lemma_tagged, member, object, tagged, write_member, write_tag,
    JsonWire,
};

verus! {

/// XYK pool initialization parameters, decoded by the pair contract from
/// the `InstantiateMsg.init_params` field.
#[derive(Clone, Debug, PartialEq, Eq)]
pub struct XYKPoolParams {
    /// Snapshot LP-side asset balances per block. Cannot be disabled after
    /// instantiation if enabled.
    pub track_asset_balances: Option<bool>,
    /// MEV-protection pause window: while the block time is before it,
    /// swaps revert; LP entry points stay callable. `None`: no pause,
    /// written as `null`.
    pub pool_unpause_at: Option<Timestamp>,
}

/// Optional fee-share configuration on a pair.
#[derive(Clone, Debug, PartialEq, Eq)]
pub struct FeeShareConfig {
    pub bps: u16,
    pub recipient: String,
}

/// Pair instantiate parameters, built by the factory's `CreatePair`.
#[derive(Clone, Debug, PartialEq, Eq)]
pub struct InstantiateMsg {
    pub asset_infos: Vec<AssetInfo>,
    pub token_code_id: u64,
    pub factory_addr: String,
    pub init_params: Option<Binary>,
    pub pair_type: PairType,
}

/// The message a cw20 contract sends to the pair when tokens are sent to it
/// with a hook message.
#[derive(Clone, Debug, PartialEq, Eq)]
pub struct Cw20ReceiveMsg {
    pub sender: String,
    pub amount: u128,
    pub msg: Binary,
}

/// The pair execute messages that downstream consumers may drive.
#[derive(Clone, Debug, PartialEq, Eq)]
pub enum ExecuteMsg {
    Receive(Cw20ReceiveMsg),
    ProvideLiquidity {
        assets: Vec<Asset>,
        slippage_tolerance: Option<Decimal>,
        auto_stake: Option<bool>,
        receiver: Option<String>,
        min_lp_to_receive: Option<u128>,
    },
    WithdrawLiquidity { assets: Vec<Asset>, min_assets_to_receive: Option<Vec<Asset>> },
    Swap {
        offer_asset: Asset,
        ask_asset_info: Option<AssetInfo>,
        belief_price: Option<Decimal>,
        max_spread: Option<Decimal>,
        to: Option<String>,
    },
}

/// The cw20 receive-hook message, used when swapping a cw20 token in.
#[derive(Clone, Debug, PartialEq, Eq)]
pub enum Cw20HookMsg {
    Swap {
        ask_asset_info: Option<AssetInfo>,
        belief_price: Option<Decimal>,
        max_spread: Option<Decimal>,
        to: Option<String>,
    },
    WithdrawLiquidity { assets: Vec<Asset>, min_assets_to_receive: Option<Vec<Asset>> },
}

/// The pair queries.
#[derive(Clone, Debug, PartialEq, Eq)]
pub enum QueryMsg {
    Pair {},
    Pool {},
    Simulation { offer_asset: Asset, ask_asset_info: Option<AssetInfo> },
    ReverseSimulation { offer_asset_info: Option<AssetInfo>, ask_asset: Asset },
}

/// Answer to `Pool`.
#[derive(Clone, Debug, PartialEq, Eq)]
pub struct PoolResponse {
    pub assets: Vec<Asset>,
    pub total_share: u128,
}

/// Answer to `Simulation`.
#[derive(Clone, Debug, PartialEq, Eq)]
pub struct SimulationResponse {
    pub return_amount: u128,
    pub spread_amount: u128,
    pub commission_amount: u128,
}

/// Answer to `ReverseSimulation`.
#[derive(Clone, Debug, PartialEq, Eq)]
pub struct ReverseSimulationResponse {
    pub offer_amount: u128,
    pub spread_amount: u128,
    pub commission_amount: u128,
}

impl JsonWire for XYKPoolParams {
    open spec fn wire(&self) -> Seq<char> {
        object(seq![
            member("track_asset_balances"@, self.track_asset_balances.wire()),
            member("pool_unpause_at"@, self.pool_unpause_at.wire()),
        ])
    }

    fn write_wire(&self, out: &mut String) {
        let ghost start = out@;
        let ghost mut ms: Seq<Seq<char>> = seq![];
        begin_object(out);
        write_member(
            out,
            Ghost(start),
            Ghost(ms),
            true,
            "track_asset_balances",
            &self.track_asset_balances,
        );
        proof {
            ms = ms.push(member("track_asset_balances"@, self.track_asset_balances.wire()));
        }
        write_member(out, Ghost(start), Ghost(ms), false, "pool_unpause_at", &self.pool_unpause_at);
        proof {
            ms = ms.push(member("pool_unpause_at"@, self.pool_unpause_at.wire()));
        }
        end_object(out, Ghost(start), Ghost(ms));
        assert(ms =~= seq![
            member("track_asset_balances"@, self.track_asset_balances.wire()),
            member("pool_unpause_at"@, self.pool_unpause_at.wire()),
        ]);
        assert(out@ =~= start + self.wire());
    }
}

impl JsonWire for FeeShareConfig {
    open spec fn wire(&self) -> Seq<char> {
        object(seq![member("bps"@, self.bps.wire()), member("recipient"@, self.recipient.wire())])
    }

    fn write_wire(&self, out: &mut String) {
        let ghost start = out@;
        let ghost mut ms: Seq<Seq<char>> = seq![];
        begin_object(out);
        write_member(out, Ghost(start), Ghost(ms), true, "bps", &self.bps);
        proof {
            ms = ms.push(member("bps"@, self.bps.wire()));
        }
        write_member(out, Ghost(start), Ghost(ms), false, "recipient", &self.recipient);
        proof {
            ms = ms.push(member("recipient"@, self.recipient.wire()));
        }
        end_object(out, Ghost(start), Ghost(ms));
        assert(ms =~= seq![
            member("bps"@, self.bps.wire()),
            member("recipient"@, self.recipient.wire()),
        ]);
        assert(out@ =~= start + self.wire());
    }
}

impl JsonWire for InstantiateMsg {
    open spec fn wire(&self) -> Seq<char> {
        object(seq![
            member("asset_infos"@, self.asset_infos.wire()),
            member("token_code_id"@, self.token_code_id.wire()),
            member("factory_addr"@, self.factory_addr.wire()),
            member("init_params"@, self.init_params.wire()),
            member("pair_type"@, self.pair_type.wire()),
        ])
    }

    fn write_wire(&self, out: &mut String) {
        let ghost start = out@;
        let ghost mut ms: Seq<Seq<char>> = seq![];
        begin_object(out);
        write_member(out, Ghost(start), Ghost(ms), true, "asset_infos", &self.asset_infos);
        proof {
            ms = ms.push(member("asset_infos"@, self.asset_infos.wire()));
        }
        write_member(out, Ghost(start), Ghost(ms), false, "token_code_id", &self.token_code_id);
        proof {
            ms = ms.push(member("token_code_id"@, self.token_code_id.wire()));
        }
        write_member(out, Ghost(start), Ghost(ms), false, "factory_addr", &self.factory_addr);
        proof {
            ms = ms.push(member("factory_addr"@, self.factory_addr.wire()));
        }
        write_member(out, Ghost(start), Ghost(ms), false, "init_params", &self.init_params);
        proof {
            ms = ms.push(member("init_params"@, self.init_params.wire()));
        }
        write_member(out, Ghost(start), Ghost(ms), false, "pair_type", &self.pair_type);
        proof {
            ms = ms.push(member("pair_type"@, self.pair_type.wire()));
        }
        end_object(out, Ghost(start), Ghost(ms));
        assert(ms =~= seq![
            member("asset_infos"@, self.asset_infos.wire()),
            member("token_code_id"@, self.token_code_id.wire()),
            member("factory_addr"@, self.factory_addr.wire()),
            member("init_params"@, self.init_params.wire()),
            member("pair_type"@, self.pair_type.wire()),
        ]);
        assert(out@ =~= start + self.wire());
    }
}

impl JsonWire for Cw20ReceiveMsg {
    open spec fn wire(&self) -> Seq<char> {
        object(seq![
            member("sender"@, self.sender.wire()),
            member("amount"@, self.amount.wire()),
            member("msg"@, self.msg.wire()),
        ])
    }

    fn write_wire(&self, out: &mut String) {
        let ghost start = out@;
        let ghost mut ms: Seq<Seq<char>> = seq![];
        begin_object(out);
        write_member(out, Ghost(start), Ghost(ms), true, "sender", &self.sender);
        proof {
            ms = ms.push(member("sender"@, self.sender.wire()));
        }
        write_member(out, Ghost(start), Ghost(ms), false, "amount", &self.amount);
        proof {
            ms = ms.push(member("amount"@, self.amount.wire()));
        }
        write_member(out, Ghost(start), Ghost(ms), false, "msg", &self.msg);
        proof {
            ms = ms.push(member("msg"@, self.msg.wire()));
        }
        end_object(out, Ghost(start), Ghost(ms));
        assert(ms =~= seq![
            member("sender"@, self.sender.wire()),
            member("amount"@, self.amount.wire()),
            member("msg"@, self.msg.wire()),
        ]);
        assert(out@ =~= start + self.wire());
    }
}

impl ExecuteMsg {
    /// The name of the variant on the wire.
    pub open spec fn wire_tag(&self) -> Seq<char> {
        match self {
            ExecuteMsg::Receive(..) => "receive"@,
            ExecuteMsg::ProvideLiquidity { .. } => "provide_liquidity"@,
            ExecuteMsg::WithdrawLiquidity { .. } => "withdraw_liquidity"@,
            ExecuteMsg::Swap { .. } => "swap"@,
        }
    }

    /// The data of the variant on the wire.
    pub open spec fn wire_body(&self) -> Seq<char> {
        match self {
            ExecuteMsg::Receive(x) => x.wire(),
            ExecuteMsg::ProvideLiquidity {
                assets,
                slippage_tolerance,
                auto_stake,
                receiver,
                min_lp_to_receive,
            } => object(seq![
                member("assets"@, assets.wire()),
                member("slippage_tolerance"@, slippage_tolerance.wire()),
                member("auto_stake"@, auto_stake.wire()),
                member("receiver"@, receiver.wire()),
                member("min_lp_to_receive"@, min_lp_to_receive.wire()),
            ]),
            ExecuteMsg::WithdrawLiquidity {
                assets,
                min_assets_to_receive,
            } => object(seq![
                member("assets"@, assets.wire()),
                member("min_assets_to_receive"@, min_assets_to_receive.wire()),
            ]),
            ExecuteMsg::Swap {
                offer_asset,
                ask_asset_info,
                belief_price,
                max_spread,
                to,
            } => object(seq![
                member("offer_asset"@, offer_asset.wire()),
                member("ask_asset_info"@, ask_asset_info.wire()),
                member("belief_price"@, belief_price.wire()),
                member("max_spread"@, max_spread.wire()),
                member("to"@, to.wire()),
            ]),
        }
    }
}

impl JsonWire for ExecuteMsg {
    open spec fn wire(&self) -> Seq<char> {
        tagged(self.wire_tag(), self.wire_body())
    }

    fn write_wire(&self, out: &mut String) {
        let ghost start = out@;
        match self {
            ExecuteMsg::Receive(x) => {
                write_tag(out, "receive");
                x.write_wire(out);
                out.push('}');
                proof {
                    lemma_tagged("receive"@, x.wire());
                }
            },
            ExecuteMsg::ProvideLiquidity {
                assets,
                slippage_tolerance,
                auto_stake,
                receiver,
                min_lp_to_receive,
            } => {
                write_tag(out, "provide_liquidity");
                let ghost inner = out@;
                let ghost mut ms: Seq<Seq<char>> = seq![];
                begin_object(out);
                write_member(out, Ghost(inner), Ghost(ms), true, "assets", assets);
                proof {
                    ms = ms.push(member("assets"@, assets.wire()));
                }
                write_member(
                    out,
                    Ghost(inner),
                    Ghost(ms),
                    false,
                    "slippage_tolerance",
                    slippage_tolerance,
                );
                proof {
                    ms = ms.push(member("slippage_tolerance"@, slippage_tolerance.wire()));
                }
                write_member(out, Ghost(inner), Ghost(ms), false, "auto_stake", auto_stake);
                proof {
                    ms = ms.push(member("auto_stake"@, auto_stake.wire()));
                }
                write_member(out, Ghost(inner), Ghost(ms), false, "receiver", receiver);
                proof {
                    ms = ms.push(member("receiver"@, receiver.wire()));
                }
                write_member(
                    out,
                    Ghost(inner),
                    Ghost(ms),
                    false,
                    "min_lp_to_receive",
                    min_lp_to_receive,
                );
                proof {
                    ms = ms.push(member("min_lp_to_receive"@, min_lp_to_receive.wire()));
                }
                end_object(out, Ghost(inner), Ghost(ms));
                assert(ms =~= seq![
                    member("assets"@, assets.wire()),
                    member("slippage_tolerance"@, slippage_tolerance.wire()),
                    member("auto_stake"@, auto_stake.wire()),
                    member("receiver"@, receiver.wire()),
                    member("min_lp_to_receive"@, min_lp_to_receive.wire()),
                ]);
                out.push('}');
                proof {
                    lemma_tagged(
                        "provide_liquidity"@,
                        object(seq![
                            member("assets"@, assets.wire()),
                            member("slippage_tolerance"@, slippage_tolerance.wire()),
                            member("auto_stake"@, auto_stake.wire()),
                            member("receiver"@, receiver.wire()),
                            member("min_lp_to_receive"@, min_lp_to_receive.wire()),
                        ]),
                    );
                }
            },
            ExecuteMsg::WithdrawLiquidity {
                assets,
                min_assets_to_receive,
            } => {
                write_tag(out, "withdraw_liquidity");
                let ghost inner = out@;
                let ghost mut ms: Seq<Seq<char>> = seq![];
                begin_object(out);
                write_member(out, Ghost(inner), Ghost(ms), true, "assets", assets);
                proof {
                    ms = ms.push(member("assets"@, assets.wire()));
                }
                write_member(
                    out,
                    Ghost(inner),
                    Ghost(ms),
                    false,
                    "min_assets_to_receive",
                    min_assets_to_receive,
                );
                proof {
                    ms = ms.push(member("min_assets_to_receive"@, min_assets_to_receive.wire()));
                }
                end_object(out, Ghost(inner), Ghost(ms));
                assert(ms =~= seq![
                    member("assets"@, assets.wire()),
                    member("min_assets_to_receive"@, min_assets_to_receive.wire()),
                ]);
                out.push('}');
                proof {
                    lemma_tagged(
                        "withdraw_liquidity"@,
                        object(seq![
                            member("assets"@, assets.wire()),
                            member("min_assets_to_receive"@, min_assets_to_receive.wire()),
                        ]),
                    );
                }
            },
            ExecuteMsg::Swap {
                offer_asset,
                ask_asset_info,
                belief_price,
                max_spread,
                to,
            } => {
                write_tag(out, "swap");
                let ghost inner = out@;
                let ghost mut ms: Seq<Seq<char>> = seq![];
                begin_object(out);
                write_member(out, Ghost(inner), Ghost(ms), true, "offer_asset", offer_asset);
                proof {
                    ms = ms.push(member("offer_asset"@, offer_asset.wire()));
                }
                write_member(out, Ghost(inner), Ghost(ms), false, "ask_asset_info", ask_asset_info);
                proof {
                    ms = ms.push(member("ask_asset_info"@, ask_asset_info.wire()));
                }
                write_member(out, Ghost(inner), Ghost(ms), false, "belief_price", belief_price);
                proof {
                    ms = ms.push(member("belief_price"@, belief_price.wire()));
                }
                write_member(out, Ghost(inner), Ghost(ms), false, "max_spread", max_spread);
                proof {
                    ms = ms.push(member("max_spread"@, max_spread.wire()));
                }
                write_member(out, Ghost(inner), Ghost(ms), false, "to", to);
                proof {
                    ms = ms.push(member("to"@, to.wire()));
                }
                end_object(out, Ghost(inner), Ghost(ms));
                assert(ms =~= seq![
                    member("offer_asset"@, offer_asset.wire()),
                    member("ask_asset_info"@, ask_asset_info.wire()),
                    member("belief_price"@, belief_price.wire()),
                    member("max_spread"@, max_spread.wire()),
                    member("to"@, to.wire()),
                ]);
                out.push('}');
                proof {
                    lemma_tagged(
                        "swap"@,
                        object(seq![
                            member("offer_asset"@, offer_asset.wire()),
                            member("ask_asset_info"@, ask_asset_info.wire()),
                            member("belief_price"@, belief_price.wire()),
                            member("max_spread"@, max_spread.wire()),
                            member("to"@, to.wire()),
                        ]),
                    );
                }
            },
        }
        assert(out@ =~= start + self.wire());
    }
}

impl Cw20HookMsg {
    /// The name of the variant on the wire.
    pub open spec fn wire_tag(&self) -> Seq<char> {
        match self {
            Cw20HookMsg::Swap { .. } => "swap"@,
            Cw20HookMsg::WithdrawLiquidity { .. } => "withdraw_liquidity"@,
        }
    }

    /// The data of the variant on the wire.
    pub open spec fn wire_body(&self) -> Seq<char> {
        match self {
            Cw20HookMsg::Swap {
                ask_asset_info,
                belief_price,
                max_spread,
                to,
            } => object(seq![
                member("ask_asset_info"@, ask_asset_info.wire()),
                member("belief_price"@, belief_price.wire()),
                member("max_spread"@, max_spread.wire()),
                member("to"@, to.wire()),
            ]),
            Cw20HookMsg::WithdrawLiquidity {
                assets,
                min_assets_to_receive,
            } => object(seq![
                member("assets"@, assets.wire()),
                member("min_assets_to_receive"@, min_assets_to_receive.wire()),
            ]),
        }
    }
}

impl JsonWire for Cw20HookMsg {
    open spec fn wire(&self) -> Seq<char> {
        tagged(self.wire_tag(), self.wire_body())
    }

    fn write_wire(&self, out: &mut String) {
        let ghost start = out@;
        match self {
            Cw20HookMsg::Swap {
                ask_asset_info,
                belief_price,
                max_spread,
                to,
            } => {
                write_tag(out, "swap");
                let ghost inner = out@;
                let ghost mut ms: Seq<Seq<char>> = seq![];
                begin_object(out);
                write_member(out, Ghost(inner), Ghost(ms), true, "ask_asset_info", ask_asset_info);
                proof {
                    ms = ms.push(member("ask_asset_info"@, ask_asset_info.wire()));
                }
                write_member(out, Ghost(inner), Ghost(ms), false, "belief_price", belief_price);
                proof {
                    ms = ms.push(member("belief_price"@, belief_price.wire()));
                }
                write_member(out, Ghost(inner), Ghost(ms), false, "max_spread", max_spread);
                proof {
                    ms = ms.push(member("max_spread"@, max_spread.wire()));
                }
                write_member(out, Ghost(inner), Ghost(ms), false, "to", to);
                proof {
                    ms = ms.push(member("to"@, to.wire()));
                }
                end_object(out, Ghost(inner), Ghost(ms));
                assert(ms =~= seq![
                    member("ask_asset_info"@, ask_asset_info.wire()),
                    member("belief_price"@, belief_price.wire()),
                    member("max_spread"@, max_spread.wire()),
                    member("to"@, to.wire()),
                ]);
                out.push('}');
                proof {
                    lemma_tagged(
                        "swap"@,
                        object(seq![
                            member("ask_asset_info"@, ask_asset_info.wire()),
                            member("belief_price"@, belief_price.wire()),
                            member("max_spread"@, max_spread.wire()),
                            member("to"@, to.wire()),
                        ]),
                    );
                }
            },
            Cw20HookMsg::WithdrawLiquidity {
                assets,
                min_assets_to_receive,
            } => {
                write_tag(out, "withdraw_liquidity");
                let ghost inner = out@;
                let ghost mut ms: Seq<Seq<char>> = seq![];
                begin_object(out);
                write_member(out, Ghost(inner), Ghost(ms), true, "assets", assets);
                proof {
                    ms = ms.push(member("assets"@, assets.wire()));
                }
                write_member(
                    out,
                    Ghost(inner),
                    Ghost(ms),
                    false,
                    "min_assets_to_receive",
                    min_assets_to_receive,
                );
                proof {
                    ms = ms.push(member("min_assets_to_receive"@, min_assets_to_receive.wire()));
                }
                end_object(out, Ghost(inner), Ghost(ms));
                assert(ms =~= seq![
                    member("assets"@, assets.wire()),
                    member("min_assets_to_receive"@, min_assets_to_receive.wire()),
                ]);
                out.push('}');
                proof {
                    lemma_tagged(
                        "withdraw_liquidity"@,
                        object(seq![
                            member("assets"@, assets.wire()),
                            member("min_assets_to_receive"@, min_assets_to_receive.wire()),
                        ]),
                    );
                }
            },
        }
        assert(out@ =~= start + self.wire());
    }
}

impl QueryMsg {
    /// The name of the variant on the wire.
    pub open spec fn wire_tag(&self) -> Seq<char> {
        match self {
            QueryMsg::Pair { .. } => "pair"@,
            QueryMsg::Pool { .. } => "pool"@,
            QueryMsg::Simulation { .. } => "simulation"@,
            QueryMsg::ReverseSimulation { .. } => "reverse_simulation"@,
        }
    }

    /// The data of the variant on the wire.
    pub open spec fn wire_body(&self) -> Seq<char> {
        match self {
            QueryMsg::Pair {} => object(seq![]),
            QueryMsg::Pool {} => object(seq![]),
            QueryMsg::Simulation { offer_asset, ask_asset_info } => object(seq![
                member("offer_asset"@, offer_asset.wire()),
                member("ask_asset_info"@, ask_asset_info.wire()),
            ]),
            QueryMsg::ReverseSimulation {
                offer_asset_info,
                ask_asset,
            } => object(seq![
                member("offer_asset_info"@, offer_asset_info.wire()),
                member("ask_asset"@, ask_asset.wire()),
            ]),
        }
    }
}

impl JsonWire for QueryMsg {
    open spec fn wire(&self) -> Seq<char> {
        tagged(self.wire_tag(), self.wire_body())
    }

    fn write_wire(&self, out: &mut String) {
        let ghost start = out@;
        match self {
            QueryMsg::Pair {} => {
                write_tag(out, "pair");
                let ghost inner = out@;
                let ghost mut ms: Seq<Seq<char>> = seq![];
                begin_object(out);
                end_object(out, Ghost(inner), Ghost(ms));
                assert(ms =~= seq![]);
                out.push('}');
                proof {
                    lemma_tagged("pair"@, object(seq![]));
                }
            },
            QueryMsg::Pool {} => {
                write_tag(out, "pool");
                let ghost inner = out@;
                let ghost mut ms: Seq<Seq<char>> = seq![];
                begin_object(out);
                end_object(out, Ghost(inner), Ghost(ms));
                assert(ms =~= seq![]);
                out.push('}');
                proof {
                    lemma_tagged("pool"@, object(seq![]));
                }
            },
            QueryMsg::Simulation { offer_asset, ask_asset_info } => {
                write_tag(out, "simulation");
                let ghost inner = out@;
                let ghost mut ms: Seq<Seq<char>> = seq![];
                begin_object(out);
                write_member(out, Ghost(inner), Ghost(ms), true, "offer_asset", offer_asset);
                proof {
                    ms = ms.push(member("offer_asset"@, offer_asset.wire()));
                }
                write_member(out, Ghost(inner), Ghost(ms), false, "ask_asset_info", ask_asset_info);
                proof {
                    ms = ms.push(member("ask_asset_info"@, ask_asset_info.wire()));
                }
                end_object(out, Ghost(inner), Ghost(ms));
                assert(ms =~= seq![
                    member("offer_asset"@, offer_asset.wire()),
                    member("ask_asset_info"@, ask_asset_info.wire()),
                ]);
                out.push('}');
                proof {
                    lemma_tagged(
                        "simulation"@,
                        object(seq![
                            member("offer_asset"@, offer_asset.wire()),
                            member("ask_asset_info"@, ask_asset_info.wire()),
                        ]),
                    );
                }
            },
            QueryMsg::ReverseSimulation {
                offer_asset_info,
                ask_asset,
            } => {
                write_tag(out, "reverse_simulation");
                let ghost inner = out@;
                let ghost mut ms: Seq<Seq<char>> = seq![];
                begin_object(out);
                write_member(
                    out,
                    Ghost(inner),
                    Ghost(ms),
                    true,
                    "offer_asset_info",
                    offer_asset_info,
                );
                proof {
                    ms = ms.push(member("offer_asset_info"@, offer_asset_info.wire()));
                }
                write_member(out, Ghost(inner), Ghost(ms), false, "ask_asset", ask_asset);
                proof {
                    ms = ms.push(member("ask_asset"@, ask_asset.wire()));
                }
                end_object(out, Ghost(inner), Ghost(ms));
                assert(ms =~= seq![
                    member("offer_asset_info"@, offer_asset_info.wire()),
                    member("ask_asset"@, ask_asset.wire()),
                ]);
                out.push('}');
                proof {
                    lemma_tagged(
                        "reverse_simulation"@,
                        object(seq![
                            member("offer_asset_info"@, offer_asset_info.wire()),
                            member("ask_asset"@, ask_asset.wire()),
                        ]),
                    );
                }
            },
        }
        assert(out@ =~= start + self.wire());
    }
}

impl JsonWire for PoolResponse {
    open spec fn wire(&self) -> Seq<char> {
        object(seq![
            member("assets"@, self.assets.wire()),
            member("total_share"@, self.total_share.wire()),
        ])
    }

    fn write_wire(&self, out: &mut String) {
        let ghost start = out@;
        let ghost mut ms: Seq<Seq<char>> = seq![];
        begin_object(out);
        write_member(out, Ghost(start), Ghost(ms), true, "assets", &self.assets);
        proof {
            ms = ms.push(member("assets"@, self.assets.wire()));
        }
        write_member(out, Ghost(start), Ghost(ms), false, "total_share", &self.total_share);
        proof {
            ms = ms.push(member("total_share"@, self.total_share.wire()));
        }
        end_object(out, Ghost(start), Ghost(ms));
        assert(ms =~= seq![
            member("assets"@, self.assets.wire()),
            member("total_share"@, self.total_share.wire()),
        ]);
        assert(out@ =~= start + self.wire());
    }
}

impl JsonWire for SimulationResponse {
    open spec fn wire(&self) -> Seq<char> {
        object(seq![
            member("return_amount"@, self.return_amount.wire()),
            member("spread_amount"@, self.spread_amount.wire()),
            member("commission_amount"@, self.commission_amount.wire()),
        ])
    }

    fn write_wire(&self, out: &mut String) {
        let ghost start = out@;
        let ghost mut ms: Seq<Seq<char>> = seq![];
        begin_object(out);
        write_member(out, Ghost(start), Ghost(ms), true, "return_amount", &self.return_amount);
        proof {
            ms = ms.push(member("return_amount"@, self.return_amount.wire()));
        }
        write_member(out, Ghost(start), Ghost(ms), false, "spread_amount", &self.spread_amount);
        proof {
            ms = ms.push(member("spread_amount"@, self.spread_amount.wire()));
        }
        write_member(
            out,
            Ghost(start),
            Ghost(ms),
            false,
            "commission_amount",
            &self.commission_amount,
        );
        proof {
            ms = ms.push(member("commission_amount"@, self.commission_amount.wire()));
        }
        end_object(out, Ghost(start), Ghost(ms));
        assert(ms =~= seq![
            member("return_amount"@, self.return_amount.wire()),
            member("spread_amount"@, self.spread_amount.wire()),
            member("commission_amount"@, self.commission_amount.wire()),
        ]);
        assert(out@ =~= start + self.wire());
    }
}

impl JsonWire for ReverseSimulationResponse {
    open spec fn wire(&self) -> Seq<char> {
        object(seq![
            member("offer_amount"@, self.offer_amount.wire()),
            member("spread_amount"@, self.spread_amount.wire()),
            member("commission_amount"@, self.commission_amount.wire()),
        ])
    }

    fn write_wire(&self, out: &mut String) {
        let ghost start = out@;
        let ghost mut ms: Seq<Seq<char>> = seq![];
        begin_object(out);
        write_member(out, Ghost(start), Ghost(ms), true, "offer_amount", &self.offer_amount);
        proof {
            ms = ms.push(member("offer_amount"@, self.offer_amount.wire()));
        }
        write_member(out, Ghost(start), Ghost(ms), false, "spread_amount", &self.spread_amount);
        proof {
            ms = ms.push(member("spread_amount"@, self.spread_amount.wire()));
        }
        write_member(
            out,
            Ghost(start),
            Ghost(ms),
            false,
            "commission_amount",
            &self.commission_amount,
        );
        proof {
            ms = ms.push(member("commission_amount"@, self.commission_amount.wire()));
        }
        end_object(out, Ghost(start), Ghost(ms));
        assert(ms =~= seq![
            member("offer_amount"@, self.offer_amount.wire()),
            member("spread_amount"@, self.spread_amount.wire()),
            member("commission_amount"@, self.commission_amount.wire()),
        ]);
        assert(out@ =~= start + self.wire());
    }
}

impl WireUnique for XYKPoolParams {
    open spec fn same(&self, other: &Self) -> bool {
        &&& self.track_asset_balances.same(&other.track_asset_balances)
        &&& self.pool_unpause_at.same(&other.pool_unpause_at)
    }

    proof fn lemma_wire_shape(&self) {
    }

    proof fn lemma_wire_unique(&self, other: &Self, r1: Seq<char>, r2: Seq<char>) {
        let ks = seq!["track_asset_balances"@, "pool_unpause_at"@];
        let vs = seq![self.track_asset_balances.wire(), self.pool_unpause_at.wire()];
        let ws = seq![other.track_asset_balances.wire(), other.pool_unpause_at.wire()];
        lemma_readable(&self.track_asset_balances, &other.track_asset_balances);
        lemma_readable(&self.pool_unpause_at, &other.pool_unpause_at);
        assert forall|i: int|
            0 <= i < ks.len() implies #[trigger] readable(vs[i], ws[i]) by {
            if i == 0 {
            } else if i == 1 {
            }
        }
        assert(members(ks, vs) =~= seq![
            member("track_asset_balances"@, self.track_asset_balances.wire()),
            member("pool_unpause_at"@, self.pool_unpause_at.wire()),
        ]);
        assert(members(ks, ws) =~= seq![
            member("track_asset_balances"@, other.track_asset_balances.wire()),
            member("pool_unpause_at"@, other.pool_unpause_at.wire()),
        ]);
        lemma_object_unique(ks, vs, ws, r1, r2);
        assert(vs[0] == ws[0]);
        lemma_wire_injective(&self.track_asset_balances, &other.track_asset_balances);
        assert(vs[1] == ws[1]);
        lemma_wire_injective(&self.pool_unpause_at, &other.pool_unpause_at);
    }
}

impl WireValue for XYKPoolParams {
    proof fn lemma_not_null(&self) {
    }
}

impl WireUnique for FeeShareConfig {
    open spec fn same(&self, other: &Self) -> bool {
        &&& self.bps.same(&other.bps)
        &&& self.recipient.same(&other.recipient)
    }

    proof fn lemma_wire_shape(&self) {
    }

    proof fn lemma_wire_unique(&self, other: &Self, r1: Seq<char>, r2: Seq<char>) {
        let ks = seq!["bps"@, "recipient"@];
        let vs = seq![self.bps.wire(), self.recipient.wire()];
        let ws = seq![other.bps.wire(), other.recipient.wire()];
        lemma_readable(&self.bps, &other.bps);
        lemma_readable(&self.recipient, &other.recipient);
        assert forall|i: int|
            0 <= i < ks.len() implies #[trigger] readable(vs[i], ws[i]) by {
            if i == 0 {
            } else if i == 1 {
            }
        }
        assert(members(ks, vs) =~= seq![
            member("bps"@, self.bps.wire()),
            member("recipient"@, self.recipient.wire()),
        ]);
        assert(members(ks, ws) =~= seq![
            member("bps"@, other.bps.wire()),
            member("recipient"@, other.recipient.wire()),
        ]);
        lemma_object_unique(ks, vs, ws, r1, r2);
        assert(vs[0] == ws[0]);
        lemma_wire_injective(&self.bps, &other.bps);
        assert(vs[1] == ws[1]);
        lemma_wire_injective(&self.recipient, &other.recipient);
    }
}

impl WireValue for FeeShareConfig {
    proof fn lemma_not_null(&self) {
    }
}

impl WireUnique for InstantiateMsg {
    open spec fn same(&self, other: &Self) -> bool {
        &&& self.asset_infos.same(&other.asset_infos)
        &&& self.token_code_id.same(&other.token_code_id)
        &&& self.factory_addr.same(&other.factory_addr)
        &&& self.init_params.same(&other.init_params)
        &&& self.pair_type.same(&other.pair_type)
    }

    proof fn lemma_wire_shape(&self) {
    }

    proof fn lemma_wire_unique(&self, other: &Self, r1: Seq<char>, r2: Seq<char>) {
        let ks = seq![
            "asset_infos"@,
            "token_code_id"@,
            "factory_addr"@,
            "init_params"@,
            "pair_type"@,
        ];
        let vs = seq![
            self.asset_infos.wire(),
            self.token_code_id.wire(),
            self.factory_addr.wire(),
            self.init_params.wire(),
            self.pair_type.wire(),
        ];
        let ws = seq![
            other.asset_infos.wire(),
            other.token_code_id.wire(),
            other.factory_addr.wire(),
            other.init_params.wire(),
            other.pair_type.wire(),
        ];
        lemma_readable(&self.asset_infos, &other.asset_infos);
        lemma_readable(&self.token_code_id, &other.token_code_id);
        lemma_readable(&self.factory_addr, &other.factory_addr);
        lemma_readable(&self.init_params, &other.init_params);
        lemma_readable(&self.pair_type, &other.pair_type);
        assert forall|i: int|
            0 <= i < ks.len() implies #[trigger] readable(vs[i], ws[i]) by {
            if i == 0 {
            } else if i == 1 {
            } else if i == 2 {
            } else if i == 3 {
            } else if i == 4 {
            }
        }
        assert(members(ks, vs) =~= seq![
            member("asset_infos"@, self.asset_infos.wire()),
            member("token_code_id"@, self.token_code_id.wire()),
            member("factory_addr"@, self.factory_addr.wire()),
            member("init_params"@, self.init_params.wire()),
            member("pair_type"@, self.pair_type.wire()),
        ]);
        assert(members(ks, ws) =~= seq![
            member("asset_infos"@, other.asset_infos.wire()),
            member("token_code_id"@, other.token_code_id.wire()),
            member("factory_addr"@, other.factory_addr.wire()),
            member("init_params"@, other.init_params.wire()),
            member("pair_type"@, other.pair_type.wire()),
        ]);
        lemma_object_unique(ks, vs, ws, r1, r2);
        assert(vs[0] == ws[0]);
        lemma_wire_injective(&self.asset_infos, &other.asset_infos);
        assert(vs[1] == ws[1]);
        lemma_wire_injective(&self.token_code_id, &other.token_code_id);
        assert(vs[2] == ws[2]);
        lemma_wire_injective(&self.factory_addr, &other.factory_addr);
        assert(vs[3] == ws[3]);
        lemma_wire_injective(&self.init_params, &other.init_params);
        assert(vs[4] == ws[4]);
        lemma_wire_injective(&self.pair_type, &other.pair_type);
    }
}

impl WireValue for InstantiateMsg {
    proof fn lemma_not_null(&self) {
    }
}

impl WireUnique for Cw20ReceiveMsg {
    open spec fn same(&self, other: &Self) -> bool {
        &&& self.sender.same(&other.sender)
        &&& self.amount.same(&other.amount)
        &&& self.msg.same(&other.msg)
    }

    proof fn lemma_wire_shape(&self) {
    }

    proof fn lemma_wire_unique(&self, other: &Self, r1: Seq<char>, r2: Seq<char>) {
        let ks = seq!["sender"@, "amount"@, "msg"@];
        let vs = seq![self.sender.wire(), self.amount.wire(), self.msg.wire()];
        let ws = seq![other.sender.wire(), other.amount.wire(), other.msg.wire()];
        lemma_readable(&self.sender, &other.sender);
        lemma_readable(&self.amount, &other.amount);
        lemma_readable(&self.msg, &other.msg);
        assert forall|i: int|
            0 <= i < ks.len() implies #[trigger] readable(vs[i], ws[i]) by {
            if i == 0 {
            } else if i == 1 {
            } else if i == 2 {
            }
        }
        assert(members(ks, vs) =~= seq![
            member("sender"@, self.sender.wire()),
            member("amount"@, self.amount.wire()),
            member("msg"@, self.msg.wire()),
        ]);
        assert(members(ks, ws) =~= seq![
            member("sender"@, other.sender.wire()),
            member("amount"@, other.amount.wire()),
            member("msg"@, other.msg.wire()),
        ]);
        lemma_object_unique(ks, vs, ws, r1, r2);
        assert(vs[0] == ws[0]);
        lemma_wire_injective(&self.sender, &other.sender);
        assert(vs[1] == ws[1]);
        lemma_wire_injective(&self.amount, &other.amount);
        assert(vs[2] == ws[2]);
        lemma_wire_injective(&self.msg, &other.msg);
    }
}

impl WireValue for Cw20ReceiveMsg {
    proof fn lemma_not_null(&self) {
    }
}

impl WireUnique for ExecuteMsg {
    open spec fn same(&self, other: &Self) -> bool {
        match (self, other) {
            (ExecuteMsg::Receive(x), ExecuteMsg::Receive(o_x)) => x.same(o_x),
            (ExecuteMsg::ProvideLiquidity {
                assets,
                slippage_tolerance,
                auto_stake,
                receiver,
                min_lp_to_receive,
            }, ExecuteMsg::ProvideLiquidity {
                assets: o_assets,
                slippage_tolerance: o_slippage_tolerance,
                auto_stake: o_auto_stake,
                receiver: o_receiver,
                min_lp_to_receive: o_min_lp_to_receive,
            }) => {
                &&& assets.same(o_assets)
                &&& slippage_tolerance.same(o_slippage_tolerance)
                &&& auto_stake.same(o_auto_stake)
                &&& receiver.same(o_receiver)
                &&& min_lp_to_receive.same(o_min_lp_to_receive)
            },
            (ExecuteMsg::WithdrawLiquidity {
                assets,
                min_assets_to_receive,
            }, ExecuteMsg::WithdrawLiquidity {
                assets: o_assets,
                min_assets_to_receive: o_min_assets_to_receive,
            }) => {
                &&& assets.same(o_assets)
                &&& min_assets_to_receive.same(o_min_assets_to_receive)
            },
            (ExecuteMsg::Swap {
                offer_asset,
                ask_asset_info,
                belief_price,
                max_spread,
                to,
            }, ExecuteMsg::Swap {
                offer_asset: o_offer_asset,
                ask_asset_info: o_ask_asset_info,
                belief_price: o_belief_price,
                max_spread: o_max_spread,
                to: o_to,
            }) => {
                &&& offer_asset.same(o_offer_asset)
                &&& ask_asset_info.same(o_ask_asset_info)
                &&& belief_price.same(o_belief_price)
                &&& max_spread.same(o_max_spread)
                &&& to.same(o_to)
            },
            _ => false,
        }
    }

    proof fn lemma_wire_shape(&self) {
    }

    #[verifier::spinoff_prover]
    #[verifier::rlimit(40)]
    proof fn lemma_wire_unique(&self, other: &Self, r1: Seq<char>, r2: Seq<char>) {
        reveal_strlit("receive");
        reveal_strlit("provide_liquidity");
        reveal_strlit("withdraw_liquidity");
        reveal_strlit("swap");
        assert(self.wire() == tagged(self.wire_tag(), self.wire_body()));
        assert(other.wire() == tagged(other.wire_tag(), other.wire_body()));
        assert(quote_free(self.wire_tag()));
        assert(quote_free(other.wire_tag()));
        lemma_tag_unique(
            self.wire_tag(),
            self.wire_body(),
            other.wire_tag(),
            other.wire_body(),
            r1,
            r2,
        );
        match self {
            ExecuteMsg::Receive(x) => match other {
                ExecuteMsg::Receive(o_x) => {
                    lemma_readable(x, o_x);
                    lemma_tagged_unique("receive"@, x.wire(), o_x.wire(), r1, r2);
                    lemma_wire_injective(x, o_x);
                },
                _ => {
                    assert(self.wire_tag()[0] == other.wire_tag()[0]);
                    assert(self.wire_tag()[1] == other.wire_tag()[1]);
                },
            },
            ExecuteMsg::ProvideLiquidity {
                assets,
                slippage_tolerance,
                auto_stake,
                receiver,
                min_lp_to_receive,
            } => match other {
                ExecuteMsg::ProvideLiquidity {
                    assets: o_assets,
                    slippage_tolerance: o_slippage_tolerance,
                    auto_stake: o_auto_stake,
                    receiver: o_receiver,
                    min_lp_to_receive: o_min_lp_to_receive,
                } => {
                    let ks = seq![
                        "assets"@,
                        "slippage_tolerance"@,
                        "auto_stake"@,
                        "receiver"@,
                        "min_lp_to_receive"@,
                    ];
                    let vs = seq![
                        assets.wire(),
                        slippage_tolerance.wire(),
                        auto_stake.wire(),
                        receiver.wire(),
                        min_lp_to_receive.wire(),
                    ];
                    let ws = seq![
                        o_assets.wire(),
                        o_slippage_tolerance.wire(),
                        o_auto_stake.wire(),
                        o_receiver.wire(),
                        o_min_lp_to_receive.wire(),
                    ];
                    lemma_readable(assets, o_assets);
                    lemma_readable(slippage_tolerance, o_slippage_tolerance);
                    lemma_readable(auto_stake, o_auto_stake);
                    lemma_readable(receiver, o_receiver);
                    lemma_readable(min_lp_to_receive, o_min_lp_to_receive);
                    assert forall|i: int|
                        0 <= i < ks.len() implies #[trigger] readable(vs[i], ws[i]) by {
                        if i == 0 {
                        } else if i == 1 {
                        } else if i == 2 {
                        } else if i == 3 {
                        } else if i == 4 {
                        }
                    }
                    assert(members(ks, vs) =~= seq![
                        member("assets"@, assets.wire()),
                        member("slippage_tolerance"@, slippage_tolerance.wire()),
                        member("auto_stake"@, auto_stake.wire()),
                        member("receiver"@, receiver.wire()),
                        member("min_lp_to_receive"@, min_lp_to_receive.wire()),
                    ]);
                    assert(members(ks, ws) =~= seq![
                        member("assets"@, o_assets.wire()),
                        member("slippage_tolerance"@, o_slippage_tolerance.wire()),
                        member("auto_stake"@, o_auto_stake.wire()),
                        member("receiver"@, o_receiver.wire()),
                        member("min_lp_to_receive"@, o_min_lp_to_receive.wire()),
                    ]);
                    lemma_object_readable(ks, vs, ws);
                    let bv = object(members(ks, vs));
                    let bw = object(members(ks, ws));
                    lemma_tagged_unique("provide_liquidity"@, bv, bw, r1, r2);
                    let empty = Seq::<char>::empty();
                    assert(bv + empty =~= bv);
                    assert(bw + empty =~= bw);
                    lemma_object_unique(ks, vs, ws, empty, empty);
                    assert(vs[0] == ws[0]);
                    lemma_wire_injective(assets, o_assets);
                    assert(vs[1] == ws[1]);
                    lemma_wire_injective(slippage_tolerance, o_slippage_tolerance);
                    assert(vs[2] == ws[2]);
                    lemma_wire_injective(auto_stake, o_auto_stake);
                    assert(vs[3] == ws[3]);
                    lemma_wire_injective(receiver, o_receiver);
                    assert(vs[4] == ws[4]);
                    lemma_wire_injective(min_lp_to_receive, o_min_lp_to_receive);
                },
                _ => {
                    assert(self.wire_tag()[0] == other.wire_tag()[0]);
                    assert(self.wire_tag()[1] == other.wire_tag()[1]);
                },
            },
            ExecuteMsg::WithdrawLiquidity {
                assets,
                min_assets_to_receive,
            } => match other {
                ExecuteMsg::WithdrawLiquidity {
                    assets: o_assets,
                    min_assets_to_receive: o_min_assets_to_receive,
                } => {
                    let ks = seq!["assets"@, "min_assets_to_receive"@];
                    let vs = seq![assets.wire(), min_assets_to_receive.wire()];
                    let ws = seq![o_assets.wire(), o_min_assets_to_receive.wire()];
                    lemma_readable(assets, o_assets);
                    lemma_readable(min_assets_to_receive, o_min_assets_to_receive);
                    assert forall|i: int|
                        0 <= i < ks.len() implies #[trigger] readable(vs[i], ws[i]) by {
                        if i == 0 {
                        } else if i == 1 {
                        }
                    }
                    assert(members(ks, vs) =~= seq![
                        member("assets"@, assets.wire()),
                        member("min_assets_to_receive"@, min_assets_to_receive.wire()),
                    ]);
                    assert(members(ks, ws) =~= seq![
                        member("assets"@, o_assets.wire()),
                        member("min_assets_to_receive"@, o_min_assets_to_receive.wire()),
                    ]);
                    lemma_object_readable(ks, vs, ws);
                    let bv = object(members(ks, vs));
                    let bw = object(members(ks, ws));
                    lemma_tagged_unique("withdraw_liquidity"@, bv, bw, r1, r2);
                    let empty = Seq::<char>::empty();
                    assert(bv + empty =~= bv);
                    assert(bw + empty =~= bw);
                    lemma_object_unique(ks, vs, ws, empty, empty);
                    assert(vs[0] == ws[0]);
                    lemma_wire_injective(assets, o_assets);
                    assert(vs[1] == ws[1]);
                    lemma_wire_injective(min_assets_to_receive, o_min_assets_to_receive);
                },
                _ => {
                    assert(self.wire_tag()[0] == other.wire_tag()[0]);
                    assert(self.wire_tag()[1] == other.wire_tag()[1]);
                },
            },
            ExecuteMsg::Swap {
                offer_asset,
                ask_asset_info,
                belief_price,
                max_spread,
                to,
            } => match other {
                ExecuteMsg::Swap {
                    offer_asset: o_offer_asset,
                    ask_asset_info: o_ask_asset_info,
                    belief_price: o_belief_price,
                    max_spread: o_max_spread,
                    to: o_to,
                } => {
                    let ks = seq![
                        "offer_asset"@,
                        "ask_asset_info"@,
                        "belief_price"@,
                        "max_spread"@,
                        "to"@,
                    ];
                    let vs = seq![
                        offer_asset.wire(),
                        ask_asset_info.wire(),
                        belief_price.wire(),
                        max_spread.wire(),
                        to.wire(),
                    ];
                    let ws = seq![
                        o_offer_asset.wire(),
                        o_ask_asset_info.wire(),
                        o_belief_price.wire(),
                        o_max_spread.wire(),
                        o_to.wire(),
                    ];
                    lemma_readable(offer_asset, o_offer_asset);
                    lemma_readable(ask_asset_info, o_ask_asset_info);
                    lemma_readable(belief_price, o_belief_price);
                    lemma_readable(max_spread, o_max_spread);
                    lemma_readable(to, o_to);
                    assert forall|i: int|
                        0 <= i < ks.len() implies #[trigger] readable(vs[i], ws[i]) by {
                        if i == 0 {
                        } else if i == 1 {
                        } else if i == 2 {
                        } else if i == 3 {
                        } else if i == 4 {
                        }
                    }
                    assert(members(ks, vs) =~= seq![
                        member("offer_asset"@, offer_asset.wire()),
                        member("ask_asset_info"@, ask_asset_info.wire()),
                        member("belief_price"@, belief_price.wire()),
                        member("max_spread"@, max_spread.wire()),
                        member("to"@, to.wire()),
                    ]);
                    assert(members(ks, ws) =~= seq![
                        member("offer_asset"@, o_offer_asset.wire()),
                        member("ask_asset_info"@, o_ask_asset_info.wire()),
                        member("belief_price"@, o_belief_price.wire()),
                        member("max_spread"@, o_max_spread.wire()),
                        member("to"@, o_to.wire()),
                    ]);
                    lemma_object_readable(ks, vs, ws);
                    let bv = object(members(ks, vs));
                    let bw = object(members(ks, ws));
                    lemma_tagged_unique("swap"@, bv, bw, r1, r2);
                    let empty = Seq::<char>::empty();
                    assert(bv + empty =~= bv);
                    assert(bw + empty =~= bw);
                    lemma_object_unique(ks, vs, ws, empty, empty);
                    assert(vs[0] == ws[0]);
                    lemma_wire_injective(offer_asset, o_offer_asset);
                    assert(vs[1] == ws[1]);
                    lemma_wire_injective(ask_asset_info, o_ask_asset_info);
                    assert(vs[2] == ws[2]);
                    lemma_wire_injective(belief_price, o_belief_price);
                    assert(vs[3] == ws[3]);
                    lemma_wire_injective(max_spread, o_max_spread);
                    assert(vs[4] == ws[4]);
                    lemma_wire_injective(to, o_to);
                },
                _ => {
                    assert(self.wire_tag()[0] == other.wire_tag()[0]);
                    assert(self.wire_tag()[1] == other.wire_tag()[1]);
                },
            },
        }
    }
}

impl WireValue for ExecuteMsg {
    proof fn lemma_not_null(&self) {
    }
}

impl WireUnique for Cw20HookMsg {
    open spec fn same(&self, other: &Self) -> bool {
        match (self, other) {
            (Cw20HookMsg::Swap {
                ask_asset_info,
                belief_price,
                max_spread,
                to,
            }, Cw20HookMsg::Swap {
                ask_asset_info: o_ask_asset_info,
                belief_price: o_belief_price,
                max_spread: o_max_spread,
                to: o_to,
            }) => {
                &&& ask_asset_info.same(o_ask_asset_info)
                &&& belief_price.same(o_belief_price)
                &&& max_spread.same(o_max_spread)
                &&& to.same(o_to)
            },
            (Cw20HookMsg::WithdrawLiquidity {
                assets,
                min_assets_to_receive,
            }, Cw20HookMsg::WithdrawLiquidity {
                assets: o_assets,
                min_assets_to_receive: o_min_assets_to_receive,
            }) => {
                &&& assets.same(o_assets)
                &&& min_assets_to_receive.same(o_min_assets_to_receive)
            },
            _ => false,
        }
    }

    proof fn lemma_wire_shape(&self) {
    }

    #[verifier::spinoff_prover]
    #[verifier::rlimit(40)]
    proof fn lemma_wire_unique(&self, other: &Self, r1: Seq<char>, r2: Seq<char>) {
        reveal_strlit("swap");
        reveal_strlit("withdraw_liquidity");
        assert(self.wire() == tagged(self.wire_tag(), self.wire_body()));
        assert(other.wire() == tagged(other.wire_tag(), other.wire_body()));
        assert(quote_free(self.wire_tag()));
        assert(quote_free(other.wire_tag()));
        lemma_tag_unique(
            self.wire_tag(),
            self.wire_body(),
            other.wire_tag(),
            other.wire_body(),
            r1,
            r2,
        );
        match self {
            Cw20HookMsg::Swap {
                ask_asset_info,
                belief_price,
                max_spread,
                to,
            } => match other {
                Cw20HookMsg::Swap {
                    ask_asset_info: o_ask_asset_info,
                    belief_price: o_belief_price,
                    max_spread: o_max_spread,
                    to: o_to,
                } => {
                    let ks = seq!["ask_asset_info"@, "belief_price"@, "max_spread"@, "to"@];
                    let vs = seq![
                        ask_asset_info.wire(),
                        belief_price.wire(),
                        max_spread.wire(),
                        to.wire(),
                    ];
                    let ws = seq![
                        o_ask_asset_info.wire(),
                        o_belief_price.wire(),
                        o_max_spread.wire(),
                        o_to.wire(),
                    ];
                    lemma_readable(ask_asset_info, o_ask_asset_info);
                    lemma_readable(belief_price, o_belief_price);
                    lemma_readable(max_spread, o_max_spread);
                    lemma_readable(to, o_to);
                    assert forall|i: int|
                        0 <= i < ks.len() implies #[trigger] readable(vs[i], ws[i]) by {
                        if i == 0 {
                        } else if i == 1 {
                        } else if i == 2 {
                        } else if i == 3 {
                        }
                    }
                    assert(members(ks, vs) =~= seq![
                        member("ask_asset_info"@, ask_asset_info.wire()),
                        member("belief_price"@, belief_price.wire()),
                        member("max_spread"@, max_spread.wire()),
                        member("to"@, to.wire()),
                    ]);
                    assert(members(ks, ws) =~= seq![
                        member("ask_asset_info"@, o_ask_asset_info.wire()),
                        member("belief_price"@, o_belief_price.wire()),
                        member("max_spread"@, o_max_spread.wire()),
                        member("to"@, o_to.wire()),
                    ]);
                    lemma_object_readable(ks, vs, ws);
                    let bv = object(members(ks, vs));
                    let bw = object(members(ks, ws));
                    lemma_tagged_unique("swap"@, bv, bw, r1, r2);
                    let empty = Seq::<char>::empty();
                    assert(bv + empty =~= bv);
                    assert(bw + empty =~= bw);
                    lemma_object_unique(ks, vs, ws, empty, empty);
                    assert(vs[0] == ws[0]);
                    lemma_wire_injective(ask_asset_info, o_ask_asset_info);
                    assert(vs[1] == ws[1]);
                    lemma_wire_injective(belief_price, o_belief_price);
                    assert(vs[2] == ws[2]);
                    lemma_wire_injective(max_spread, o_max_spread);
                    assert(vs[3] == ws[3]);
                    lemma_wire_injective(to, o_to);
                },
                _ => {
                    assert(self.wire_tag()[0] == other.wire_tag()[0]);
                    assert(self.wire_tag()[1] == other.wire_tag()[1]);
                },
            },
            Cw20HookMsg::WithdrawLiquidity {
                assets,
                min_assets_to_receive,
            } => match other {
                Cw20HookMsg::WithdrawLiquidity {
                    assets: o_assets,
                    min_assets_to_receive: o_min_assets_to_receive,
                } => {
                    let ks = seq!["assets"@, "min_assets_to_receive"@];
                    let vs = seq![assets.wire(), min_assets_to_receive.wire()];
                    let ws = seq![o_assets.wire(), o_min_assets_to_receive.wire()];
                    lemma_readable(assets, o_assets);
                    lemma_readable(min_assets_to_receive, o_min_assets_to_receive);
                    assert forall|i: int|
                        0 <= i < ks.len() implies #[trigger] readable(vs[i], ws[i]) by {
                        if i == 0 {
                        } else if i == 1 {
                        }
                    }
                    assert(members(ks, vs) =~= seq![
                        member("assets"@, assets.wire()),
                        member("min_assets_to_receive"@, min_assets_to_receive.wire()),
                    ]);
                    assert(members(ks, ws) =~= seq![
                        member("assets"@, o_assets.wire()),
                        member("min_assets_to_receive"@, o_min_assets_to_receive.wire()),
                    ]);
                    lemma_object_readable(ks, vs, ws);
                    let bv = object(members(ks, vs));
                    let bw = object(members(ks, ws));
                    lemma_tagged_unique("withdraw_liquidity"@, bv, bw, r1, r2);
                    let empty = Seq::<char>::empty();
                    assert(bv + empty =~= bv);
                    assert(bw + empty =~= bw);
                    lemma_object_unique(ks, vs, ws, empty, empty);
                    assert(vs[0] == ws[0]);
                    lemma_wire_injective(assets, o_assets);
                    assert(vs[1] == ws[1]);
                    lemma_wire_injective(min_assets_to_receive, o_min_assets_to_receive);
                },
                _ => {
                    assert(self.wire_tag()[0] == other.wire_tag()[0]);
                    assert(self.wire_tag()[1] == other.wire_tag()[1]);
                },
            },
        }
    }
}

impl WireValue for Cw20HookMsg {
    proof fn lemma_not_null(&self) {
    }
}

impl WireUnique for QueryMsg {
    open spec fn same(&self, other: &Self) -> bool {
        match (self, other) {
            (QueryMsg::Pair {}, QueryMsg::Pair {}) => true,
            (QueryMsg::Pool {}, QueryMsg::Pool {}) => true,
            (QueryMsg::Simulation { offer_asset, ask_asset_info }, QueryMsg::Simulation {
                offer_asset: o_offer_asset,
                ask_asset_info: o_ask_asset_info,
            }) => {
                &&& offer_asset.same(o_offer_asset)
                &&& ask_asset_info.same(o_ask_asset_info)
            },
            (QueryMsg::ReverseSimulation {
                offer_asset_info,
                ask_asset,
            }, QueryMsg::ReverseSimulation {
                offer_asset_info: o_offer_asset_info,
                ask_asset: o_ask_asset,
            }) => {
                &&& offer_asset_info.same(o_offer_asset_info)
                &&& ask_asset.same(o_ask_asset)
            },
            _ => false,
        }
    }

    proof fn lemma_wire_shape(&self) {
    }

    #[verifier::spinoff_prover]
    #[verifier::rlimit(40)]
    proof fn lemma_wire_unique(&self, other: &Self, r1: Seq<char>, r2: Seq<char>) {
        reveal_strlit("pair");
        reveal_strlit("pool");
        reveal_strlit("simulation");
        reveal_strlit("reverse_simulation");
        assert(self.wire() == tagged(self.wire_tag(), self.wire_body()));
        assert(other.wire() == tagged(other.wire_tag(), other.wire_body()));
        assert(quote_free(self.wire_tag()));
        assert(quote_free(other.wire_tag()));
        lemma_tag_unique(
            self.wire_tag(),
            self.wire_body(),
            other.wire_tag(),
            other.wire_body(),
            r1,
            r2,
        );
        match self {
            QueryMsg::Pair {} => match other {
                QueryMsg::Pair {} => {
                    lemma_cancel_prefix(self.wire(), r1, r2);
                },
                _ => {
                    assert(self.wire_tag()[0] == other.wire_tag()[0]);
                    assert(self.wire_tag()[1] == other.wire_tag()[1]);
                },
            },
            QueryMsg::Pool {} => match other {
                QueryMsg::Pool {} => {
                    lemma_cancel_prefix(self.wire(), r1, r2);
                },
                _ => {
                    assert(self.wire_tag()[0] == other.wire_tag()[0]);
                    assert(self.wire_tag()[1] == other.wire_tag()[1]);
                },
            },
            QueryMsg::Simulation { offer_asset, ask_asset_info } => match other {
                QueryMsg::Simulation {
                    offer_asset: o_offer_asset,
                    ask_asset_info: o_ask_asset_info,
                } => {
                    let ks = seq!["offer_asset"@, "ask_asset_info"@];
                    let vs = seq![offer_asset.wire(), ask_asset_info.wire()];
                    let ws = seq![o_offer_asset.wire(), o_ask_asset_info.wire()];
                    lemma_readable(offer_asset, o_offer_asset);
                    lemma_readable(ask_asset_info, o_ask_asset_info);
                    assert forall|i: int|
                        0 <= i < ks.len() implies #[trigger] readable(vs[i], ws[i]) by {
                        if i == 0 {
                        } else if i == 1 {
                        }
                    }
                    assert(members(ks, vs) =~= seq![
                        member("offer_asset"@, offer_asset.wire()),
                        member("ask_asset_info"@, ask_asset_info.wire()),
                    ]);
                    assert(members(ks, ws) =~= seq![
                        member("offer_asset"@, o_offer_asset.wire()),
                        member("ask_asset_info"@, o_ask_asset_info.wire()),
                    ]);
                    lemma_object_readable(ks, vs, ws);
                    let bv = object(members(ks, vs));
                    let bw = object(members(ks, ws));
                    lemma_tagged_unique("simulation"@, bv, bw, r1, r2);
                    let empty = Seq::<char>::empty();
                    assert(bv + empty =~= bv);
                    assert(bw + empty =~= bw);
                    lemma_object_unique(ks, vs, ws, empty, empty);
                    assert(vs[0] == ws[0]);
                    lemma_wire_injective(offer_asset, o_offer_asset);
                    assert(vs[1] == ws[1]);
                    lemma_wire_injective(ask_asset_info, o_ask_asset_info);
                },
                _ => {
                    assert(self.wire_tag()[0] == other.wire_tag()[0]);
                    assert(self.wire_tag()[1] == other.wire_tag()[1]);
                },
            },
            QueryMsg::ReverseSimulation {
                offer_asset_info,
                ask_asset,
            } => match other {
                QueryMsg::ReverseSimulation {
                    offer_asset_info: o_offer_asset_info,
                    ask_asset: o_ask_asset,
                } => {
                    let ks = seq!["offer_asset_info"@, "ask_asset"@];
                    let vs = seq![offer_asset_info.wire(), ask_asset.wire()];
                    let ws = seq![o_offer_asset_info.wire(), o_ask_asset.wire()];
                    lemma_readable(offer_asset_info, o_offer_asset_info);
                    lemma_readable(ask_asset, o_ask_asset);
                    assert forall|i: int|
                        0 <= i < ks.len() implies #[trigger] readable(vs[i], ws[i]) by {
                        if i == 0 {
                        } else if i == 1 {
                        }
                    }
                    assert(members(ks, vs) =~= seq![
                        member("offer_asset_info"@, offer_asset_info.wire()),
                        member("ask_asset"@, ask_asset.wire()),
                    ]);
                    assert(members(ks, ws) =~= seq![
                        member("offer_asset_info"@, o_offer_asset_info.wire()),
                        member("ask_asset"@, o_ask_asset.wire()),
                    ]);
                    lemma_object_readable(ks, vs, ws);
                    let bv = object(members(ks, vs));
                    let bw = object(members(ks, ws));
                    lemma_tagged_unique("reverse_simulation"@, bv, bw, r1, r2);
                    let empty = Seq::<char>::empty();
                    assert(bv + empty =~= bv);
                    assert(bw + empty =~= bw);
                    lemma_object_unique(ks, vs, ws, empty, empty);
                    assert(vs[0] == ws[0]);
                    lemma_wire_injective(offer_asset_info, o_offer_asset_info);
                    assert(vs[1] == ws[1]);
                    lemma_wire_injective(ask_asset, o_ask_asset);
                },
                _ => {
                    assert(self.wire_tag()[0] == other.wire_tag()[0]);
                    assert(self.wire_tag()[1] == other.wire_tag()[1]);
                },
            },
        }
    }
}

impl WireValue for QueryMsg {
    proof fn lemma_not_null(&self) {
    }
}

impl WireUnique for PoolResponse {
    open spec fn same(&self, other: &Self) -> bool {
        &&& self.assets.same(&other.assets)
        &&& self.total_share.same(&other.total_share)
    }

    proof fn lemma_wire_shape(&self) {
    }

    proof fn lemma_wire_unique(&self, other: &Self, r1: Seq<char>, r2: Seq<char>) {
        let ks = seq!["assets"@, "total_share"@];
        let vs = seq![self.assets.wire(), self.total_share.wire()];
        let ws = seq![other.assets.wire(), other.total_share.wire()];
        lemma_readable(&self.assets, &other.assets);
        lemma_readable(&self.total_share, &other.total_share);
        assert forall|i: int|
            0 <= i < ks.len() implies #[trigger] readable(vs[i], ws[i]) by {
            if i == 0 {
            } else if i == 1 {
            }
        }
        assert(members(ks, vs) =~= seq![
            member("assets"@, self.assets.wire()),
            member("total_share"@, self.total_share.wire()),
        ]);
        assert(members(ks, ws) =~= seq![
            member("assets"@, other.assets.wire()),
            member("total_share"@, other.total_share.wire()),
        ]);
        lemma_object_unique(ks, vs, ws, r1, r2);
        assert(vs[0] == ws[0]);
        lemma_wire_injective(&self.assets, &other.assets);
        assert(vs[1] == ws[1]);
        lemma_wire_injective(&self.total_share, &other.total_share);
    }
}

impl WireValue for PoolResponse {
    proof fn lemma_not_null(&self) {
    }
}

impl WireUnique for SimulationResponse {
    open spec fn same(&self, other: &Self) -> bool {
        &&& self.return_amount.same(&other.return_amount)
        &&& self.spread_amount.same(&other.spread_amount)
        &&& self.commission_amount.same(&other.commission_amount)
    }

    proof fn lemma_wire_shape(&self) {
    }

    proof fn lemma_wire_unique(&self, other: &Self, r1: Seq<char>, r2: Seq<char>) {
        let ks = seq!["return_amount"@, "spread_amount"@, "commission_amount"@];
        let vs = seq![
            self.return_amount.wire(),
            self.spread_amount.wire(),
            self.commission_amount.wire(),
        ];
        let ws = seq![
            other.return_amount.wire(),
            other.spread_amount.wire(),
            other.commission_amount.wire(),
        ];
        lemma_readable(&self.return_amount, &other.return_amount);
        lemma_readable(&self.spread_amount, &other.spread_amount);
        lemma_readable(&self.commission_amount, &other.commission_amount);
        assert forall|i: int|
            0 <= i < ks.len() implies #[trigger] readable(vs[i], ws[i]) by {
            if i == 0 {
            } else if i == 1 {
            } else if i == 2 {
            }
        }
        assert(members(ks, vs) =~= seq![
            member("return_amount"@, self.return_amount.wire()),
            member("spread_amount"@, self.spread_amount.wire()),
            member("commission_amount"@, self.commission_amount.wire()),
        ]);
        assert(members(ks, ws) =~= seq![
            member("return_amount"@, other.return_amount.wire()),
            member("spread_amount"@, other.spread_amount.wire()),
            member("commission_amount"@, other.commission_amount.wire()),
        ]);
        lemma_object_unique(ks, vs, ws, r1, r2);
        assert(vs[0] == ws[0]);
        lemma_wire_injective(&self.return_amount, &other.return_amount);
        assert(vs[1] == ws[1]);
        lemma_wire_injective(&self.spread_amount, &other.spread_amount);
        assert(vs[2] == ws[2]);
        lemma_wire_injective(&self.commission_amount, &other.commission_amount);
    }
}

impl WireValue for SimulationResponse {
    proof fn lemma_not_null(&self) {
    }
}

impl WireUnique for ReverseSimulationResponse {
    open spec fn same(&self, other: &Self) -> bool {
        &&& self.offer_amount.same(&other.offer_amount)
        &&& self.spread_amount.same(&other.spread_amount)
        &&& self.commission_amount.same(&other.commission_amount)
    }

    proof fn lemma_wire_shape(&self) {
    }

    proof fn lemma_wire_unique(&self, other: &Self, r1: Seq<char>, r2: Seq<char>) {
        let ks = seq!["offer_amount"@, "spread_amount"@, "commission_amount"@];
        let vs = seq![
            self.offer_amount.wire(),
            self.spread_amount.wire(),
            self.commission_amount.wire(),
        ];
        let ws = seq![
            other.offer_amount.wire(),
            other.spread_amount.wire(),
            other.commission_amount.wire(),
        ];
        lemma_readable(&self.offer_amount, &other.offer_amount);
        lemma_readable(&self.spread_amount, &other.spread_amount);
        lemma_readable(&self.commission_amount, &other.commission_amount);
        assert forall|i: int|
            0 <= i < ks.len() implies #[trigger] readable(vs[i], ws[i]) by {
            if i == 0 {
            } else if i == 1 {
            } else if i == 2 {
            }
        }
        assert(members(ks, vs) =~= seq![
            member("offer_amount"@, self.offer_amount.wire()),
            member("spread_amount"@, self.spread_amount.wire()),
            member("commission_amount"@, self.commission_amount.wire()),
        ]);
        assert(members(ks, ws) =~= seq![
            member("offer_amount"@, other.offer_amount.wire()),
            member("spread_amount"@, other.spread_amount.wire()),
            member("commission_amount"@, other.commission_amount.wire()),
        ]);
        lemma_object_unique(ks, vs, ws, r1, r2);
        assert(vs[0] == ws[0]);
        lemma_wire_injective(&self.offer_amount, &other.offer_amount);
        assert(vs[1] == ws[1]);
        lemma_wire_injective(&self.spread_amount, &other.spread_amount);
        assert(vs[2] == ws[2]);
        lemma_wire_injective(&self.commission_amount, &other.commission_amount);
    }
}

impl WireValue for ReverseSimulationResponse {
    proof fn lemma_not_null(&self) {
    }
}

/// The wire text of every `XYKPoolParams`: a JSON object with one member per field,
/// in declaration order, each holding the text of its own field under that
/// field's name.
pub proof fn lemma_x_y_k_pool_params_text(v: XYKPoolParams)
    ensures
        v.wire() == object(seq![
            member("track_asset_balances"@, v.track_asset_balances.wire()),
            member("pool_unpause_at"@, v.pool_unpause_at.wire()),
        ]),
{
}

/// The wire text of every `FeeShareConfig`: a JSON object with one member per field,
/// in declaration order, each holding the text of its own field under that
/// field's name.
pub proof fn lemma_fee_share_config_text(v: FeeShareConfig)
    ensures
        v.wire() == object(seq![
            member("bps"@, v.bps.wire()),
            member("recipient"@, v.recipient.wire()),
        ]),
{
}

/// The wire text of every `InstantiateMsg`: a JSON object with one member per field,
/// in declaration order, each holding the text of its own field under that
/// field's name.
pub proof fn lemma_instantiate_msg_text(v: InstantiateMsg)
    ensures
        v.wire() == object(seq![
            member("asset_infos"@, v.asset_infos.wire()),
            member("token_code_id"@, v.token_code_id.wire()),
            member("factory_addr"@, v.factory_addr.wire()),
            member("init_params"@, v.init_params.wire()),
            member("pair_type"@, v.pair_type.wire()),
        ]),
{
}

/// The wire text of every `Cw20ReceiveMsg`: a JSON object with one member per field,
/// in declaration order, each holding the text of its own field under that
/// field's name.
pub proof fn lemma_cw20_receive_msg_text(v: Cw20ReceiveMsg)
    ensures
        v.wire() == object(seq![
            member("sender"@, v.sender.wire()),
            member("amount"@, v.amount.wire()),
            member("msg"@, v.msg.wire()),
        ]),
{
}

/// The wire text of every `ExecuteMsg`: an object whose one key is the variant's
/// snake-case name, holding the variant's fields as an object with one member
/// per field, in declaration order, each under its own name (a tuple variant
/// holds the text of its one value).
pub proof fn lemma_execute_msg_text(v: ExecuteMsg)
    ensures
        v matches ExecuteMsg::Receive(x) ==> v.wire() == tagged("receive"@, x.wire()),
        v matches ExecuteMsg::ProvideLiquidity {
            assets,
            slippage_tolerance,
            auto_stake,
            receiver,
            min_lp_to_receive,
        } ==> v.wire() == tagged(
            "provide_liquidity"@,
            object(seq![
                member("assets"@, assets.wire()),
                member("slippage_tolerance"@, slippage_tolerance.wire()),
                member("auto_stake"@, auto_stake.wire()),
                member("receiver"@, receiver.wire()),
                member("min_lp_to_receive"@, min_lp_to_receive.wire()),
            ]),
        ),
        v matches ExecuteMsg::WithdrawLiquidity {
            assets,
            min_assets_to_receive,
        } ==> v.wire() == tagged(
            "withdraw_liquidity"@,
            object(seq![
                member("assets"@, assets.wire()),
                member("min_assets_to_receive"@, min_assets_to_receive.wire()),
            ]),
        ),
        v matches ExecuteMsg::Swap {
            offer_asset,
            ask_asset_info,
            belief_price,
            max_spread,
            to,
        } ==> v.wire() == tagged(
            "swap"@,
            object(seq![
                member("offer_asset"@, offer_asset.wire()),
                member("ask_asset_info"@, ask_asset_info.wire()),
                member("belief_price"@, belief_price.wire()),
                member("max_spread"@, max_spread.wire()),
                member("to"@, to.wire()),
            ]),
        ),
{
}

/// The wire text of every `Cw20HookMsg`: an object whose one key is the variant's
/// snake-case name, holding the variant's fields as an object with one member
/// per field, in declaration order, each under its own name (a tuple variant
/// holds the text of its one value).
pub proof fn lemma_cw20_hook_msg_text(v: Cw20HookMsg)
    ensures
        v matches Cw20HookMsg::Swap {
            ask_asset_info,
            belief_price,
            max_spread,
            to,
        } ==> v.wire() == tagged(
            "swap"@,
            object(seq![
                member("ask_asset_info"@, ask_asset_info.wire()),
                member("belief_price"@, belief_price.wire()),
                member("max_spread"@, max_spread.wire()),
                member("to"@, to.wire()),
            ]),
        ),
        v matches Cw20HookMsg::WithdrawLiquidity {
            assets,
            min_assets_to_receive,
        } ==> v.wire() == tagged(
            "withdraw_liquidity"@,
            object(seq![
                member("assets"@, assets.wire()),
                member("min_assets_to_receive"@, min_assets_to_receive.wire()),
            ]),
        ),
{
}

/// The wire text of every `QueryMsg`: an object whose one key is the variant's
/// snake-case name, holding the variant's fields as an object with one member
/// per field, in declaration order, each under its own name (a tuple variant
/// holds the text of its one value).
pub proof fn lemma_query_msg_text(v: QueryMsg)
    ensures
        v matches QueryMsg::Pair {} ==> v.wire() == tagged("pair"@, object(seq![])),
        v matches QueryMsg::Pool {} ==> v.wire() == tagged("pool"@, object(seq![])),
        v matches QueryMsg::Simulation { offer_asset, ask_asset_info } ==> v.wire() == tagged(
            "simulation"@,
            object(seq![
                member("offer_asset"@, offer_asset.wire()),
                member("ask_asset_info"@, ask_asset_info.wire()),
            ]),
        ),
        v matches QueryMsg::ReverseSimulation {
            offer_asset_info,
            ask_asset,
        } ==> v.wire() == tagged(
            "reverse_simulation"@,
            object(seq![
                member("offer_asset_info"@, offer_asset_info.wire()),
                member("ask_asset"@, ask_asset.wire()),
            ]),
        ),
{
}

/// The wire text of every `PoolResponse`: a JSON object with one member per field,
/// in declaration order, each holding the text of its own field under that
/// field's name.
pub proof fn lemma_pool_response_text(v: PoolResponse)
    ensures
        v.wire() == object(seq![
            member("assets"@, v.assets.wire()),
            member("total_share"@, v.total_share.wire()),
        ]),
{
}

/// The wire text of every `SimulationResponse`: a JSON object with one member per field,
/// in declaration order, each holding the text of its own field under that
/// field's name.
pub proof fn lemma_simulation_response_text(v: SimulationResponse)
    ensures
        v.wire() == object(seq![
            member("return_amount"@, v.return_amount.wire()),
            member("spread_amount"@, v.spread_amount.wire()),
            member("commission_amount"@, v.commission_amount.wire()),
        ]),
{
}

/// The wire text of every `ReverseSimulationResponse`: a JSON object with one member per field,
/// in declaration order, each holding the text of its own field under that
/// field's name.
pub proof fn lemma_reverse_simulation_response_text(v: ReverseSimulationResponse)
    ensures
        v.wire() == object(seq![
            member("offer_amount"@, v.offer_amount.wire()),
            member("spread_amount"@, v.spread_amount.wire()),
            member("commission_amount"@, v.commission_amount.wire()),
        ]),
{
}

} // verus!
