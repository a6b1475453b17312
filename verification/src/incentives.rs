//! Wire types of the incentives contract that downstream consumers drive
//! and query: staking LP tokens, claiming rewards, funding external reward
//! schedules and setting up the pools that receive internal emissions.
use vstd::prelude::*;
use crate::asset::{Asset, AssetInfo};
use crate::primitives::Decimal256;
use crate::unambiguous::{
    lemma_cancel_prefix, lemma_object_readable, lemma_object_unique, lemma_readable,
    lemma_wire_injective, lemma_tag_unique, lemma_tagged_unique, members, quote_free, readable,
    WireUnique, WireValue,
};
use crate::wire::{
    begin_object, end_object, lemma_tagged, member, object, tagged, write_member, write_tag,
    JsonWire,
};

verus! {

/// External incentive schedule input. Schedules align to weekly epochs
/// (Mondays UTC); `duration_periods` is the number of full weeks the
/// schedule spans. Valid range: 1..=25 (1 week to ~6 months).
#[derive(Clone, Debug, PartialEq, Eq)]
pub struct InputSchedule {
    pub reward: Asset,
    pub duration_periods: u64,
}

/// The incentives execute messages that downstream consumers may drive.
#[derive(Clone, Debug, PartialEq, Eq)]
pub enum ExecuteMsg {
    /// Setup generators with their (LP token, allocation point) pairs.
    /// Only the owner or the generator controller can execute this.
    SetupPools { pools: Vec<(String, u128)> },
    /// Update rewards and return them to the caller.
    ClaimRewards { lp_tokens: Vec<String> },
    /// Stake LP tokens, on behalf of `recipient` if set, otherwise on
    /// behalf of the sender. The caller includes one LP coin in the funds.
    Deposit { recipient: Option<String> },
    /// Withdraw LP tokens; `amount` must not exceed the staked amount.
    Withdraw { lp_token: String, amount: u128 },
    /// Set the amount of the internal reward token distributed per second.
    /// Only the owner can execute this.
    SetTokensPerSecond { amount: u128 },
    /// Incentivize a pool with an external reward schedule (native funds
    /// sent along, or a cw20 allowance granted beforehand).
    Incentivize { lp_token: String, schedule: InputSchedule },
    /// `Incentivize` for several pools in one call.
    IncentivizeMany(Vec<(String, InputSchedule)>),
}

/// The incentives queries that UIs and downstream contracts need.
#[derive(Clone, Debug, PartialEq, Eq)]
pub enum QueryMsg {
    /// The LP amount that `user` deposited for `lp_token` (0 if none).
    Deposit { lp_token: String, user: String },
    /// The rewards that `user` can claim for `lp_token`.
    PendingRewards { lp_token: String, user: String },
    /// The reward streams of the pool of `lp_token`.
    RewardInfo { lp_token: String },
    /// The pool of `lp_token`.
    PoolInfo { lp_token: String },
    /// All pools that receive internal emissions, with their alloc points.
    ActivePools {},
}

/// Internal (DAO-funded) reward or external reward with a schedule.
#[derive(Clone, Debug, PartialEq, Eq)]
pub enum RewardType {
    /// Internal (DAO-funded) reward.
    Int(AssetInfo),
    /// External reward; `next_update_ts` is the Unix time when the next
    /// schedule starts.
    Ext { info: AssetInfo, next_update_ts: u64 },
}

/// One reward stream attached to a pool.
#[derive(Clone, Debug, PartialEq, Eq)]
pub struct RewardInfo {
    pub reward: RewardType,
    /// Reward tokens per second across the entire pool.
    pub rps: Decimal256,
    /// Last checkpointed reward index per LP token.
    pub index: Decimal256,
    /// Rewards that accrued before any LP was deposited.
    pub orphaned: Decimal256,
}

/// Answer to `PoolInfo`.
#[derive(Clone, Debug, PartialEq, Eq)]
pub struct PoolInfoResponse {
    /// Total LP tokens staked in this pool.
    pub total_lp: u128,
    /// One entry per active reward stream.
    pub rewards: Vec<RewardInfo>,
    /// Last time reward indexes were updated.
    pub last_update_ts: u64,
}

impl JsonWire for InputSchedule {
    open spec fn wire(&self) -> Seq<char> {
        object(seq![
            member("reward"@, self.reward.wire()),
            member("duration_periods"@, self.duration_periods.wire()),
        ])
    }

    fn write_wire(&self, out: &mut String) {
        let ghost start = out@;
        let ghost mut ms: Seq<Seq<char>> = seq![];
        begin_object(out);
        write_member(out, Ghost(start), Ghost(ms), true, "reward", &self.reward);
        proof {
            ms = ms.push(member("reward"@, self.reward.wire()));
        }
        write_member(
            out,
            Ghost(start),
            Ghost(ms),
            false,
            "duration_periods",
            &self.duration_periods,
        );
        proof {
            ms = ms.push(member("duration_periods"@, self.duration_periods.wire()));
        }
        end_object(out, Ghost(start), Ghost(ms));
        assert(ms =~= seq![
            member("reward"@, self.reward.wire()),
            member("duration_periods"@, self.duration_periods.wire()),
        ]);
        assert(out@ =~= start + self.wire());
    }
}

impl ExecuteMsg {
    /// The name of the variant on the wire.
    pub open spec fn wire_tag(&self) -> Seq<char> {
        match self {
            ExecuteMsg::SetupPools { .. } => "setup_pools"@,
            ExecuteMsg::ClaimRewards { .. } => "claim_rewards"@,
            ExecuteMsg::Deposit { .. } => "deposit"@,
            ExecuteMsg::Withdraw { .. } => "withdraw"@,
            ExecuteMsg::SetTokensPerSecond { .. } => "set_tokens_per_second"@,
            ExecuteMsg::Incentivize { .. } => "incentivize"@,
            ExecuteMsg::IncentivizeMany(..) => "incentivize_many"@,
        }
    }

    /// The data of the variant on the wire.
    pub open spec fn wire_body(&self) -> Seq<char> {
        match self {
            ExecuteMsg::SetupPools { pools } => object(seq![member("pools"@, pools.wire())]),
            ExecuteMsg::ClaimRewards { lp_tokens } => object(seq![
                member("lp_tokens"@, lp_tokens.wire()),
            ]),
            ExecuteMsg::Deposit { recipient } => object(seq![
                member("recipient"@, recipient.wire()),
            ]),
            ExecuteMsg::Withdraw { lp_token, amount } => object(seq![
                member("lp_token"@, lp_token.wire()),
                member("amount"@, amount.wire()),
            ]),
            ExecuteMsg::SetTokensPerSecond { amount } => object(seq![
                member("amount"@, amount.wire()),
            ]),
            ExecuteMsg::Incentivize { lp_token, schedule } => object(seq![
                member("lp_token"@, lp_token.wire()),
                member("schedule"@, schedule.wire()),
            ]),
            ExecuteMsg::IncentivizeMany(x) => x.wire(),
        }
    }
}

impl JsonWire for ExecuteMsg {
    open spec fn wire(&self) -> Seq<char> {
        tagged(self.wire_tag(), self.wire_body())
    }

    fn write_wire(&self, out: &mut String) {
        let ghost start = out@;
        match self {
            ExecuteMsg::SetupPools { pools } => {
                write_tag(out, "setup_pools");
                let ghost inner = out@;
                let ghost mut ms: Seq<Seq<char>> = seq![];
                begin_object(out);
                write_member(out, Ghost(inner), Ghost(ms), true, "pools", pools);
                proof {
                    ms = ms.push(member("pools"@, pools.wire()));
                }
                end_object(out, Ghost(inner), Ghost(ms));
                assert(ms =~= seq![member("pools"@, pools.wire())]);
                out.push('}');
                proof {
                    lemma_tagged("setup_pools"@, object(seq![member("pools"@, pools.wire())]));
                }
            },
            ExecuteMsg::ClaimRewards { lp_tokens } => {
                write_tag(out, "claim_rewards");
                let ghost inner = out@;
                let ghost mut ms: Seq<Seq<char>> = seq![];
                begin_object(out);
                write_member(out, Ghost(inner), Ghost(ms), true, "lp_tokens", lp_tokens);
                proof {
                    ms = ms.push(member("lp_tokens"@, lp_tokens.wire()));
                }
                end_object(out, Ghost(inner), Ghost(ms));
                assert(ms =~= seq![member("lp_tokens"@, lp_tokens.wire())]);
                out.push('}');
                proof {
                    lemma_tagged(
                        "claim_rewards"@,
                        object(seq![member("lp_tokens"@, lp_tokens.wire())]),
                    );
                }
            },
            ExecuteMsg::Deposit { recipient } => {
                write_tag(out, "deposit");
                let ghost inner = out@;
                let ghost mut ms: Seq<Seq<char>> = seq![];
                begin_object(out);
                write_member(out, Ghost(inner), Ghost(ms), true, "recipient", recipient);
                proof {
                    ms = ms.push(member("recipient"@, recipient.wire()));
                }
                end_object(out, Ghost(inner), Ghost(ms));
                assert(ms =~= seq![member("recipient"@, recipient.wire())]);
                out.push('}');
                proof {
                    lemma_tagged("deposit"@, object(seq![member("recipient"@, recipient.wire())]));
                }
            },
            ExecuteMsg::Withdraw { lp_token, amount } => {
                write_tag(out, "withdraw");
                let ghost inner = out@;
                let ghost mut ms: Seq<Seq<char>> = seq![];
                begin_object(out);
                write_member(out, Ghost(inner), Ghost(ms), true, "lp_token", lp_token);
                proof {
                    ms = ms.push(member("lp_token"@, lp_token.wire()));
                }
                write_member(out, Ghost(inner), Ghost(ms), false, "amount", amount);
                proof {
                    ms = ms.push(member("amount"@, amount.wire()));
                }
                end_object(out, Ghost(inner), Ghost(ms));
                assert(ms =~= seq![
                    member("lp_token"@, lp_token.wire()),
                    member("amount"@, amount.wire()),
                ]);
                out.push('}');
                proof {
                    lemma_tagged(
                        "withdraw"@,
                        object(seq![
                            member("lp_token"@, lp_token.wire()),
                            member("amount"@, amount.wire()),
                        ]),
                    );
                }
            },
            ExecuteMsg::SetTokensPerSecond { amount } => {
                write_tag(out, "set_tokens_per_second");
                let ghost inner = out@;
                let ghost mut ms: Seq<Seq<char>> = seq![];
                begin_object(out);
                write_member(out, Ghost(inner), Ghost(ms), true, "amount", amount);
                proof {
                    ms = ms.push(member("amount"@, amount.wire()));
                }
                end_object(out, Ghost(inner), Ghost(ms));
                assert(ms =~= seq![member("amount"@, amount.wire())]);
                out.push('}');
                proof {
                    lemma_tagged(
                        "set_tokens_per_second"@,
                        object(seq![member("amount"@, amount.wire())]),
                    );
                }
            },
            ExecuteMsg::Incentivize { lp_token, schedule } => {
                write_tag(out, "incentivize");
                let ghost inner = out@;
                let ghost mut ms: Seq<Seq<char>> = seq![];
                begin_object(out);
                write_member(out, Ghost(inner), Ghost(ms), true, "lp_token", lp_token);
                proof {
                    ms = ms.push(member("lp_token"@, lp_token.wire()));
                }
                write_member(out, Ghost(inner), Ghost(ms), false, "schedule", schedule);
                proof {
                    ms = ms.push(member("schedule"@, schedule.wire()));
                }
                end_object(out, Ghost(inner), Ghost(ms));
                assert(ms =~= seq![
                    member("lp_token"@, lp_token.wire()),
                    member("schedule"@, schedule.wire()),
                ]);
                out.push('}');
                proof {
                    lemma_tagged(
                        "incentivize"@,
                        object(seq![
                            member("lp_token"@, lp_token.wire()),
                            member("schedule"@, schedule.wire()),
                        ]),
                    );
                }
            },
            ExecuteMsg::IncentivizeMany(x) => {
                write_tag(out, "incentivize_many");
                x.write_wire(out);
                out.push('}');
                proof {
                    lemma_tagged("incentivize_many"@, x.wire());
                }
            },
        }
        assert(out@ =~= start + self.wire());
    }
}

impl QueryMsg {
    /// The name of the variant on the wire.
    pub open spec fn wire_tag(&self) -> Seq<char> {
        match self {
            QueryMsg::Deposit { .. } => "deposit"@,
            QueryMsg::PendingRewards { .. } => "pending_rewards"@,
            QueryMsg::RewardInfo { .. } => "reward_info"@,
            QueryMsg::PoolInfo { .. } => "pool_info"@,
            QueryMsg::ActivePools { .. } => "active_pools"@,
        }
    }

    /// The data of the variant on the wire.
    pub open spec fn wire_body(&self) -> Seq<char> {
        match self {
            QueryMsg::Deposit { lp_token, user } => object(seq![
                member("lp_token"@, lp_token.wire()),
                member("user"@, user.wire()),
            ]),
            QueryMsg::PendingRewards { lp_token, user } => object(seq![
                member("lp_token"@, lp_token.wire()),
                member("user"@, user.wire()),
            ]),
            QueryMsg::RewardInfo { lp_token } => object(seq![member("lp_token"@, lp_token.wire())]),
            QueryMsg::PoolInfo { lp_token } => object(seq![member("lp_token"@, lp_token.wire())]),
            QueryMsg::ActivePools {} => object(seq![]),
        }
    }
}

impl JsonWire for QueryMsg {
    open spec fn wire(&self) -> Seq<char> {
        tagged(self.wire_tag(), self.wire_body())
    }

    fn write_wire(&self, out: &mut String) {
        let ghost start = out@;
        match self {
            QueryMsg::Deposit { lp_token, user } => {
                write_tag(out, "deposit");
                let ghost inner = out@;
                let ghost mut ms: Seq<Seq<char>> = seq![];
                begin_object(out);
                write_member(out, Ghost(inner), Ghost(ms), true, "lp_token", lp_token);
                proof {
                    ms = ms.push(member("lp_token"@, lp_token.wire()));
                }
                write_member(out, Ghost(inner), Ghost(ms), false, "user", user);
                proof {
                    ms = ms.push(member("user"@, user.wire()));
                }
                end_object(out, Ghost(inner), Ghost(ms));
                assert(ms =~= seq![
                    member("lp_token"@, lp_token.wire()),
                    member("user"@, user.wire()),
                ]);
                out.push('}');
                proof {
                    lemma_tagged(
                        "deposit"@,
                        object(seq![
                            member("lp_token"@, lp_token.wire()),
                            member("user"@, user.wire()),
                        ]),
                    );
                }
            },
            QueryMsg::PendingRewards { lp_token, user } => {
                write_tag(out, "pending_rewards");
                let ghost inner = out@;
                let ghost mut ms: Seq<Seq<char>> = seq![];
                begin_object(out);
                write_member(out, Ghost(inner), Ghost(ms), true, "lp_token", lp_token);
                proof {
                    ms = ms.push(member("lp_token"@, lp_token.wire()));
                }
                write_member(out, Ghost(inner), Ghost(ms), false, "user", user);
                proof {
                    ms = ms.push(member("user"@, user.wire()));
                }
                end_object(out, Ghost(inner), Ghost(ms));
                assert(ms =~= seq![
                    member("lp_token"@, lp_token.wire()),
                    member("user"@, user.wire()),
                ]);
                out.push('}');
                proof {
                    lemma_tagged(
                        "pending_rewards"@,
                        object(seq![
                            member("lp_token"@, lp_token.wire()),
                            member("user"@, user.wire()),
                        ]),
                    );
                }
            },
            QueryMsg::RewardInfo { lp_token } => {
                write_tag(out, "reward_info");
                let ghost inner = out@;
                let ghost mut ms: Seq<Seq<char>> = seq![];
                begin_object(out);
                write_member(out, Ghost(inner), Ghost(ms), true, "lp_token", lp_token);
                proof {
                    ms = ms.push(member("lp_token"@, lp_token.wire()));
                }
                end_object(out, Ghost(inner), Ghost(ms));
                assert(ms =~= seq![member("lp_token"@, lp_token.wire())]);
                out.push('}');
                proof {
                    lemma_tagged(
                        "reward_info"@,
                        object(seq![member("lp_token"@, lp_token.wire())]),
                    );
                }
            },
            QueryMsg::PoolInfo { lp_token } => {
                write_tag(out, "pool_info");
                let ghost inner = out@;
                let ghost mut ms: Seq<Seq<char>> = seq![];
                begin_object(out);
                write_member(out, Ghost(inner), Ghost(ms), true, "lp_token", lp_token);
                proof {
                    ms = ms.push(member("lp_token"@, lp_token.wire()));
                }
                end_object(out, Ghost(inner), Ghost(ms));
                assert(ms =~= seq![member("lp_token"@, lp_token.wire())]);
                out.push('}');
                proof {
                    lemma_tagged("pool_info"@, object(seq![member("lp_token"@, lp_token.wire())]));
                }
            },
            QueryMsg::ActivePools {} => {
                write_tag(out, "active_pools");
                let ghost inner = out@;
                let ghost mut ms: Seq<Seq<char>> = seq![];
                begin_object(out);
                end_object(out, Ghost(inner), Ghost(ms));
                assert(ms =~= seq![]);
                out.push('}');
                proof {
                    lemma_tagged("active_pools"@, object(seq![]));
                }
            },
        }
        assert(out@ =~= start + self.wire());
    }
}

impl RewardType {
    /// The name of the variant on the wire.
    pub open spec fn wire_tag(&self) -> Seq<char> {
        match self {
            RewardType::Int(..) => "int"@,
            RewardType::Ext { .. } => "ext"@,
        }
    }

    /// The data of the variant on the wire.
    pub open spec fn wire_body(&self) -> Seq<char> {
        match self {
            RewardType::Int(x) => x.wire(),
            RewardType::Ext { info, next_update_ts } => object(seq![
                member("info"@, info.wire()),
                member("next_update_ts"@, next_update_ts.wire()),
            ]),
        }
    }
}

impl JsonWire for RewardType {
    open spec fn wire(&self) -> Seq<char> {
        tagged(self.wire_tag(), self.wire_body())
    }

    fn write_wire(&self, out: &mut String) {
        let ghost start = out@;
        match self {
            RewardType::Int(x) => {
                write_tag(out, "int");
                x.write_wire(out);
                out.push('}');
                proof {
                    lemma_tagged("int"@, x.wire());
                }
            },
            RewardType::Ext { info, next_update_ts } => {
                write_tag(out, "ext");
                let ghost inner = out@;
                let ghost mut ms: Seq<Seq<char>> = seq![];
                begin_object(out);
                write_member(out, Ghost(inner), Ghost(ms), true, "info", info);
                proof {
                    ms = ms.push(member("info"@, info.wire()));
                }
                write_member(out, Ghost(inner), Ghost(ms), false, "next_update_ts", next_update_ts);
                proof {
                    ms = ms.push(member("next_update_ts"@, next_update_ts.wire()));
                }
                end_object(out, Ghost(inner), Ghost(ms));
                assert(ms =~= seq![
                    member("info"@, info.wire()),
                    member("next_update_ts"@, next_update_ts.wire()),
                ]);
                out.push('}');
                proof {
                    lemma_tagged(
                        "ext"@,
                        object(seq![
                            member("info"@, info.wire()),
                            member("next_update_ts"@, next_update_ts.wire()),
                        ]),
                    );
                }
            },
        }
        assert(out@ =~= start + self.wire());
    }
}

impl JsonWire for RewardInfo {
    open spec fn wire(&self) -> Seq<char> {
        object(seq![
            member("reward"@, self.reward.wire()),
            member("rps"@, self.rps.wire()),
            member("index"@, self.index.wire()),
            member("orphaned"@, self.orphaned.wire()),
        ])
    }

    fn write_wire(&self, out: &mut String) {
        let ghost start = out@;
        let ghost mut ms: Seq<Seq<char>> = seq![];
        begin_object(out);
        write_member(out, Ghost(start), Ghost(ms), true, "reward", &self.reward);
        proof {
            ms = ms.push(member("reward"@, self.reward.wire()));
        }
        write_member(out, Ghost(start), Ghost(ms), false, "rps", &self.rps);
        proof {
            ms = ms.push(member("rps"@, self.rps.wire()));
        }
        write_member(out, Ghost(start), Ghost(ms), false, "index", &self.index);
        proof {
            ms = ms.push(member("index"@, self.index.wire()));
        }
        write_member(out, Ghost(start), Ghost(ms), false, "orphaned", &self.orphaned);
        proof {
            ms = ms.push(member("orphaned"@, self.orphaned.wire()));
        }
        end_object(out, Ghost(start), Ghost(ms));
        assert(ms =~= seq![
            member("reward"@, self.reward.wire()),
            member("rps"@, self.rps.wire()),
            member("index"@, self.index.wire()),
            member("orphaned"@, self.orphaned.wire()),
        ]);
        assert(out@ =~= start + self.wire());
    }
}

impl JsonWire for PoolInfoResponse {
    open spec fn wire(&self) -> Seq<char> {
        object(seq![
            member("total_lp"@, self.total_lp.wire()),
            member("rewards"@, self.rewards.wire()),
            member("last_update_ts"@, self.last_update_ts.wire()),
        ])
    }

    fn write_wire(&self, out: &mut String) {
        let ghost start = out@;
        let ghost mut ms: Seq<Seq<char>> = seq![];
        begin_object(out);
        write_member(out, Ghost(start), Ghost(ms), true, "total_lp", &self.total_lp);
        proof {
            ms = ms.push(member("total_lp"@, self.total_lp.wire()));
        }
        write_member(out, Ghost(start), Ghost(ms), false, "rewards", &self.rewards);
        proof {
            ms = ms.push(member("rewards"@, self.rewards.wire()));
        }
        write_member(out, Ghost(start), Ghost(ms), false, "last_update_ts", &self.last_update_ts);
        proof {
            ms = ms.push(member("last_update_ts"@, self.last_update_ts.wire()));
        }
        end_object(out, Ghost(start), Ghost(ms));
        assert(ms =~= seq![
            member("total_lp"@, self.total_lp.wire()),
            member("rewards"@, self.rewards.wire()),
            member("last_update_ts"@, self.last_update_ts.wire()),
        ]);
        assert(out@ =~= start + self.wire());
    }
}

impl WireUnique for InputSchedule {
    open spec fn same(&self, other: &Self) -> bool {
        &&& self.reward.same(&other.reward)
        &&& self.duration_periods.same(&other.duration_periods)
    }

    proof fn lemma_wire_shape(&self) {
    }

    proof fn lemma_wire_unique(&self, other: &Self, r1: Seq<char>, r2: Seq<char>) {
        let ks = seq!["reward"@, "duration_periods"@];
        let vs = seq![self.reward.wire(), self.duration_periods.wire()];
        let ws = seq![other.reward.wire(), other.duration_periods.wire()];
        lemma_readable(&self.reward, &other.reward);
        lemma_readable(&self.duration_periods, &other.duration_periods);
        assert forall|i: int|
            0 <= i < ks.len() implies #[trigger] readable(vs[i], ws[i]) by {
            if i == 0 {
            } else if i == 1 {
            }
        }
        assert(members(ks, vs) =~= seq![
            member("reward"@, self.reward.wire()),
            member("duration_periods"@, self.duration_periods.wire()),
        ]);
        assert(members(ks, ws) =~= seq![
            member("reward"@, other.reward.wire()),
            member("duration_periods"@, other.duration_periods.wire()),
        ]);
        lemma_object_unique(ks, vs, ws, r1, r2);
        assert(vs[0] == ws[0]);
        lemma_wire_injective(&self.reward, &other.reward);
        assert(vs[1] == ws[1]);
        lemma_wire_injective(&self.duration_periods, &other.duration_periods);
    }
}

impl WireValue for InputSchedule {
    proof fn lemma_not_null(&self) {
    }
}

impl WireUnique for ExecuteMsg {
    open spec fn same(&self, other: &Self) -> bool {
        match (self, other) {
            (ExecuteMsg::SetupPools { pools }, ExecuteMsg::SetupPools { pools: o_pools }) => {
                &&& pools.same(o_pools)
            },
            (
                ExecuteMsg::ClaimRewards { lp_tokens },
                ExecuteMsg::ClaimRewards { lp_tokens: o_lp_tokens },
            ) => {
                &&& lp_tokens.same(o_lp_tokens)
            },
            (ExecuteMsg::Deposit { recipient }, ExecuteMsg::Deposit { recipient: o_recipient }) => {
                &&& recipient.same(o_recipient)
            },
            (ExecuteMsg::Withdraw { lp_token, amount }, ExecuteMsg::Withdraw {
                lp_token: o_lp_token,
                amount: o_amount,
            }) => {
                &&& lp_token.same(o_lp_token)
                &&& amount.same(o_amount)
            },
            (
                ExecuteMsg::SetTokensPerSecond { amount },
                ExecuteMsg::SetTokensPerSecond { amount: o_amount },
            ) => {
                &&& amount.same(o_amount)
            },
            (ExecuteMsg::Incentivize { lp_token, schedule }, ExecuteMsg::Incentivize {
                lp_token: o_lp_token,
                schedule: o_schedule,
            }) => {
                &&& lp_token.same(o_lp_token)
                &&& schedule.same(o_schedule)
            },
            (ExecuteMsg::IncentivizeMany(x), ExecuteMsg::IncentivizeMany(o_x)) => x.same(o_x),
            _ => false,
        }
    }

    proof fn lemma_wire_shape(&self) {
    }

    #[verifier::spinoff_prover]
    #[verifier::rlimit(40)]
    proof fn lemma_wire_unique(&self, other: &Self, r1: Seq<char>, r2: Seq<char>) {
        reveal_strlit("setup_pools");
        reveal_strlit("claim_rewards");
        reveal_strlit("deposit");
        reveal_strlit("withdraw");
        reveal_strlit("set_tokens_per_second");
        reveal_strlit("incentivize");
        reveal_strlit("incentivize_many");
        assert(self.wire() == tagged(self.wire_tag(), self.wire_body()));
        assert(other.wire() == tagged(other.wire_tag(), other.wire_body()));
        assert(quote_free(self.wire_tag()));
        assert(quote_free(other.wire_tag()));
        lemma_tag_unique(
            self.wire_tag(),
            self.wire_body(),
            other.wire_tag(),
            other.wire_body(),
            r1,
            r2,
        );
        match self {
            ExecuteMsg::SetupPools { pools } => match other {
                ExecuteMsg::SetupPools { pools: o_pools } => {
                    let ks = seq!["pools"@];
                    let vs = seq![pools.wire()];
                    let ws = seq![o_pools.wire()];
                    lemma_readable(pools, o_pools);
                    assert forall|i: int|
                        0 <= i < ks.len() implies #[trigger] readable(vs[i], ws[i]) by {
                        if i == 0 {
                        }
                    }
                    assert(members(ks, vs) =~= seq![member("pools"@, pools.wire())]);
                    assert(members(ks, ws) =~= seq![member("pools"@, o_pools.wire())]);
                    lemma_object_readable(ks, vs, ws);
                    let bv = object(members(ks, vs));
                    let bw = object(members(ks, ws));
                    lemma_tagged_unique("setup_pools"@, bv, bw, r1, r2);
                    let empty = Seq::<char>::empty();
                    assert(bv + empty =~= bv);
                    assert(bw + empty =~= bw);
                    lemma_object_unique(ks, vs, ws, empty, empty);
                    assert(vs[0] == ws[0]);
                    lemma_wire_injective(pools, o_pools);
                },
                _ => {
                    assert(self.wire_tag()[0] == other.wire_tag()[0]);
                    assert(self.wire_tag()[1] == other.wire_tag()[1]);
                },
            },
            ExecuteMsg::ClaimRewards { lp_tokens } => match other {
                ExecuteMsg::ClaimRewards { lp_tokens: o_lp_tokens } => {
                    let ks = seq!["lp_tokens"@];
                    let vs = seq![lp_tokens.wire()];
                    let ws = seq![o_lp_tokens.wire()];
                    lemma_readable(lp_tokens, o_lp_tokens);
                    assert forall|i: int|
                        0 <= i < ks.len() implies #[trigger] readable(vs[i], ws[i]) by {
                        if i == 0 {
                        }
                    }
                    assert(members(ks, vs) =~= seq![member("lp_tokens"@, lp_tokens.wire())]);
                    assert(members(ks, ws) =~= seq![member("lp_tokens"@, o_lp_tokens.wire())]);
                    lemma_object_readable(ks, vs, ws);
                    let bv = object(members(ks, vs));
                    let bw = object(members(ks, ws));
                    lemma_tagged_unique("claim_rewards"@, bv, bw, r1, r2);
                    let empty = Seq::<char>::empty();
                    assert(bv + empty =~= bv);
                    assert(bw + empty =~= bw);
                    lemma_object_unique(ks, vs, ws, empty, empty);
                    assert(vs[0] == ws[0]);
                    lemma_wire_injective(lp_tokens, o_lp_tokens);
                },
                _ => {
                    assert(self.wire_tag()[0] == other.wire_tag()[0]);
                    assert(self.wire_tag()[1] == other.wire_tag()[1]);
                },
            },
            ExecuteMsg::Deposit { recipient } => match other {
                ExecuteMsg::Deposit { recipient: o_recipient } => {
                    let ks = seq!["recipient"@];
                    let vs = seq![recipient.wire()];
                    let ws = seq![o_recipient.wire()];
                    lemma_readable(recipient, o_recipient);
                    assert forall|i: int|
                        0 <= i < ks.len() implies #[trigger] readable(vs[i], ws[i]) by {
                        if i == 0 {
                        }
                    }
                    assert(members(ks, vs) =~= seq![member("recipient"@, recipient.wire())]);
                    assert(members(ks, ws) =~= seq![member("recipient"@, o_recipient.wire())]);
                    lemma_object_readable(ks, vs, ws);
                    let bv = object(members(ks, vs));
                    let bw = object(members(ks, ws));
                    lemma_tagged_unique("deposit"@, bv, bw, r1, r2);
                    let empty = Seq::<char>::empty();
                    assert(bv + empty =~= bv);
                    assert(bw + empty =~= bw);
                    lemma_object_unique(ks, vs, ws, empty, empty);
                    assert(vs[0] == ws[0]);
                    lemma_wire_injective(recipient, o_recipient);
                },
                _ => {
                    assert(self.wire_tag()[0] == other.wire_tag()[0]);
                    assert(self.wire_tag()[1] == other.wire_tag()[1]);
                },
            },
            ExecuteMsg::Withdraw { lp_token, amount } => match other {
                ExecuteMsg::Withdraw {
                    lp_token: o_lp_token,
                    amount: o_amount,
                } => {
                    let ks = seq!["lp_token"@, "amount"@];
                    let vs = seq![lp_token.wire(), amount.wire()];
                    let ws = seq![o_lp_token.wire(), o_amount.wire()];
                    lemma_readable(lp_token, o_lp_token);
                    lemma_readable(amount, o_amount);
                    assert forall|i: int|
                        0 <= i < ks.len() implies #[trigger] readable(vs[i], ws[i]) by {
                        if i == 0 {
                        } else if i == 1 {
                        }
                    }
                    assert(members(ks, vs) =~= seq![
                        member("lp_token"@, lp_token.wire()),
                        member("amount"@, amount.wire()),
                    ]);
                    assert(members(ks, ws) =~= seq![
                        member("lp_token"@, o_lp_token.wire()),
                        member("amount"@, o_amount.wire()),
                    ]);
                    lemma_object_readable(ks, vs, ws);
                    let bv = object(members(ks, vs));
                    let bw = object(members(ks, ws));
                    lemma_tagged_unique("withdraw"@, bv, bw, r1, r2);
                    let empty = Seq::<char>::empty();
                    assert(bv + empty =~= bv);
                    assert(bw + empty =~= bw);
                    lemma_object_unique(ks, vs, ws, empty, empty);
                    assert(vs[0] == ws[0]);
                    lemma_wire_injective(lp_token, o_lp_token);
                    assert(vs[1] == ws[1]);
                    lemma_wire_injective(amount, o_amount);
                },
                _ => {
                    assert(self.wire_tag()[0] == other.wire_tag()[0]);
                    assert(self.wire_tag()[1] == other.wire_tag()[1]);
                },
            },
            ExecuteMsg::SetTokensPerSecond { amount } => match other {
                ExecuteMsg::SetTokensPerSecond { amount: o_amount } => {
                    let ks = seq!["amount"@];
                    let vs = seq![amount.wire()];
                    let ws = seq![o_amount.wire()];
                    lemma_readable(amount, o_amount);
                    assert forall|i: int|
                        0 <= i < ks.len() implies #[trigger] readable(vs[i], ws[i]) by {
                        if i == 0 {
                        }
                    }
                    assert(members(ks, vs) =~= seq![member("amount"@, amount.wire())]);
                    assert(members(ks, ws) =~= seq![member("amount"@, o_amount.wire())]);
                    lemma_object_readable(ks, vs, ws);
                    let bv = object(members(ks, vs));
                    let bw = object(members(ks, ws));
                    lemma_tagged_unique("set_tokens_per_second"@, bv, bw, r1, r2);
                    let empty = Seq::<char>::empty();
                    assert(bv + empty =~= bv);
                    assert(bw + empty =~= bw);
                    lemma_object_unique(ks, vs, ws, empty, empty);
                    assert(vs[0] == ws[0]);
                    lemma_wire_injective(amount, o_amount);
                },
                _ => {
                    assert(self.wire_tag()[0] == other.wire_tag()[0]);
                    assert(self.wire_tag()[1] == other.wire_tag()[1]);
                },
            },
            ExecuteMsg::Incentivize { lp_token, schedule } => match other {
                ExecuteMsg::Incentivize {
                    lp_token: o_lp_token,
                    schedule: o_schedule,
                } => {
                    let ks = seq!["lp_token"@, "schedule"@];
                    let vs = seq![lp_token.wire(), schedule.wire()];
                    let ws = seq![o_lp_token.wire(), o_schedule.wire()];
                    lemma_readable(lp_token, o_lp_token);
                    lemma_readable(schedule, o_schedule);
                    assert forall|i: int|
                        0 <= i < ks.len() implies #[trigger] readable(vs[i], ws[i]) by {
                        if i == 0 {
                        } else if i == 1 {
                        }
                    }
                    assert(members(ks, vs) =~= seq![
                        member("lp_token"@, lp_token.wire()),
                        member("schedule"@, schedule.wire()),
                    ]);
                    assert(members(ks, ws) =~= seq![
                        member("lp_token"@, o_lp_token.wire()),
                        member("schedule"@, o_schedule.wire()),
                    ]);
                    lemma_object_readable(ks, vs, ws);
                    let bv = object(members(ks, vs));
                    let bw = object(members(ks, ws));
                    lemma_tagged_unique("incentivize"@, bv, bw, r1, r2);
                    let empty = Seq::<char>::empty();
                    assert(bv + empty =~= bv);
                    assert(bw + empty =~= bw);
                    lemma_object_unique(ks, vs, ws, empty, empty);
                    assert(vs[0] == ws[0]);
                    lemma_wire_injective(lp_token, o_lp_token);
                    assert(vs[1] == ws[1]);
                    lemma_wire_injective(schedule, o_schedule);
                },
                _ => {
                    assert(self.wire_tag()[0] == other.wire_tag()[0]);
                    assert(self.wire_tag()[1] == other.wire_tag()[1]);
                },
            },
            ExecuteMsg::IncentivizeMany(x) => match other {
                ExecuteMsg::IncentivizeMany(o_x) => {
                    lemma_readable(x, o_x);
                    lemma_tagged_unique("incentivize_many"@, x.wire(), o_x.wire(), r1, r2);
                    lemma_wire_injective(x, o_x);
                },
                _ => {
                    assert(self.wire_tag()[0] == other.wire_tag()[0]);
                    assert(self.wire_tag()[1] == other.wire_tag()[1]);
                },
            },
        }
    }
}

impl WireValue for ExecuteMsg {
    proof fn lemma_not_null(&self) {
    }
}

impl WireUnique for QueryMsg {
    open spec fn same(&self, other: &Self) -> bool {
        match (self, other) {
            (
                QueryMsg::Deposit { lp_token, user },
                QueryMsg::Deposit { lp_token: o_lp_token, user: o_user },
            ) => {
                &&& lp_token.same(o_lp_token)
                &&& user.same(o_user)
            },
            (QueryMsg::PendingRewards { lp_token, user }, QueryMsg::PendingRewards {
                lp_token: o_lp_token,
                user: o_user,
            }) => {
                &&& lp_token.same(o_lp_token)
                &&& user.same(o_user)
            },
            (QueryMsg::RewardInfo { lp_token }, QueryMsg::RewardInfo { lp_token: o_lp_token }) => {
                &&& lp_token.same(o_lp_token)
            },
            (QueryMsg::PoolInfo { lp_token }, QueryMsg::PoolInfo { lp_token: o_lp_token }) => {
                &&& lp_token.same(o_lp_token)
            },
            (QueryMsg::ActivePools {}, QueryMsg::ActivePools {}) => true,
            _ => false,
        }
    }

    proof fn lemma_wire_shape(&self) {
    }

    #[verifier::spinoff_prover]
    #[verifier::rlimit(40)]
    proof fn lemma_wire_unique(&self, other: &Self, r1: Seq<char>, r2: Seq<char>) {
        reveal_strlit("deposit");
        reveal_strlit("pending_rewards");
        reveal_strlit("reward_info");
        reveal_strlit("pool_info");
        reveal_strlit("active_pools");
        assert(self.wire() == tagged(self.wire_tag(), self.wire_body()));
        assert(other.wire() == tagged(other.wire_tag(), other.wire_body()));
        assert(quote_free(self.wire_tag()));
        assert(quote_free(other.wire_tag()));
        lemma_tag_unique(
            self.wire_tag(),
            self.wire_body(),
            other.wire_tag(),
            other.wire_body(),
            r1,
            r2,
        );
        match self {
            QueryMsg::Deposit { lp_token, user } => match other {
                QueryMsg::Deposit {
                    lp_token: o_lp_token,
                    user: o_user,
                } => {
                    let ks = seq!["lp_token"@, "user"@];
                    let vs = seq![lp_token.wire(), user.wire()];
                    let ws = seq![o_lp_token.wire(), o_user.wire()];
                    lemma_readable(lp_token, o_lp_token);
                    lemma_readable(user, o_user);
                    assert forall|i: int|
                        0 <= i < ks.len() implies #[trigger] readable(vs[i], ws[i]) by {
                        if i == 0 {
                        } else if i == 1 {
                        }
                    }
                    assert(members(ks, vs) =~= seq![
                        member("lp_token"@, lp_token.wire()),
                        member("user"@, user.wire()),
                    ]);
                    assert(members(ks, ws) =~= seq![
                        member("lp_token"@, o_lp_token.wire()),
                        member("user"@, o_user.wire()),
                    ]);
                    lemma_object_readable(ks, vs, ws);
                    let bv = object(members(ks, vs));
                    let bw = object(members(ks, ws));
                    lemma_tagged_unique("deposit"@, bv, bw, r1, r2);
                    let empty = Seq::<char>::empty();
                    assert(bv + empty =~= bv);
                    assert(bw + empty =~= bw);
                    lemma_object_unique(ks, vs, ws, empty, empty);
                    assert(vs[0] == ws[0]);
                    lemma_wire_injective(lp_token, o_lp_token);
                    assert(vs[1] == ws[1]);
                    lemma_wire_injective(user, o_user);
                },
                _ => {
                    assert(self.wire_tag()[0] == other.wire_tag()[0]);
                    assert(self.wire_tag()[1] == other.wire_tag()[1]);
                },
            },
            QueryMsg::PendingRewards { lp_token, user } => match other {
                QueryMsg::PendingRewards {
                    lp_token: o_lp_token,
                    user: o_user,
                } => {
                    let ks = seq!["lp_token"@, "user"@];
                    let vs = seq![lp_token.wire(), user.wire()];
                    let ws = seq![o_lp_token.wire(), o_user.wire()];
                    lemma_readable(lp_token, o_lp_token);
                    lemma_readable(user, o_user);
                    assert forall|i: int|
                        0 <= i < ks.len() implies #[trigger] readable(vs[i], ws[i]) by {
                        if i == 0 {
                        } else if i == 1 {
                        }
                    }
                    assert(members(ks, vs) =~= seq![
                        member("lp_token"@, lp_token.wire()),
                        member("user"@, user.wire()),
                    ]);
                    assert(members(ks, ws) =~= seq![
                        member("lp_token"@, o_lp_token.wire()),
                        member("user"@, o_user.wire()),
                    ]);
                    lemma_object_readable(ks, vs, ws);
                    let bv = object(members(ks, vs));
                    let bw = object(members(ks, ws));
                    lemma_tagged_unique("pending_rewards"@, bv, bw, r1, r2);
                    let empty = Seq::<char>::empty();
                    assert(bv + empty =~= bv);
                    assert(bw + empty =~= bw);
                    lemma_object_unique(ks, vs, ws, empty, empty);
                    assert(vs[0] == ws[0]);
                    lemma_wire_injective(lp_token, o_lp_token);
                    assert(vs[1] == ws[1]);
                    lemma_wire_injective(user, o_user);
                },
                _ => {
                    assert(self.wire_tag()[0] == other.wire_tag()[0]);
                    assert(self.wire_tag()[1] == other.wire_tag()[1]);
                },
            },
            QueryMsg::RewardInfo { lp_token } => match other {
                QueryMsg::RewardInfo { lp_token: o_lp_token } => {
                    let ks = seq!["lp_token"@];
                    let vs = seq![lp_token.wire()];
                    let ws = seq![o_lp_token.wire()];
                    lemma_readable(lp_token, o_lp_token);
                    assert forall|i: int|
                        0 <= i < ks.len() implies #[trigger] readable(vs[i], ws[i]) by {
                        if i == 0 {
                        }
                    }
                    assert(members(ks, vs) =~= seq![member("lp_token"@, lp_token.wire())]);
                    assert(members(ks, ws) =~= seq![member("lp_token"@, o_lp_token.wire())]);
                    lemma_object_readable(ks, vs, ws);
                    let bv = object(members(ks, vs));
                    let bw = object(members(ks, ws));
                    lemma_tagged_unique("reward_info"@, bv, bw, r1, r2);
                    let empty = Seq::<char>::empty();
                    assert(bv + empty =~= bv);
                    assert(bw + empty =~= bw);
                    lemma_object_unique(ks, vs, ws, empty, empty);
                    assert(vs[0] == ws[0]);
                    lemma_wire_injective(lp_token, o_lp_token);
                },
                _ => {
                    assert(self.wire_tag()[0] == other.wire_tag()[0]);
                    assert(self.wire_tag()[1] == other.wire_tag()[1]);
                },
            },
            QueryMsg::PoolInfo { lp_token } => match other {
                QueryMsg::PoolInfo { lp_token: o_lp_token } => {
                    let ks = seq!["lp_token"@];
                    let vs = seq![lp_token.wire()];
                    let ws = seq![o_lp_token.wire()];
                    lemma_readable(lp_token, o_lp_token);
                    assert forall|i: int|
                        0 <= i < ks.len() implies #[trigger] readable(vs[i], ws[i]) by {
                        if i == 0 {
                        }
                    }
                    assert(members(ks, vs) =~= seq![member("lp_token"@, lp_token.wire())]);
                    assert(members(ks, ws) =~= seq![member("lp_token"@, o_lp_token.wire())]);
                    lemma_object_readable(ks, vs, ws);
                    let bv = object(members(ks, vs));
                    let bw = object(members(ks, ws));
                    lemma_tagged_unique("pool_info"@, bv, bw, r1, r2);
                    let empty = Seq::<char>::empty();
                    assert(bv + empty =~= bv);
                    assert(bw + empty =~= bw);
                    lemma_object_unique(ks, vs, ws, empty, empty);
                    assert(vs[0] == ws[0]);
                    lemma_wire_injective(lp_token, o_lp_token);
                },
                _ => {
                    assert(self.wire_tag()[0] == other.wire_tag()[0]);
                    assert(self.wire_tag()[1] == other.wire_tag()[1]);
                },
            },
            QueryMsg::ActivePools {} => match other {
                QueryMsg::ActivePools {} => {
                    lemma_cancel_prefix(self.wire(), r1, r2);
                },
                _ => {
                    assert(self.wire_tag()[0] == other.wire_tag()[0]);
                    assert(self.wire_tag()[1] == other.wire_tag()[1]);
                },
            },
        }
    }
}

impl WireValue for QueryMsg {
    proof fn lemma_not_null(&self) {
    }
}

impl WireUnique for RewardType {
    open spec fn same(&self, other: &Self) -> bool {
        match (self, other) {
            (RewardType::Int(x), RewardType::Int(o_x)) => x.same(o_x),
            (RewardType::Ext { info, next_update_ts }, RewardType::Ext {
                info: o_info,
                next_update_ts: o_next_update_ts,
            }) => {
                &&& info.same(o_info)
                &&& next_update_ts.same(o_next_update_ts)
            },
            _ => false,
        }
    }

    proof fn lemma_wire_shape(&self) {
    }

    #[verifier::spinoff_prover]
    #[verifier::rlimit(40)]
    proof fn lemma_wire_unique(&self, other: &Self, r1: Seq<char>, r2: Seq<char>) {
        reveal_strlit("int");
        reveal_strlit("ext");
        assert(self.wire() == tagged(self.wire_tag(), self.wire_body()));
        assert(other.wire() == tagged(other.wire_tag(), other.wire_body()));
        assert(quote_free(self.wire_tag()));
        assert(quote_free(other.wire_tag()));
        lemma_tag_unique(
            self.wire_tag(),
            self.wire_body(),
            other.wire_tag(),
            other.wire_body(),
            r1,
            r2,
        );
        match self {
            RewardType::Int(x) => match other {
                RewardType::Int(o_x) => {
                    lemma_readable(x, o_x);
                    lemma_tagged_unique("int"@, x.wire(), o_x.wire(), r1, r2);
                    lemma_wire_injective(x, o_x);
                },
                _ => {
                    assert(self.wire_tag()[0] == other.wire_tag()[0]);
                    assert(self.wire_tag()[1] == other.wire_tag()[1]);
                },
            },
            RewardType::Ext { info, next_update_ts } => match other {
                RewardType::Ext {
                    info: o_info,
                    next_update_ts: o_next_update_ts,
                } => {
                    let ks = seq!["info"@, "next_update_ts"@];
                    let vs = seq![info.wire(), next_update_ts.wire()];
                    let ws = seq![o_info.wire(), o_next_update_ts.wire()];
                    lemma_readable(info, o_info);
                    lemma_readable(next_update_ts, o_next_update_ts);
                    assert forall|i: int|
                        0 <= i < ks.len() implies #[trigger] readable(vs[i], ws[i]) by {
                        if i == 0 {
                        } else if i == 1 {
                        }
                    }
                    assert(members(ks, vs) =~= seq![
                        member("info"@, info.wire()),
                        member("next_update_ts"@, next_update_ts.wire()),
                    ]);
                    assert(members(ks, ws) =~= seq![
                        member("info"@, o_info.wire()),
                        member("next_update_ts"@, o_next_update_ts.wire()),
                    ]);
                    lemma_object_readable(ks, vs, ws);
                    let bv = object(members(ks, vs));
                    let bw = object(members(ks, ws));
                    lemma_tagged_unique("ext"@, bv, bw, r1, r2);
                    let empty = Seq::<char>::empty();
                    assert(bv + empty =~= bv);
                    assert(bw + empty =~= bw);
                    lemma_object_unique(ks, vs, ws, empty, empty);
                    assert(vs[0] == ws[0]);
                    lemma_wire_injective(info, o_info);
                    assert(vs[1] == ws[1]);
                    lemma_wire_injective(next_update_ts, o_next_update_ts);
                },
                _ => {
                    assert(self.wire_tag()[0] == other.wire_tag()[0]);
                    assert(self.wire_tag()[1] == other.wire_tag()[1]);
                },
            },
        }
    }
}

impl WireValue for RewardType {
    proof fn lemma_not_null(&self) {
    }
}

impl WireUnique for RewardInfo {
    open spec fn same(&self, other: &Self) -> bool {
        &&& self.reward.same(&other.reward)
        &&& self.rps.same(&other.rps)
        &&& self.index.same(&other.index)
        &&& self.orphaned.same(&other.orphaned)
    }

    proof fn lemma_wire_shape(&self) {
    }

    proof fn lemma_wire_unique(&self, other: &Self, r1: Seq<char>, r2: Seq<char>) {
        let ks = seq!["reward"@, "rps"@, "index"@, "orphaned"@];
        let vs = seq![self.reward.wire(), self.rps.wire(), self.index.wire(), self.orphaned.wire()];
        let ws = seq![
            other.reward.wire(),
            other.rps.wire(),
            other.index.wire(),
            other.orphaned.wire(),
        ];
        lemma_readable(&self.reward, &other.reward);
        lemma_readable(&self.rps, &other.rps);
        lemma_readable(&self.index, &other.index);
        lemma_readable(&self.orphaned, &other.orphaned);
        assert forall|i: int|
            0 <= i < ks.len() implies #[trigger] readable(vs[i], ws[i]) by {
            if i == 0 {
            } else if i == 1 {
            } else if i == 2 {
            } else if i == 3 {
            }
        }
        assert(members(ks, vs) =~= seq![
            member("reward"@, self.reward.wire()),
            member("rps"@, self.rps.wire()),
            member("index"@, self.index.wire()),
            member("orphaned"@, self.orphaned.wire()),
        ]);
        assert(members(ks, ws) =~= seq![
            member("reward"@, other.reward.wire()),
            member("rps"@, other.rps.wire()),
            member("index"@, other.index.wire()),
            member("orphaned"@, other.orphaned.wire()),
        ]);
        lemma_object_unique(ks, vs, ws, r1, r2);
        assert(vs[0] == ws[0]);
        lemma_wire_injective(&self.reward, &other.reward);
        assert(vs[1] == ws[1]);
        lemma_wire_injective(&self.rps, &other.rps);
        assert(vs[2] == ws[2]);
        lemma_wire_injective(&self.index, &other.index);
        assert(vs[3] == ws[3]);
        lemma_wire_injective(&self.orphaned, &other.orphaned);
    }
}

impl WireValue for RewardInfo {
    proof fn lemma_not_null(&self) {
    }
}

impl WireUnique for PoolInfoResponse {
    open spec fn same(&self, other: &Self) -> bool {
        &&& self.total_lp.same(&other.total_lp)
        &&& self.rewards.same(&other.rewards)
        &&& self.last_update_ts.same(&other.last_update_ts)
    }

    proof fn lemma_wire_shape(&self) {
    }

    proof fn lemma_wire_unique(&self, other: &Self, r1: Seq<char>, r2: Seq<char>) {
        let ks = seq!["total_lp"@, "rewards"@, "last_update_ts"@];
        let vs = seq![self.total_lp.wire(), self.rewards.wire(), self.last_update_ts.wire()];
        let ws = seq![other.total_lp.wire(), other.rewards.wire(), other.last_update_ts.wire()];
        lemma_readable(&self.total_lp, &other.total_lp);
        lemma_readable(&self.rewards, &other.rewards);
        lemma_readable(&self.last_update_ts, &other.last_update_ts);
        assert forall|i: int|
            0 <= i < ks.len() implies #[trigger] readable(vs[i], ws[i]) by {
            if i == 0 {
            } else if i == 1 {
            } else if i == 2 {
            }
        }
        assert(members(ks, vs) =~= seq![
            member("total_lp"@, self.total_lp.wire()),
            member("rewards"@, self.rewards.wire()),
            member("last_update_ts"@, self.last_update_ts.wire()),
        ]);
        assert(members(ks, ws) =~= seq![
            member("total_lp"@, other.total_lp.wire()),
            member("rewards"@, other.rewards.wire()),
            member("last_update_ts"@, other.last_update_ts.wire()),
        ]);
        lemma_object_unique(ks, vs, ws, r1, r2);
        assert(vs[0] == ws[0]);
        lemma_wire_injective(&self.total_lp, &other.total_lp);
        assert(vs[1] == ws[1]);
        lemma_wire_injective(&self.rewards, &other.rewards);
        assert(vs[2] == ws[2]);
        lemma_wire_injective(&self.last_update_ts, &other.last_update_ts);
    }
}

impl WireValue for PoolInfoResponse {
    proof fn lemma_not_null(&self) {
    }
}

/// The wire text of every `InputSchedule`: a JSON object with one member per field,
/// in declaration order, each holding the text of its own field under that
/// field's name.
pub proof fn lemma_input_schedule_text(v: InputSchedule)
    ensures
        v.wire() == object(seq![
            member("reward"@, v.reward.wire()),
            member("duration_periods"@, v.duration_periods.wire()),
        ]),
{
}

/// The wire text of every `ExecuteMsg`: an object whose one key is the variant's
/// snake-case name, holding the variant's fields as an object with one member
/// per field, in declaration order, each under its own name (a tuple variant
/// holds the text of its one value).
pub proof fn lemma_execute_msg_text(v: ExecuteMsg)
    ensures
        v matches ExecuteMsg::SetupPools { pools } ==> v.wire() == tagged(
            "setup_pools"@,
            object(seq![member("pools"@, pools.wire())]),
        ),
        v matches ExecuteMsg::ClaimRewards { lp_tokens } ==> v.wire() == tagged(
            "claim_rewards"@,
            object(seq![member("lp_tokens"@, lp_tokens.wire())]),
        ),
        v matches ExecuteMsg::Deposit { recipient } ==> v.wire() == tagged(
            "deposit"@,
            object(seq![member("recipient"@, recipient.wire())]),
        ),
        v matches ExecuteMsg::Withdraw { lp_token, amount } ==> v.wire() == tagged(
            "withdraw"@,
            object(seq![member("lp_token"@, lp_token.wire()), member("amount"@, amount.wire())]),
        ),
        v matches ExecuteMsg::SetTokensPerSecond { amount } ==> v.wire() == tagged(
            "set_tokens_per_second"@,
            object(seq![member("amount"@, amount.wire())]),
        ),
        v matches ExecuteMsg::Incentivize { lp_token, schedule } ==> v.wire() == tagged(
            "incentivize"@,
            object(seq![
                member("lp_token"@, lp_token.wire()),
                member("schedule"@, schedule.wire()),
            ]),
        ),
        v matches ExecuteMsg::IncentivizeMany(x) ==> v.wire() == tagged(
            "incentivize_many"@,
            x.wire(),
        ),
{
}

/// The wire text of every `QueryMsg`: an object whose one key is the variant's
/// snake-case name, holding the variant's fields as an object with one member
/// per field, in declaration order, each under its own name (a tuple variant
/// holds the text of its one value).
pub proof fn lemma_query_msg_text(v: QueryMsg)
    ensures
        v matches QueryMsg::Deposit { lp_token, user } ==> v.wire() == tagged(
            "deposit"@,
            object(seq![member("lp_token"@, lp_token.wire()), member("user"@, user.wire())]),
        ),
        v matches QueryMsg::PendingRewards { lp_token, user } ==> v.wire() == tagged(
            "pending_rewards"@,
            object(seq![member("lp_token"@, lp_token.wire()), member("user"@, user.wire())]),
        ),
        v matches QueryMsg::RewardInfo { lp_token } ==> v.wire() == tagged(
            "reward_info"@,
            object(seq![member("lp_token"@, lp_token.wire())]),
        ),
        v matches QueryMsg::PoolInfo { lp_token } ==> v.wire() == tagged(
            "pool_info"@,
            object(seq![member("lp_token"@, lp_token.wire())]),
        ),
        v matches QueryMsg::ActivePools {} ==> v.wire() == tagged("active_pools"@, object(seq![])),
{
}

/// The wire text of every `RewardType`: an object whose one key is the variant's
/// snake-case name, holding the variant's fields as an object with one member
/// per field, in declaration order, each under its own name (a tuple variant
/// holds the text of its one value).
pub proof fn lemma_reward_type_text(v: RewardType)
    ensures
        v matches RewardType::Int(x) ==> v.wire() == tagged("int"@, x.wire()),
        v matches RewardType::Ext { info, next_update_ts } ==> v.wire() == tagged(
            "ext"@,
            object(seq![
                member("info"@, info.wire()),
                member("next_update_ts"@, next_update_ts.wire()),
            ]),
        ),
{
}

/// The wire text of every `RewardInfo`: a JSON object with one member per field,
/// in declaration order, each holding the text of its own field under that
/// field's name.
pub proof fn lemma_reward_info_text(v: RewardInfo)
    ensures
        v.wire() == object(seq![
            member("reward"@, v.reward.wire()),
            member("rps"@, v.rps.wire()),
            member("index"@, v.index.wire()),
            member("orphaned"@, v.orphaned.wire()),
        ]),
{
}

/// The wire text of every `PoolInfoResponse`: a JSON object with one member per field,
/// in declaration order, each holding the text of its own field under that
/// field's name.
pub proof fn lemma_pool_info_response_text(v: PoolInfoResponse)
    ensures
        v.wire() == object(seq![
            member("total_lp"@, v.total_lp.wire()),
            member("rewards"@, v.rewards.wire()),
            member("last_update_ts"@, v.last_update_ts.wire()),
        ]),
{
}

} // verus!
