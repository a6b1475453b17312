//! Decisions of the keep-set deployment: the deployer's starting balances,
//! which code to store, which contract to instantiate with which message,
//! and the handles that result. A runner performs each planned step on a
//! chain and records what the step produced: a code id, a contract address,
//! or a completed execution.
use vstd::prelude::*;
use crate::factory::{PairConfig, PairType};

verus! {

/// The deployer address used by all keep-set deployments.
pub const DEPLOYER: &'static str = "deployer";

/// Juno-style native denoms: the staking denom and two mocked IBC denoms.
pub const UJUNO: &'static str = "ujuno";

pub const MOCK_USDC: &'static str = "ibc/USDC";

pub const MOCK_ATOM: &'static str = "ibc/ATOM";

/// Starting bank balance of the deployer in each denom.
pub const INITIAL_BALANCE: u128 = 1_000_000_000_000;

/// Decimal places registered for each native denom.
pub const NATIVE_PRECISION: u8 = 6;

/// Total swap fee of the XYK pair kind, in basis points.
pub const XYK_TOTAL_FEE_BPS: u16 = 30;

/// Maker share of the XYK swap fee, in basis points.
pub const XYK_MAKER_FEE_BPS: u16 = 0;

/// An amount of a native denom.
#[derive(Clone, Debug, PartialEq, Eq)]
pub struct Coin {
    pub denom: String,
    pub amount: u128,
}

/// The denoms that the deployer holds and that the registry learns, in order.
pub open spec fn keep_set_denoms() -> Seq<Seq<char>> {
    seq![UJUNO@, MOCK_USDC@, MOCK_ATOM@]
}

/// The balances that the deployer starts with: `INITIAL_BALANCE` of each
/// keep-set denom.
pub fn deployer_genesis_coins() -> (res: Vec<Coin>)
    ensures
        res@.len() == 3,
        forall|i: int|
            0 <= i < 3 ==> (#[trigger] res@[i]).denom@ == keep_set_denoms()[i] && res@[i].amount
                == INITIAL_BALANCE,
{
    let mut res: Vec<Coin> = Vec::new();
    res.push(Coin { denom: String::from_str(UJUNO), amount: INITIAL_BALANCE });
    res.push(Coin { denom: String::from_str(MOCK_USDC), amount: INITIAL_BALANCE });
    res.push(Coin { denom: String::from_str(MOCK_ATOM), amount: INITIAL_BALANCE });
    res
}

/// The amount that a balance query answered, or 0 when it gave no answer.
pub fn balance_or_zero(queried: Option<u128>) -> (res: u128)
    ensures
        res == match queried {
            Some(a) => a,
            None => 0,
        },
{
    match queried {
        Some(a) => a,
        None => 0,
    }
}

/// The contract codes of the keep set, in the order they are stored.
#[derive(Clone, Copy, Debug, PartialEq, Eq)]
pub enum KeepSetCode {
    Pair,
    Factory,
    Router,
    Whitelist,
    Registry,
    Cw20,
}

/// Configuration of the token-balance tracker that the factory may attach to
/// new pairs: the tracker's code id and the token factory module's address.
#[derive(Clone, Debug, PartialEq, Eq)]
pub struct TrackerConfig {
    pub code_id: u64,
    pub token_factory_addr: String,
}

/// The factory's instantiate message.
#[derive(Clone, Debug, PartialEq, Eq)]
pub struct FactoryConfig {
    pub pair_configs: Vec<PairConfig>,
    pub token_code_id: u64,
    pub fee_address: Option<String>,
    pub generator_address: Option<String>,
    pub owner: String,
    pub whitelist_code_id: u64,
    pub coin_registry_address: String,
    pub tracker_config: Option<TrackerConfig>,
}

/// Addresses of the deployed keep set and the code ids needed to
/// instantiate further pairs.
#[derive(Clone, Debug, PartialEq, Eq)]
pub struct KeepSetHandles {
    pub deployer: String,
    pub factory: String,
    pub native_coin_registry: String,
    pub whitelist: String,
    pub router: String,
    pub pair_code_id: u64,
    pub whitelist_code_id: u64,
    pub token_code_id: u64,
}

/// One step of the deployment. Each message names its sender and the native
/// funds attached to it; each instantiation also names the admin of the new
/// contract, if it has one.
#[derive(Clone, Debug, PartialEq, Eq)]
pub enum DeployAction {
    /// Store the code of a contract.
    StoreCode(KeepSetCode),
    /// Instantiate the native coin registry.
    InstantiateRegistry {
        sender: String,
        funds: Vec<Coin>,
        admin: Option<String>,
        code_id: u64,
        owner: String,
        label: String,
    },
    /// Register native denoms with their decimal places in the registry.
    RegisterNativeCoins {
        sender: String,
        funds: Vec<Coin>,
        registry: String,
        native_coins: Vec<(String, u8)>,
    },
    /// Instantiate the cw1 whitelist.
    InstantiateWhitelist {
        sender: String,
        funds: Vec<Coin>,
        admin: Option<String>,
        code_id: u64,
        admins: Vec<String>,
        mutable: bool,
        label: String,
    },
    /// Instantiate the factory.
    InstantiateFactory {
        sender: String,
        funds: Vec<Coin>,
        admin: Option<String>,
        code_id: u64,
        config: FactoryConfig,
        label: String,
    },
    /// Instantiate the router.
    InstantiateRouter {
        sender: String,
        funds: Vec<Coin>,
        admin: Option<String>,
        code_id: u64,
        astroport_factory: String,
        label: String,
    },
    /// Nothing is left to do.
    Finished(KeepSetHandles),
}

/// What a performed step produced.
#[derive(Clone, Debug, PartialEq, Eq)]
pub enum DeployEvent {
    CodeStored(u64),
    Instantiated(String),
    Executed,
}

/// Progress of a deployment: the number of completed steps and what they
/// produced. Stage 11 and above is finished.
#[derive(Clone, Debug, PartialEq, Eq)]
pub struct KeepSetDeploy {
    pub stage: u8,
    pub pair_code_id: u64,
    pub factory_code_id: u64,
    pub router_code_id: u64,
    pub whitelist_code_id: u64,
    pub registry_code_id: u64,
    pub token_code_id: u64,
    pub native_coin_registry: String,
    pub whitelist: String,
    pub factory: String,
    pub router: String,
}

/// The code stored at each of the first six stages.
pub open spec fn code_at(stage: u8) -> KeepSetCode {
    if stage == 0 {
        KeepSetCode::Pair
    } else if stage == 1 {
        KeepSetCode::Factory
    } else if stage == 2 {
        KeepSetCode::Router
    } else if stage == 3 {
        KeepSetCode::Whitelist
    } else if stage == 4 {
        KeepSetCode::Registry
    } else {
        KeepSetCode::Cw20
    }
}

/// The deployment after one performed step. A code id is taken at stages
/// 0 to 5, an address at stages 6, 8, 9 and 10, a completed execution at
/// stage 7; an event of another kind, or any event once finished, changes
/// nothing.
pub open spec fn spec_record(s: KeepSetDeploy, e: DeployEvent) -> KeepSetDeploy {
    match e {
        DeployEvent::CodeStored(id) => {
            if s.stage == 0 {
                KeepSetDeploy { stage: 1, pair_code_id: id, ..s }
            } else if s.stage == 1 {
                KeepSetDeploy { stage: 2, factory_code_id: id, ..s }
            } else if s.stage == 2 {
                KeepSetDeploy { stage: 3, router_code_id: id, ..s }
            } else if s.stage == 3 {
                KeepSetDeploy { stage: 4, whitelist_code_id: id, ..s }
            } else if s.stage == 4 {
                KeepSetDeploy { stage: 5, registry_code_id: id, ..s }
            } else if s.stage == 5 {
                KeepSetDeploy { stage: 6, token_code_id: id, ..s }
            } else {
                s
            }
        },
        DeployEvent::Instantiated(addr) => {
            if s.stage == 6 {
                KeepSetDeploy { stage: 7, native_coin_registry: addr, ..s }
            } else if s.stage == 8 {
                KeepSetDeploy { stage: 9, whitelist: addr, ..s }
            } else if s.stage == 9 {
                KeepSetDeploy { stage: 10, factory: addr, ..s }
            } else if s.stage == 10 {
                KeepSetDeploy { stage: 11, router: addr, ..s }
            } else {
                s
            }
        },
        DeployEvent::Executed => {
            if s.stage == 7 {
                KeepSetDeploy { stage: 8, ..s }
            } else {
                s
            }
        },
    }
}

/// The factory configuration of the keep set: one XYK pair kind with the
/// stored pair code (30 bps total fee, no maker fee, enabled, generator
/// disabled, permissionless), the stored cw20 and whitelist codes, the
/// deployer as owner and the instantiated registry.
pub open spec fn is_keep_set_factory_config(s: KeepSetDeploy, c: FactoryConfig) -> bool {
    &&& c.pair_configs@.len() == 1
    &&& c.pair_configs@[0] == (PairConfig {
        code_id: s.pair_code_id,
        pair_type: PairType::Xyk {  },
        total_fee_bps: XYK_TOTAL_FEE_BPS,
        maker_fee_bps: XYK_MAKER_FEE_BPS,
        is_disabled: false,
        is_generator_disabled: true,
        permissioned: false,
        whitelist: None,
    })
    &&& c.token_code_id == s.token_code_id
    &&& c.fee_address is None
    &&& c.generator_address is None
    &&& c.owner@ == DEPLOYER@
    &&& c.whitelist_code_id == s.whitelist_code_id
    &&& c.coin_registry_address == s.native_coin_registry
    &&& c.tracker_config is None
}

/// A message sent by the deployer with no funds attached.
pub open spec fn sent_by_deployer(sender: String, funds: Vec<Coin>) -> bool {
    &&& sender@ == DEPLOYER@
    &&& funds@.len() == 0
}

/// The handles of a finished deployment.
pub open spec fn are_keep_set_handles(s: KeepSetDeploy, h: KeepSetHandles) -> bool {
    &&& h.deployer@ == DEPLOYER@
    &&& h.factory == s.factory
    &&& h.native_coin_registry == s.native_coin_registry
    &&& h.whitelist == s.whitelist
    &&& h.router == s.router
    &&& h.pair_code_id == s.pair_code_id
    &&& h.whitelist_code_id == s.whitelist_code_id
    &&& h.token_code_id == s.token_code_id
}

/// The step that a deployment in state `s` performs next.
pub open spec fn plans(s: KeepSetDeploy, a: DeployAction) -> bool {
    if s.stage < 6 {
        a == DeployAction::StoreCode(code_at(s.stage))
    } else if s.stage == 6 {
        &&& a matches DeployAction::InstantiateRegistry {
            sender,
            funds,
            admin,
            code_id,
            owner,
            label,
        }
        &&& sent_by_deployer(sender, funds)
        &&& admin is None
        &&& code_id == s.registry_code_id
        &&& owner@ == DEPLOYER@
        &&& label@ == "native_coin_registry"@
    } else if s.stage == 7 {
        &&& a matches DeployAction::RegisterNativeCoins { sender, funds, registry, native_coins }
        &&& sent_by_deployer(sender, funds)
        &&& registry == s.native_coin_registry
        &&& native_coins@.len() == 3
        &&& forall|i: int|
            0 <= i < 3 ==> (#[trigger] native_coins@[i]).0@ == keep_set_denoms()[i]
                && native_coins@[i].1 == NATIVE_PRECISION
    } else if s.stage == 8 {
        &&& a matches DeployAction::InstantiateWhitelist {
            sender,
            funds,
            admin,
            code_id,
            admins,
            mutable,
            label,
        }
        &&& sent_by_deployer(sender, funds)
        &&& admin is None
        &&& code_id == s.whitelist_code_id
        &&& admins@.len() == 1
        &&& admins@[0]@ == DEPLOYER@
        &&& mutable
        &&& label@ == "whitelist"@
    } else if s.stage == 9 {
        &&& a matches DeployAction::InstantiateFactory {
            sender,
            funds,
            admin,
            code_id,
            config,
            label,
        }
        &&& sent_by_deployer(sender, funds)
        &&& admin is None
        &&& code_id == s.factory_code_id
        &&& is_keep_set_factory_config(s, config)
        &&& label@ == "factory"@
    } else if s.stage == 10 {
        &&& a matches DeployAction::InstantiateRouter {
            sender,
            funds,
            admin,
            code_id,
            astroport_factory,
            label,
        }
        &&& sent_by_deployer(sender, funds)
        &&& admin is None
        &&& code_id == s.router_code_id
        &&& astroport_factory == s.factory
        &&& label@ == "router"@
    } else {
        &&& a matches DeployAction::Finished(h)
        &&& are_keep_set_handles(s, h)
    }
}

/// The deployment after the events, recorded in order.
pub open spec fn spec_run(s: KeepSetDeploy, events: Seq<DeployEvent>) -> KeepSetDeploy
    decreases events.len(),
{
    if events.len() == 0 {
        s
    } else {
        spec_record(spec_run(s, events.drop_last()), events.last())
    }
}

/// The events of a successful deployment: six stored codes (pair, factory,
/// router, whitelist, registry, cw20), the registry's address, the executed
/// registration, and the addresses of the whitelist, factory and router.
pub open spec fn keep_set_events(codes: Seq<u64>, addrs: Seq<String>) -> Seq<DeployEvent> {
    seq![
        DeployEvent::CodeStored(codes[0]),
        DeployEvent::CodeStored(codes[1]),
        DeployEvent::CodeStored(codes[2]),
        DeployEvent::CodeStored(codes[3]),
        DeployEvent::CodeStored(codes[4]),
        DeployEvent::CodeStored(codes[5]),
        DeployEvent::Instantiated(addrs[0]),
        DeployEvent::Executed,
        DeployEvent::Instantiated(addrs[1]),
        DeployEvent::Instantiated(addrs[2]),
        DeployEvent::Instantiated(addrs[3]),
    ]
}

/// Recording one more event of a sequence.
pub proof fn lemma_run_step(s: KeepSetDeploy, events: Seq<DeployEvent>, j: int)
    requires
        0 < j <= events.len(),
    ensures
        spec_run(s, events.take(j)) == spec_record(spec_run(s, events.take(j - 1)), events[j - 1]),
{
    assert(events.take(j).drop_last() =~= events.take(j - 1));
}

/// A deployment that records the events of a successful run in order
/// stores the six codes first, instantiates each contract with the code
/// stored for it, registers the keep-set denoms in the registry at the
/// address it got, wires that address into the factory and the factory's
/// address into the router, and finishes with handles that hold exactly the
/// code ids and addresses that the run produced.
pub proof fn lemma_keep_set_deploy(s: KeepSetDeploy, codes: Seq<u64>, addrs: Seq<String>)
    requires
        s.stage == 0,
        codes.len() == 6,
        addrs.len() == 4,
    ensures
        forall|k: int|
            0 <= k < 6 ==> #[trigger] spec_run(s, keep_set_events(codes, addrs).take(k)).stage
                == k,
        forall|a: DeployAction|
            plans(spec_run(s, keep_set_events(codes, addrs).take(6)), a) ==> {
                &&& a matches DeployAction::InstantiateRegistry { code_id, .. }
                &&& code_id == codes[4]
            },
        forall|a: DeployAction|
            plans(spec_run(s, keep_set_events(codes, addrs).take(7)), a) ==> {
                &&& a matches DeployAction::RegisterNativeCoins { registry, .. }
                &&& registry == addrs[0]
            },
        forall|a: DeployAction|
            plans(spec_run(s, keep_set_events(codes, addrs).take(8)), a) ==> {
                &&& a matches DeployAction::InstantiateWhitelist { code_id, .. }
                &&& code_id == codes[3]
            },
        forall|a: DeployAction|
            plans(spec_run(s, keep_set_events(codes, addrs).take(9)), a) ==> {
                &&& a matches DeployAction::InstantiateFactory { code_id, config, .. }
                &&& code_id == codes[1]
                &&& config.pair_configs@[0].code_id == codes[0]
                &&& config.whitelist_code_id == codes[3]
                &&& config.token_code_id == codes[5]
                &&& config.coin_registry_address == addrs[0]
            },
        forall|a: DeployAction|
            plans(spec_run(s, keep_set_events(codes, addrs).take(10)), a) ==> {
                &&& a matches DeployAction::InstantiateRouter { code_id, astroport_factory, .. }
                &&& code_id == codes[2]
                &&& astroport_factory == addrs[2]
            },
        forall|a: DeployAction|
            plans(spec_run(s, keep_set_events(codes, addrs)), a) ==> {
                &&& a matches DeployAction::Finished(h)
                &&& h.deployer@ == DEPLOYER@
                &&& h.pair_code_id == codes[0]
                &&& h.whitelist_code_id == codes[3]
                &&& h.token_code_id == codes[5]
                &&& h.native_coin_registry == addrs[0]
                &&& h.whitelist == addrs[1]
                &&& h.factory == addrs[2]
                &&& h.router == addrs[3]
            },
{
    let ev = keep_set_events(codes, addrs);
    assert(ev.take(0) =~= Seq::<DeployEvent>::empty());
    assert(ev.take(11) =~= ev);
    lemma_run_step(s, ev, 1);
    lemma_run_step(s, ev, 2);
    lemma_run_step(s, ev, 3);
    lemma_run_step(s, ev, 4);
    lemma_run_step(s, ev, 5);
    lemma_run_step(s, ev, 6);
    lemma_run_step(s, ev, 7);
    lemma_run_step(s, ev, 8);
    lemma_run_step(s, ev, 9);
    lemma_run_step(s, ev, 10);
    lemma_run_step(s, ev, 11);
    assert forall|k: int| 0 <= k < 6 implies #[trigger] spec_run(s, ev.take(k)).stage == k by {
        if k == 0 {
        } else if k == 1 {
        } else if k == 2 {
        } else if k == 3 {
        } else if k == 4 {
        } else {
        }
    }
}

/// Every message that a deployment plans is sent by the deployer with no
/// funds attached, every contract it instantiates has no admin, and the
/// factory gets no token-tracker configuration.
pub proof fn lemma_plan_sent_by_deployer(s: KeepSetDeploy, a: DeployAction)
    requires
        plans(s, a),
    ensures
        match a {
            DeployAction::InstantiateRegistry { sender, funds, admin, .. } => sent_by_deployer(
                sender,
                funds,
            ) && admin is None,
            DeployAction::RegisterNativeCoins { sender, funds, .. } => sent_by_deployer(
                sender,
                funds,
            ),
            DeployAction::InstantiateWhitelist { sender, funds, admin, .. } => sent_by_deployer(
                sender,
                funds,
            ) && admin is None,
            DeployAction::InstantiateFactory { sender, funds, admin, config, .. } => {
                sent_by_deployer(sender, funds) && admin is None && config.tracker_config is None
            },
            DeployAction::InstantiateRouter { sender, funds, admin, .. } => sent_by_deployer(
                sender,
                funds,
            ) && admin is None,
            _ => true,
        },
{
}

/// Once finished, a deployment records no more events.
pub proof fn lemma_finished_is_final(s: KeepSetDeploy, e: DeployEvent)
    requires
        s.stage >= 11,
    ensures
        spec_record(s, e) == s,
{
}

/// An event of the wrong kind for the pending step changes nothing: a code
/// id is only taken while storing codes, an address only after an
/// instantiation, a completed execution only after the registration.
pub proof fn lemma_unexpected_event_ignored(s: KeepSetDeploy, e: DeployEvent)
    requires
        match e {
            DeployEvent::CodeStored(_) => s.stage >= 6,
            DeployEvent::Instantiated(_) => s.stage < 6 || s.stage == 7 || s.stage >= 11,
            DeployEvent::Executed => s.stage != 7,
        },
    ensures
        spec_record(s, e) == s,
{
}

impl KeepSetDeploy {
    /// A deployment that has performed no step yet.
    pub fn new() -> (res: Self)
        ensures
            res.stage == 0,
            res.pair_code_id == 0,
            res.factory_code_id == 0,
            res.router_code_id == 0,
            res.whitelist_code_id == 0,
            res.registry_code_id == 0,
            res.token_code_id == 0,
            res.native_coin_registry@ == Seq::<char>::empty(),
            res.whitelist@ == Seq::<char>::empty(),
            res.factory@ == Seq::<char>::empty(),
            res.router@ == Seq::<char>::empty(),
    {
        KeepSetDeploy {
            stage: 0,
            pair_code_id: 0,
            factory_code_id: 0,
            router_code_id: 0,
            whitelist_code_id: 0,
            registry_code_id: 0,
            token_code_id: 0,
            native_coin_registry: String::new(),
            whitelist: String::new(),
            factory: String::new(),
            router: String::new(),
        }
    }

    /// Records what the last planned step produced.
    pub fn record(&mut self, event: DeployEvent)
        ensures
            *final(self) == spec_record(*old(self), event),
    {
        match event {
            DeployEvent::CodeStored(id) => {
                if self.stage == 0 {
                    self.pair_code_id = id;
                    self.stage = 1;
                } else if self.stage == 1 {
                    self.factory_code_id = id;
                    self.stage = 2;
                } else if self.stage == 2 {
                    self.router_code_id = id;
                    self.stage = 3;
                } else if self.stage == 3 {
                    self.whitelist_code_id = id;
                    self.stage = 4;
                } else if self.stage == 4 {
                    self.registry_code_id = id;
                    self.stage = 5;
                } else if self.stage == 5 {
                    self.token_code_id = id;
                    self.stage = 6;
                }
            },
            DeployEvent::Instantiated(addr) => {
                if self.stage == 6 {
                    self.native_coin_registry = addr;
                    self.stage = 7;
                } else if self.stage == 8 {
                    self.whitelist = addr;
                    self.stage = 9;
                } else if self.stage == 9 {
                    self.factory = addr;
                    self.stage = 10;
                } else if self.stage == 10 {
                    self.router = addr;
                    self.stage = 11;
                }
            },
            DeployEvent::Executed => {
                if self.stage == 7 {
                    self.stage = 8;
                }
            },
        }
    }

    /// The step to perform next.
    pub fn next_action(&self) -> (res: DeployAction)
        ensures
            plans(*self, res),
    {
        if self.stage == 0 {
            DeployAction::StoreCode(KeepSetCode::Pair)
        } else if self.stage == 1 {
            DeployAction::StoreCode(KeepSetCode::Factory)
        } else if self.stage == 2 {
            DeployAction::StoreCode(KeepSetCode::Router)
        } else if self.stage == 3 {
            DeployAction::StoreCode(KeepSetCode::Whitelist)
        } else if self.stage == 4 {
            DeployAction::StoreCode(KeepSetCode::Registry)
        } else if self.stage == 5 {
            DeployAction::StoreCode(KeepSetCode::Cw20)
        } else if self.stage == 6 {
            DeployAction::InstantiateRegistry {
                sender: String::from_str(DEPLOYER),
                funds: Vec::new(),
                admin: None,
                code_id: self.registry_code_id,
                owner: String::from_str(DEPLOYER),
                label: String::from_str("native_coin_registry"),
            }
        } else if self.stage == 7 {
            let mut native_coins: Vec<(String, u8)> = Vec::new();
            native_coins.push((String::from_str(UJUNO), NATIVE_PRECISION));
            native_coins.push((String::from_str(MOCK_USDC), NATIVE_PRECISION));
            native_coins.push((String::from_str(MOCK_ATOM), NATIVE_PRECISION));
            DeployAction::RegisterNativeCoins {
                sender: String::from_str(DEPLOYER),
                funds: Vec::new(),
                registry: self.native_coin_registry.clone(),
                native_coins,
            }
        } else if self.stage == 8 {
            let mut admins: Vec<String> = Vec::new();
            admins.push(String::from_str(DEPLOYER));
            DeployAction::InstantiateWhitelist {
                sender: String::from_str(DEPLOYER),
                funds: Vec::new(),
                admin: None,
                code_id: self.whitelist_code_id,
                admins,
                mutable: true,
                label: String::from_str("whitelist"),
            }
        } else if self.stage == 9 {
            let mut pair_configs: Vec<PairConfig> = Vec::new();
            pair_configs.push(
                PairConfig {
                    code_id: self.pair_code_id,
                    pair_type: PairType::Xyk {  },
                    total_fee_bps: XYK_TOTAL_FEE_BPS,
                    maker_fee_bps: XYK_MAKER_FEE_BPS,
                    is_disabled: false,
                    is_generator_disabled: true,
                    permissioned: false,
                    whitelist: None,
                },
            );
            DeployAction::InstantiateFactory {
                sender: String::from_str(DEPLOYER),
                funds: Vec::new(),
                admin: None,
                code_id: self.factory_code_id,
                config: FactoryConfig {
                    pair_configs,
                    token_code_id: self.token_code_id,
                    fee_address: None,
                    generator_address: None,
                    owner: String::from_str(DEPLOYER),
                    whitelist_code_id: self.whitelist_code_id,
                    coin_registry_address: self.native_coin_registry.clone(),
                    tracker_config: None,
                },
                label: String::from_str("factory"),
            }
        } else if self.stage == 10 {
            DeployAction::InstantiateRouter {
                sender: String::from_str(DEPLOYER),
                funds: Vec::new(),
                admin: None,
                code_id: self.router_code_id,
                astroport_factory: self.factory.clone(),
                label: String::from_str("router"),
            }
        } else {
            DeployAction::Finished(
                KeepSetHandles {
                    deployer: String::from_str(DEPLOYER),
                    factory: self.factory.clone(),
                    native_coin_registry: self.native_coin_registry.clone(),
                    whitelist: self.whitelist.clone(),
                    router: self.router.clone(),
                    pair_code_id: self.pair_code_id,
                    whitelist_code_id: self.whitelist_code_id,
                    token_code_id: self.token_code_id,
                },
            )
        }
    }
}

} // verus!
