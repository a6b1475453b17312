//! Factory wire types: the kinds of pair, the configuration of a pair code in
//! the factory, and the message that creates a pair.
use vstd::prelude::*;
use crate::asset::AssetInfo;
use crate::primitives::Binary;
use crate::unambiguous::{
    lemma_cancel_prefix, lemma_object_readable, lemma_object_unique, lemma_readable,
    lemma_wire_injective, lemma_tag_unique, lemma_tagged_unique, members, quote_free, readable,
    WireUnique, WireValue,
};
use crate::wire::{
    begin_object, end_object, lemma_tagged, member, object, tagged, write_member, write_tag,
    JsonWire,
};

verus! {

/// The kind of a pair: constant product, stableswap, or a named custom kind.
#[derive(Clone, Debug, PartialEq, Eq)]
pub enum PairType {
    Xyk {},
    Stable {},
    Custom(String),
}

/// Configuration of one pair kind in the factory.
#[derive(Clone, Debug, PartialEq, Eq)]
pub struct PairConfig {
    /// Code id of the pair contract.
    pub code_id: u64,
    pub pair_type: PairType,
    /// Total swap fee, in basis points.
    pub total_fee_bps: u16,
    /// Share of the fee that goes to the maker, in basis points.
    pub maker_fee_bps: u16,
    pub is_disabled: bool,
    pub is_generator_disabled: bool,
    /// Whether only whitelisted addresses may create pairs of this kind.
    pub permissioned: bool,
    pub whitelist: Option<Vec<String>>,
}

/// Messages that the factory executes. `CreatePair` instantiates a pair of
/// the given kind for the given assets.
#[derive(Clone, Debug, PartialEq, Eq)]
pub enum ExecuteMsg {
    CreatePair {
        pair_type: PairType,
        asset_infos: Vec<AssetInfo>,
        /// Parameters of the pair kind, such as encoded `XYKPoolParams`.
        init_params: Option<Binary>,
    },
}

impl PairType {
    /// The name of the kind: `xyk`, `stable`, or `custom-` and the custom name.
    pub open spec fn name(&self) -> Seq<char> {
        match self {
            PairType::Xyk {} => seq!['x', 'y', 'k'],
            PairType::Stable {} => seq!['s', 't', 'a', 'b', 'l', 'e'],
            PairType::Custom(s) => seq!['c', 'u', 's', 't', 'o', 'm', '-'] + s@,
        }
    }

    /// The name of the kind, as its `Display` gives it.
    pub fn to_string(&self) -> (res: String)
        ensures
            res@ == self.name(),
    {
        let mut out = String::new();
        match self {
            PairType::Xyk {} => {
                out.push('x');
                out.push('y');
                out.push('k');
            },
            PairType::Stable {} => {
                out.push('s');
                out.push('t');
                out.push('a');
                out.push('b');
                out.push('l');
                out.push('e');
            },
            PairType::Custom(s) => {
                out.push('c');
                out.push('u');
                out.push('s');
                out.push('t');
                out.push('o');
                out.push('m');
                out.push('-');
                out.append(s.as_str());
            },
        }
        assert(out@ =~= self.name());
        out
    }
}

impl PairType {
    /// The name of the variant on the wire.
    pub open spec fn wire_tag(&self) -> Seq<char> {
        match self {
            PairType::Xyk { .. } => "xyk"@,
            PairType::Stable { .. } => "stable"@,
            PairType::Custom(..) => "custom"@,
        }
    }

    /// The data of the variant on the wire.
    pub open spec fn wire_body(&self) -> Seq<char> {
        match self {
            PairType::Xyk {} => object(seq![]),
            PairType::Stable {} => object(seq![]),
            PairType::Custom(x) => x.wire(),
        }
    }
}

impl JsonWire for PairType {
    open spec fn wire(&self) -> Seq<char> {
        tagged(self.wire_tag(), self.wire_body())
    }

    fn write_wire(&self, out: &mut String) {
        let ghost start = out@;
        match self {
            PairType::Xyk {} => {
                write_tag(out, "xyk");
                let ghost inner = out@;
                let ghost mut ms: Seq<Seq<char>> = seq![];
                begin_object(out);
                end_object(out, Ghost(inner), Ghost(ms));
                assert(ms =~= seq![]);
                out.push('}');
                proof {
                    lemma_tagged("xyk"@, object(seq![]));
                }
            },
            PairType::Stable {} => {
                write_tag(out, "stable");
                let ghost inner = out@;
                let ghost mut ms: Seq<Seq<char>> = seq![];
                begin_object(out);
                end_object(out, Ghost(inner), Ghost(ms));
                assert(ms =~= seq![]);
                out.push('}');
                proof {
                    lemma_tagged("stable"@, object(seq![]));
                }
            },
            PairType::Custom(x) => {
                write_tag(out, "custom");
                x.write_wire(out);
                out.push('}');
                proof {
                    lemma_tagged("custom"@, x.wire());
                }
            },
        }
        assert(out@ =~= start + self.wire());
    }
}

impl JsonWire for PairConfig {
    open spec fn wire(&self) -> Seq<char> {
        object(seq![
            member("code_id"@, self.code_id.wire()),
            member("pair_type"@, self.pair_type.wire()),
            member("total_fee_bps"@, self.total_fee_bps.wire()),
            member("maker_fee_bps"@, self.maker_fee_bps.wire()),
            member("is_disabled"@, self.is_disabled.wire()),
            member("is_generator_disabled"@, self.is_generator_disabled.wire()),
            member("permissioned"@, self.permissioned.wire()),
            member("whitelist"@, self.whitelist.wire()),
        ])
    }

    fn write_wire(&self, out: &mut String) {
        let ghost start = out@;
        let ghost mut ms: Seq<Seq<char>> = seq![];
        begin_object(out);
        write_member(out, Ghost(start), Ghost(ms), true, "code_id", &self.code_id);
        proof {
            ms = ms.push(member("code_id"@, self.code_id.wire()));
        }
        write_member(out, Ghost(start), Ghost(ms), false, "pair_type", &self.pair_type);
        proof {
            ms = ms.push(member("pair_type"@, self.pair_type.wire()));
        }
        write_member(out, Ghost(start), Ghost(ms), false, "total_fee_bps", &self.total_fee_bps);
        proof {
            ms = ms.push(member("total_fee_bps"@, self.total_fee_bps.wire()));
        }
        write_member(out, Ghost(start), Ghost(ms), false, "maker_fee_bps", &self.maker_fee_bps);
        proof {
            ms = ms.push(member("maker_fee_bps"@, self.maker_fee_bps.wire()));
        }
        write_member(out, Ghost(start), Ghost(ms), false, "is_disabled", &self.is_disabled);
        proof {
            ms = ms.push(member("is_disabled"@, self.is_disabled.wire()));
        }
        write_member(
            out,
            Ghost(start),
            Ghost(ms),
            false,
            "is_generator_disabled",
            &self.is_generator_disabled,
        );
        proof {
            ms = ms.push(member("is_generator_disabled"@, self.is_generator_disabled.wire()));
        }
        write_member(out, Ghost(start), Ghost(ms), false, "permissioned", &self.permissioned);
        proof {
            ms = ms.push(member("permissioned"@, self.permissioned.wire()));
        }
        write_member(out, Ghost(start), Ghost(ms), false, "whitelist", &self.whitelist);
        proof {
            ms = ms.push(member("whitelist"@, self.whitelist.wire()));
        }
        end_object(out, Ghost(start), Ghost(ms));
        assert(ms =~= seq![
            member("code_id"@, self.code_id.wire()),
            member("pair_type"@, self.pair_type.wire()),
            member("total_fee_bps"@, self.total_fee_bps.wire()),
            member("maker_fee_bps"@, self.maker_fee_bps.wire()),
            member("is_disabled"@, self.is_disabled.wire()),
            member("is_generator_disabled"@, self.is_generator_disabled.wire()),
            member("permissioned"@, self.permissioned.wire()),
            member("whitelist"@, self.whitelist.wire()),
        ]);
        assert(out@ =~= start + self.wire());
    }
}

impl WireUnique for PairType {
    open spec fn same(&self, other: &Self) -> bool {
        match (self, other) {
            (PairType::Xyk {}, PairType::Xyk {}) => true,
            (PairType::Stable {}, PairType::Stable {}) => true,
            (PairType::Custom(x), PairType::Custom(o_x)) => x.same(o_x),
            _ => false,
        }
    }

    proof fn lemma_wire_shape(&self) {
    }

    #[verifier::spinoff_prover]
    #[verifier::rlimit(40)]
    proof fn lemma_wire_unique(&self, other: &Self, r1: Seq<char>, r2: Seq<char>) {
        reveal_strlit("xyk");
        reveal_strlit("stable");
        reveal_strlit("custom");
        assert(self.wire() == tagged(self.wire_tag(), self.wire_body()));
        assert(other.wire() == tagged(other.wire_tag(), other.wire_body()));
        assert(quote_free(self.wire_tag()));
        assert(quote_free(other.wire_tag()));
        lemma_tag_unique(
            self.wire_tag(),
            self.wire_body(),
            other.wire_tag(),
            other.wire_body(),
            r1,
            r2,
        );
        match self {
            PairType::Xyk {} => match other {
                PairType::Xyk {} => {
                    lemma_cancel_prefix(self.wire(), r1, r2);
                },
                _ => {
                    assert(self.wire_tag()[0] == other.wire_tag()[0]);
                    assert(self.wire_tag()[1] == other.wire_tag()[1]);
                },
            },
            PairType::Stable {} => match other {
                PairType::Stable {} => {
                    lemma_cancel_prefix(self.wire(), r1, r2);
                },
                _ => {
                    assert(self.wire_tag()[0] == other.wire_tag()[0]);
                    assert(self.wire_tag()[1] == other.wire_tag()[1]);
                },
            },
            PairType::Custom(x) => match other {
                PairType::Custom(o_x) => {
                    lemma_readable(x, o_x);
                    lemma_tagged_unique("custom"@, x.wire(), o_x.wire(), r1, r2);
                    lemma_wire_injective(x, o_x);
                },
                _ => {
                    assert(self.wire_tag()[0] == other.wire_tag()[0]);
                    assert(self.wire_tag()[1] == other.wire_tag()[1]);
                },
            },
        }
    }
}

impl WireValue for PairType {
    proof fn lemma_not_null(&self) {
    }
}

impl WireUnique for PairConfig {
    open spec fn same(&self, other: &Self) -> bool {
        &&& self.code_id.same(&other.code_id)
        &&& self.pair_type.same(&other.pair_type)
        &&& self.total_fee_bps.same(&other.total_fee_bps)
        &&& self.maker_fee_bps.same(&other.maker_fee_bps)
        &&& self.is_disabled.same(&other.is_disabled)
        &&& self.is_generator_disabled.same(&other.is_generator_disabled)
        &&& self.permissioned.same(&other.permissioned)
        &&& self.whitelist.same(&other.whitelist)
    }

    proof fn lemma_wire_shape(&self) {
    }

    proof fn lemma_wire_unique(&self, other: &Self, r1: Seq<char>, r2: Seq<char>) {
        let ks = seq![
            "code_id"@,
            "pair_type"@,
            "total_fee_bps"@,
            "maker_fee_bps"@,
            "is_disabled"@,
            "is_generator_disabled"@,
            "permissioned"@,
            "whitelist"@,
        ];
        let vs = seq![
            self.code_id.wire(),
            self.pair_type.wire(),
            self.total_fee_bps.wire(),
            self.maker_fee_bps.wire(),
            self.is_disabled.wire(),
            self.is_generator_disabled.wire(),
            self.permissioned.wire(),
            self.whitelist.wire(),
        ];
        let ws = seq![
            other.code_id.wire(),
            other.pair_type.wire(),
            other.total_fee_bps.wire(),
            other.maker_fee_bps.wire(),
            other.is_disabled.wire(),
            other.is_generator_disabled.wire(),
            other.permissioned.wire(),
            other.whitelist.wire(),
        ];
        lemma_readable(&self.code_id, &other.code_id);
        lemma_readable(&self.pair_type, &other.pair_type);
        lemma_readable(&self.total_fee_bps, &other.total_fee_bps);
        lemma_readable(&self.maker_fee_bps, &other.maker_fee_bps);
        lemma_readable(&self.is_disabled, &other.is_disabled);
        lemma_readable(&self.is_generator_disabled, &other.is_generator_disabled);
        lemma_readable(&self.permissioned, &other.permissioned);
        lemma_readable(&self.whitelist, &other.whitelist);
        assert forall|i: int|
            0 <= i < ks.len() implies #[trigger] readable(vs[i], ws[i]) by {
            if i == 0 {
            } else if i == 1 {
            } else if i == 2 {
            } else if i == 3 {
            } else if i == 4 {
            } else if i == 5 {
            } else if i == 6 {
            } else if i == 7 {
            }
        }
        assert(members(ks, vs) =~= seq![
            member("code_id"@, self.code_id.wire()),
            member("pair_type"@, self.pair_type.wire()),
            member("total_fee_bps"@, self.total_fee_bps.wire()),
            member("maker_fee_bps"@, self.maker_fee_bps.wire()),
            member("is_disabled"@, self.is_disabled.wire()),
            member("is_generator_disabled"@, self.is_generator_disabled.wire()),
            member("permissioned"@, self.permissioned.wire()),
            member("whitelist"@, self.whitelist.wire()),
        ]);
        assert(members(ks, ws) =~= seq![
            member("code_id"@, other.code_id.wire()),
            member("pair_type"@, other.pair_type.wire()),
            member("total_fee_bps"@, other.total_fee_bps.wire()),
            member("maker_fee_bps"@, other.maker_fee_bps.wire()),
            member("is_disabled"@, other.is_disabled.wire()),
            member("is_generator_disabled"@, other.is_generator_disabled.wire()),
            member("permissioned"@, other.permissioned.wire()),
            member("whitelist"@, other.whitelist.wire()),
        ]);
        lemma_object_unique(ks, vs, ws, r1, r2);
        assert(vs[0] == ws[0]);
        lemma_wire_injective(&self.code_id, &other.code_id);
        assert(vs[1] == ws[1]);
        lemma_wire_injective(&self.pair_type, &other.pair_type);
        assert(vs[2] == ws[2]);
        lemma_wire_injective(&self.total_fee_bps, &other.total_fee_bps);
        assert(vs[3] == ws[3]);
        lemma_wire_injective(&self.maker_fee_bps, &other.maker_fee_bps);
        assert(vs[4] == ws[4]);
        lemma_wire_injective(&self.is_disabled, &other.is_disabled);
        assert(vs[5] == ws[5]);
        lemma_wire_injective(&self.is_generator_disabled, &other.is_generator_disabled);
        assert(vs[6] == ws[6]);
        lemma_wire_injective(&self.permissioned, &other.permissioned);
        assert(vs[7] == ws[7]);
        lemma_wire_injective(&self.whitelist, &other.whitelist);
    }
}

impl WireValue for PairConfig {
    proof fn lemma_not_null(&self) {
    }
}

impl ExecuteMsg {
    /// The name of the variant on the wire.
    pub open spec fn wire_tag(&self) -> Seq<char> {
        match self {
            ExecuteMsg::CreatePair { .. } => "create_pair"@,
        }
    }

    /// The data of the variant on the wire.
    pub open spec fn wire_body(&self) -> Seq<char> {
        match self {
            ExecuteMsg::CreatePair {
                pair_type,
                asset_infos,
                init_params,
            } => object(seq![
                member("pair_type"@, pair_type.wire()),
                member("asset_infos"@, asset_infos.wire()),
                member("init_params"@, init_params.wire()),
            ]),
        }
    }
}

impl JsonWire for ExecuteMsg {
    open spec fn wire(&self) -> Seq<char> {
        tagged(self.wire_tag(), self.wire_body())
    }

    fn write_wire(&self, out: &mut String) {
        let ghost start = out@;
        match self {
            ExecuteMsg::CreatePair {
                pair_type,
                asset_infos,
                init_params,
            } => {
                write_tag(out, "create_pair");
                let ghost inner = out@;
                let ghost mut ms: Seq<Seq<char>> = seq![];
                begin_object(out);
                write_member(out, Ghost(inner), Ghost(ms), true, "pair_type", pair_type);
                proof {
                    ms = ms.push(member("pair_type"@, pair_type.wire()));
                }
                write_member(out, Ghost(inner), Ghost(ms), false, "asset_infos", asset_infos);
                proof {
                    ms = ms.push(member("asset_infos"@, asset_infos.wire()));
                }
                write_member(out, Ghost(inner), Ghost(ms), false, "init_params", init_params);
                proof {
                    ms = ms.push(member("init_params"@, init_params.wire()));
                }
                end_object(out, Ghost(inner), Ghost(ms));
                assert(ms =~= seq![
                    member("pair_type"@, pair_type.wire()),
                    member("asset_infos"@, asset_infos.wire()),
                    member("init_params"@, init_params.wire()),
                ]);
                out.push('}');
                proof {
                    lemma_tagged(
                        "create_pair"@,
                        object(seq![
                            member("pair_type"@, pair_type.wire()),
                            member("asset_infos"@, asset_infos.wire()),
                            member("init_params"@, init_params.wire()),
                        ]),
                    );
                }
            },
        }
        assert(out@ =~= start + self.wire());
    }
}

impl WireUnique for ExecuteMsg {
    open spec fn same(&self, other: &Self) -> bool {
        match (self, other) {
            (ExecuteMsg::CreatePair {
                pair_type,
                asset_infos,
                init_params,
            }, ExecuteMsg::CreatePair {
                pair_type: o_pair_type,
                asset_infos: o_asset_infos,
                init_params: o_init_params,
            }) => {
                &&& pair_type.same(o_pair_type)
                &&& asset_infos.same(o_asset_infos)
                &&& init_params.same(o_init_params)
            },
        }
    }

    proof fn lemma_wire_shape(&self) {
    }

    #[verifier::spinoff_prover]
    #[verifier::rlimit(40)]
    proof fn lemma_wire_unique(&self, other: &Self, r1: Seq<char>, r2: Seq<char>) {
        reveal_strlit("create_pair");
        assert(self.wire() == tagged(self.wire_tag(), self.wire_body()));
        assert(other.wire() == tagged(other.wire_tag(), other.wire_body()));
        assert(quote_free(self.wire_tag()));
        assert(quote_free(other.wire_tag()));
        lemma_tag_unique(
            self.wire_tag(),
            self.wire_body(),
            other.wire_tag(),
            other.wire_body(),
            r1,
            r2,
        );
        match self {
            ExecuteMsg::CreatePair {
                pair_type,
                asset_infos,
                init_params,
            } => match other {
                ExecuteMsg::CreatePair {
                    pair_type: o_pair_type,
                    asset_infos: o_asset_infos,
                    init_params: o_init_params,
                } => {
                    let ks = seq!["pair_type"@, "asset_infos"@, "init_params"@];
                    let vs = seq![pair_type.wire(), asset_infos.wire(), init_params.wire()];
                    let ws = seq![o_pair_type.wire(), o_asset_infos.wire(), o_init_params.wire()];
                    lemma_readable(pair_type, o_pair_type);
                    lemma_readable(asset_infos, o_asset_infos);
                    lemma_readable(init_params, o_init_params);
                    assert forall|i: int|
                        0 <= i < ks.len() implies #[trigger] readable(vs[i], ws[i]) by {
                        if i == 0 {
                        } else if i == 1 {
                        } else if i == 2 {
                        }
                    }
                    assert(members(ks, vs) =~= seq![
                        member("pair_type"@, pair_type.wire()),
                        member("asset_infos"@, asset_infos.wire()),
                        member("init_params"@, init_params.wire()),
                    ]);
                    assert(members(ks, ws) =~= seq![
                        member("pair_type"@, o_pair_type.wire()),
                        member("asset_infos"@, o_asset_infos.wire()),
                        member("init_params"@, o_init_params.wire()),
                    ]);
                    lemma_object_readable(ks, vs, ws);
                    let bv = object(members(ks, vs));
                    let bw = object(members(ks, ws));
                    lemma_tagged_unique("create_pair"@, bv, bw, r1, r2);
                    let empty = Seq::<char>::empty();
                    assert(bv + empty =~= bv);
                    assert(bw + empty =~= bw);
                    lemma_object_unique(ks, vs, ws, empty, empty);
                    assert(vs[0] == ws[0]);
                    lemma_wire_injective(pair_type, o_pair_type);
                    assert(vs[1] == ws[1]);
                    lemma_wire_injective(asset_infos, o_asset_infos);
                    assert(vs[2] == ws[2]);
                    lemma_wire_injective(init_params, o_init_params);
                },
            },
        }
    }
}

impl WireValue for ExecuteMsg {
    proof fn lemma_not_null(&self) {
    }
}

/// The wire text of every `PairType`: an object whose one key is the variant's
/// snake-case name, holding the variant's fields as an object with one member
/// per field, in declaration order, each under its own name (a tuple variant
/// holds the text of its one value).
pub proof fn lemma_pair_type_text(v: PairType)
    ensures
        v matches PairType::Xyk {} ==> v.wire() == tagged("xyk"@, object(seq![])),
        v matches PairType::Stable {} ==> v.wire() == tagged("stable"@, object(seq![])),
        v matches PairType::Custom(x) ==> v.wire() == tagged("custom"@, x.wire()),
{
}

/// The wire text of every `PairConfig`: a JSON object with one member per field,
/// in declaration order, each holding the text of its own field under that
/// field's name.
pub proof fn lemma_pair_config_text(v: PairConfig)
    ensures
        v.wire() == object(seq![
            member("code_id"@, v.code_id.wire()),
            member("pair_type"@, v.pair_type.wire()),
            member("total_fee_bps"@, v.total_fee_bps.wire()),
            member("maker_fee_bps"@, v.maker_fee_bps.wire()),
            member("is_disabled"@, v.is_disabled.wire()),
            member("is_generator_disabled"@, v.is_generator_disabled.wire()),
            member("permissioned"@, v.permissioned.wire()),
            member("whitelist"@, v.whitelist.wire()),
        ]),
{
}

/// The wire text of every `ExecuteMsg`: an object whose one key is the variant's
/// snake-case name, holding the variant's fields as an object with one member
/// per field, in declaration order, each under its own name (a tuple variant
/// holds the text of its one value).
pub proof fn lemma_execute_msg_text(v: ExecuteMsg)
    ensures
        v matches ExecuteMsg::CreatePair {
            pair_type,
            asset_infos,
            init_params,
        } ==> v.wire() == tagged(
            "create_pair"@,
            object(seq![
                member("pair_type"@, pair_type.wire()),
                member("asset_infos"@, asset_infos.wire()),
                member("init_params"@, init_params.wire()),
            ]),
        ),
{
}

} // verus!
