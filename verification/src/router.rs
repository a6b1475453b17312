//! Router wire types: the swap operations of a multi-hop route and the
//! message that executes them in order.
use vstd::prelude::*;
use crate::asset::AssetInfo;
use crate::primitives::Decimal;
use crate::unambiguous::{
    lemma_object_readable, lemma_object_unique, lemma_readable, lemma_wire_injective,
    lemma_tag_unique, lemma_tagged_unique, members, quote_free, readable, WireUnique, WireValue,
};
use crate::wire::{
    begin_object, end_object, lemma_tagged, member, object, tagged, write_member, write_tag,
    JsonWire,
};

verus! {

/// One hop of a route: a swap between two native denoms on the chain's own
/// market, or a swap through an Astroport pair of the two assets.
#[derive(Clone, Debug, PartialEq, Eq)]
pub enum SwapOperation {
    NativeSwap { offer_denom: String, ask_denom: String },
    AstroSwap { offer_asset_info: AssetInfo, ask_asset_info: AssetInfo },
}

/// Messages that the router executes. `ExecuteSwapOperations` performs the
/// hops in order and checks the amount finally received.
#[derive(Clone, Debug, PartialEq, Eq)]
pub enum ExecuteMsg {
    ExecuteSwapOperations {
        operations: Vec<SwapOperation>,
        /// The least amount of the last ask asset that must be received.
        minimum_receive: Option<u128>,
        /// Recipient of the proceeds; the sender when absent.
        to: Option<String>,
        max_spread: Option<Decimal>,
    },
}

impl SwapOperation {
    /// The name of the variant on the wire.
    pub open spec fn wire_tag(&self) -> Seq<char> {
        match self {
            SwapOperation::NativeSwap { .. } => "native_swap"@,
            SwapOperation::AstroSwap { .. } => "astro_swap"@,
        }
    }

    /// The data of the variant on the wire.
    pub open spec fn wire_body(&self) -> Seq<char> {
        match self {
            SwapOperation::NativeSwap { offer_denom, ask_denom } => object(seq![
                member("offer_denom"@, offer_denom.wire()),
                member("ask_denom"@, ask_denom.wire()),
            ]),
            SwapOperation::AstroSwap {
                offer_asset_info,
                ask_asset_info,
            } => object(seq![
                member("offer_asset_info"@, offer_asset_info.wire()),
                member("ask_asset_info"@, ask_asset_info.wire()),
            ]),
        }
    }
}

impl JsonWire for SwapOperation {
    open spec fn wire(&self) -> Seq<char> {
        tagged(self.wire_tag(), self.wire_body())
    }

    fn write_wire(&self, out: &mut String) {
        let ghost start = out@;
        match self {
            SwapOperation::NativeSwap { offer_denom, ask_denom } => {
                write_tag(out, "native_swap");
                let ghost inner = out@;
                let ghost mut ms: Seq<Seq<char>> = seq![];
                begin_object(out);
                write_member(out, Ghost(inner), Ghost(ms), true, "offer_denom", offer_denom);
                proof {
                    ms = ms.push(member("offer_denom"@, offer_denom.wire()));
                }
                write_member(out, Ghost(inner), Ghost(ms), false, "ask_denom", ask_denom);
                proof {
                    ms = ms.push(member("ask_denom"@, ask_denom.wire()));
                }
                end_object(out, Ghost(inner), Ghost(ms));
                assert(ms =~= seq![
                    member("offer_denom"@, offer_denom.wire()),
                    member("ask_denom"@, ask_denom.wire()),
                ]);
                out.push('}');
                proof {
                    lemma_tagged(
                        "native_swap"@,
                        object(seq![
                            member("offer_denom"@, offer_denom.wire()),
                            member("ask_denom"@, ask_denom.wire()),
                        ]),
                    );
                }
            },
            SwapOperation::AstroSwap {
                offer_asset_info,
                ask_asset_info,
            } => {
                write_tag(out, "astro_swap");
                let ghost inner = out@;
                let ghost mut ms: Seq<Seq<char>> = seq![];
                begin_object(out);
                write_member(
                    out,
                    Ghost(inner),
                    Ghost(ms),
                    true,
                    "offer_asset_info",
                    offer_asset_info,
                );
                proof {
                    ms = ms.push(member("offer_asset_info"@, offer_asset_info.wire()));
                }
                write_member(out, Ghost(inner), Ghost(ms), false, "ask_asset_info", ask_asset_info);
                proof {
                    ms = ms.push(member("ask_asset_info"@, ask_asset_info.wire()));
                }
                end_object(out, Ghost(inner), Ghost(ms));
                assert(ms =~= seq![
                    member("offer_asset_info"@, offer_asset_info.wire()),
                    member("ask_asset_info"@, ask_asset_info.wire()),
                ]);
                out.push('}');
                proof {
                    lemma_tagged(
                        "astro_swap"@,
                        object(seq![
                            member("offer_asset_info"@, offer_asset_info.wire()),
                            member("ask_asset_info"@, ask_asset_info.wire()),
                        ]),
                    );
                }
            },
        }
        assert(out@ =~= start + self.wire());
    }
}

impl ExecuteMsg {
    /// The name of the variant on the wire.
    pub open spec fn wire_tag(&self) -> Seq<char> {
        match self {
            ExecuteMsg::ExecuteSwapOperations { .. } => "execute_swap_operations"@,
        }
    }

    /// The data of the variant on the wire.
    pub open spec fn wire_body(&self) -> Seq<char> {
        match self {
            ExecuteMsg::ExecuteSwapOperations {
                operations,
                minimum_receive,
                to,
                max_spread,
            } => object(seq![
                member("operations"@, operations.wire()),
                member("minimum_receive"@, minimum_receive.wire()),
                member("to"@, to.wire()),
                member("max_spread"@, max_spread.wire()),
            ]),
        }
    }
}

impl JsonWire for ExecuteMsg {
    open spec fn wire(&self) -> Seq<char> {
        tagged(self.wire_tag(), self.wire_body())
    }

    fn write_wire(&self, out: &mut String) {
        let ghost start = out@;
        match self {
            ExecuteMsg::ExecuteSwapOperations {
                operations,
                minimum_receive,
                to,
                max_spread,
            } => {
                write_tag(out, "execute_swap_operations");
                let ghost inner = out@;
                let ghost mut ms: Seq<Seq<char>> = seq![];
                begin_object(out);
                write_member(out, Ghost(inner), Ghost(ms), true, "operations", operations);
                proof {
                    ms = ms.push(member("operations"@, operations.wire()));
                }
                write_member(
                    out,
                    Ghost(inner),
                    Ghost(ms),
                    false,
                    "minimum_receive",
                    minimum_receive,
                );
                proof {
                    ms = ms.push(member("minimum_receive"@, minimum_receive.wire()));
                }
                write_member(out, Ghost(inner), Ghost(ms), false, "to", to);
                proof {
                    ms = ms.push(member("to"@, to.wire()));
                }
                write_member(out, Ghost(inner), Ghost(ms), false, "max_spread", max_spread);
                proof {
                    ms = ms.push(member("max_spread"@, max_spread.wire()));
                }
                end_object(out, Ghost(inner), Ghost(ms));
                assert(ms =~= seq![
                    member("operations"@, operations.wire()),
                    member("minimum_receive"@, minimum_receive.wire()),
                    member("to"@, to.wire()),
                    member("max_spread"@, max_spread.wire()),
                ]);
                out.push('}');
                proof {
                    lemma_tagged(
                        "execute_swap_operations"@,
                        object(seq![
                            member("operations"@, operations.wire()),
                            member("minimum_receive"@, minimum_receive.wire()),
                            member("to"@, to.wire()),
                            member("max_spread"@, max_spread.wire()),
                        ]),
                    );
                }
            },
        }
        assert(out@ =~= start + self.wire());
    }
}

impl WireUnique for SwapOperation {
    open spec fn same(&self, other: &Self) -> bool {
        match (self, other) {
            (SwapOperation::NativeSwap { offer_denom, ask_denom }, SwapOperation::NativeSwap {
                offer_denom: o_offer_denom,
                ask_denom: o_ask_denom,
            }) => {
                &&& offer_denom.same(o_offer_denom)
                &&& ask_denom.same(o_ask_denom)
            },
            (SwapOperation::AstroSwap {
                offer_asset_info,
                ask_asset_info,
            }, SwapOperation::AstroSwap {
                offer_asset_info: o_offer_asset_info,
                ask_asset_info: o_ask_asset_info,
            }) => {
                &&& offer_asset_info.same(o_offer_asset_info)
                &&& ask_asset_info.same(o_ask_asset_info)
            },
            _ => false,
        }
    }

    proof fn lemma_wire_shape(&self) {
    }

    #[verifier::spinoff_prover]
    #[verifier::rlimit(40)]
    proof fn lemma_wire_unique(&self, other: &Self, r1: Seq<char>, r2: Seq<char>) {
        reveal_strlit("native_swap");
        reveal_strlit("astro_swap");
        assert(self.wire() == tagged(self.wire_tag(), self.wire_body()));
        assert(other.wire() == tagged(other.wire_tag(), other.wire_body()));
        assert(quote_free(self.wire_tag()));
        assert(quote_free(other.wire_tag()));
        lemma_tag_unique(
            self.wire_tag(),
            self.wire_body(),
            other.wire_tag(),
            other.wire_body(),
            r1,
            r2,
        );
        match self {
            SwapOperation::NativeSwap { offer_denom, ask_denom } => match other {
                SwapOperation::NativeSwap {
                    offer_denom: o_offer_denom,
                    ask_denom: o_ask_denom,
                } => {
                    let ks = seq!["offer_denom"@, "ask_denom"@];
                    let vs = seq![offer_denom.wire(), ask_denom.wire()];
                    let ws = seq![o_offer_denom.wire(), o_ask_denom.wire()];
                    lemma_readable(offer_denom, o_offer_denom);
                    lemma_readable(ask_denom, o_ask_denom);
                    assert forall|i: int|
                        0 <= i < ks.len() implies #[trigger] readable(vs[i], ws[i]) by {
                        if i == 0 {
                        } else if i == 1 {
                        }
                    }
                    assert(members(ks, vs) =~= seq![
                        member("offer_denom"@, offer_denom.wire()),
                        member("ask_denom"@, ask_denom.wire()),
                    ]);
                    assert(members(ks, ws) =~= seq![
                        member("offer_denom"@, o_offer_denom.wire()),
                        member("ask_denom"@, o_ask_denom.wire()),
                    ]);
                    lemma_object_readable(ks, vs, ws);
                    let bv = object(members(ks, vs));
                    let bw = object(members(ks, ws));
                    lemma_tagged_unique("native_swap"@, bv, bw, r1, r2);
                    let empty = Seq::<char>::empty();
                    assert(bv + empty =~= bv);
                    assert(bw + empty =~= bw);
                    lemma_object_unique(ks, vs, ws, empty, empty);
                    assert(vs[0] == ws[0]);
                    lemma_wire_injective(offer_denom, o_offer_denom);
                    assert(vs[1] == ws[1]);
                    lemma_wire_injective(ask_denom, o_ask_denom);
                },
                _ => {
                    assert(self.wire_tag()[0] == other.wire_tag()[0]);
                    assert(self.wire_tag()[1] == other.wire_tag()[1]);
                },
            },
            SwapOperation::AstroSwap {
                offer_asset_info,
                ask_asset_info,
            } => match other {
                SwapOperation::AstroSwap {
                    offer_asset_info: o_offer_asset_info,
                    ask_asset_info: o_ask_asset_info,
                } => {
                    let ks = seq!["offer_asset_info"@, "ask_asset_info"@];
                    let vs = seq![offer_asset_info.wire(), ask_asset_info.wire()];
                    let ws = seq![o_offer_asset_info.wire(), o_ask_asset_info.wire()];
                    lemma_readable(offer_asset_info, o_offer_asset_info);
                    lemma_readable(ask_asset_info, o_ask_asset_info);
                    assert forall|i: int|
                        0 <= i < ks.len() implies #[trigger] readable(vs[i], ws[i]) by {
                        if i == 0 {
                        } else if i == 1 {
                        }
                    }
                    assert(members(ks, vs) =~= seq![
                        member("offer_asset_info"@, offer_asset_info.wire()),
                        member("ask_asset_info"@, ask_asset_info.wire()),
                    ]);
                    assert(members(ks, ws) =~= seq![
                        member("offer_asset_info"@, o_offer_asset_info.wire()),
                        member("ask_asset_info"@, o_ask_asset_info.wire()),
                    ]);
                    lemma_object_readable(ks, vs, ws);
                    let bv = object(members(ks, vs));
                    let bw = object(members(ks, ws));
                    lemma_tagged_unique("astro_swap"@, bv, bw, r1, r2);
                    let empty = Seq::<char>::empty();
                    assert(bv + empty =~= bv);
                    assert(bw + empty =~= bw);
                    lemma_object_unique(ks, vs, ws, empty, empty);
                    assert(vs[0] == ws[0]);
                    lemma_wire_injective(offer_asset_info, o_offer_asset_info);
                    assert(vs[1] == ws[1]);
                    lemma_wire_injective(ask_asset_info, o_ask_asset_info);
                },
                _ => {
                    assert(self.wire_tag()[0] == other.wire_tag()[0]);
                    assert(self.wire_tag()[1] == other.wire_tag()[1]);
                },
            },
        }
    }
}

impl WireValue for SwapOperation {
    proof fn lemma_not_null(&self) {
    }
}

impl WireUnique for ExecuteMsg {
    open spec fn same(&self, other: &Self) -> bool {
        match (self, other) {
            (ExecuteMsg::ExecuteSwapOperations {
                operations,
                minimum_receive,
                to,
                max_spread,
            }, ExecuteMsg::ExecuteSwapOperations {
                operations: o_operations,
                minimum_receive: o_minimum_receive,
                to: o_to,
                max_spread: o_max_spread,
            }) => {
                &&& operations.same(o_operations)
                &&& minimum_receive.same(o_minimum_receive)
                &&& to.same(o_to)
                &&& max_spread.same(o_max_spread)
            },
        }
    }

    proof fn lemma_wire_shape(&self) {
    }

    #[verifier::spinoff_prover]
    #[verifier::rlimit(40)]
    proof fn lemma_wire_unique(&self, other: &Self, r1: Seq<char>, r2: Seq<char>) {
        reveal_strlit("execute_swap_operations");
        assert(self.wire() == tagged(self.wire_tag(), self.wire_body()));
        assert(other.wire() == tagged(other.wire_tag(), other.wire_body()));
        assert(quote_free(self.wire_tag()));
        assert(quote_free(other.wire_tag()));
        lemma_tag_unique(
            self.wire_tag(),
            self.wire_body(),
            other.wire_tag(),
            other.wire_body(),
            r1,
            r2,
        );
        match self {
            ExecuteMsg::ExecuteSwapOperations {
                operations,
                minimum_receive,
                to,
                max_spread,
            } => match other {
                ExecuteMsg::ExecuteSwapOperations {
                    operations: o_operations,
                    minimum_receive: o_minimum_receive,
                    to: o_to,
                    max_spread: o_max_spread,
                } => {
                    let ks = seq!["operations"@, "minimum_receive"@, "to"@, "max_spread"@];
                    let vs = seq![
                        operations.wire(),
                        minimum_receive.wire(),
                        to.wire(),
                        max_spread.wire(),
                    ];
                    let ws = seq![
                        o_operations.wire(),
                        o_minimum_receive.wire(),
                        o_to.wire(),
                        o_max_spread.wire(),
                    ];
                    lemma_readable(operations, o_operations);
                    lemma_readable(minimum_receive, o_minimum_receive);
                    lemma_readable(to, o_to);
                    lemma_readable(max_spread, o_max_spread);
                    assert forall|i: int|
                        0 <= i < ks.len() implies #[trigger] readable(vs[i], ws[i]) by {
                        if i == 0 {
                        } else if i == 1 {
                        } else if i == 2 {
                        } else if i == 3 {
                        }
                    }
                    assert(members(ks, vs) =~= seq![
                        member("operations"@, operations.wire()),
                        member("minimum_receive"@, minimum_receive.wire()),
                        member("to"@, to.wire()),
                        member("max_spread"@, max_spread.wire()),
                    ]);
                    assert(members(ks, ws) =~= seq![
                        member("operations"@, o_operations.wire()),
                        member("minimum_receive"@, o_minimum_receive.wire()),
                        member("to"@, o_to.wire()),
                        member("max_spread"@, o_max_spread.wire()),
                    ]);
                    lemma_object_readable(ks, vs, ws);
                    let bv = object(members(ks, vs));
                    let bw = object(members(ks, ws));
                    lemma_tagged_unique("execute_swap_operations"@, bv, bw, r1, r2);
                    let empty = Seq::<char>::empty();
                    assert(bv + empty =~= bv);
                    assert(bw + empty =~= bw);
                    lemma_object_unique(ks, vs, ws, empty, empty);
                    assert(vs[0] == ws[0]);
                    lemma_wire_injective(operations, o_operations);
                    assert(vs[1] == ws[1]);
                    lemma_wire_injective(minimum_receive, o_minimum_receive);
                    assert(vs[2] == ws[2]);
                    lemma_wire_injective(to, o_to);
                    assert(vs[3] == ws[3]);
                    lemma_wire_injective(max_spread, o_max_spread);
                },
            },
        }
    }
}

impl WireValue for ExecuteMsg {
    proof fn lemma_not_null(&self) {
    }
}

/// The wire text of every `SwapOperation`: an object whose one key is the variant's
/// snake-case name, holding the variant's fields as an object with one member
/// per field, in declaration order, each under its own name (a tuple variant
/// holds the text of its one value).
pub proof fn lemma_swap_operation_text(v: SwapOperation)
    ensures
        v matches SwapOperation::NativeSwap { offer_denom, ask_denom } ==> v.wire() == tagged(
            "native_swap"@,
            object(seq![
                member("offer_denom"@, offer_denom.wire()),
                member("ask_denom"@, ask_denom.wire()),
            ]),
        ),
        v matches SwapOperation::AstroSwap {
            offer_asset_info,
            ask_asset_info,
        } ==> v.wire() == tagged(
            "astro_swap"@,
            object(seq![
                member("offer_asset_info"@, offer_asset_info.wire()),
                member("ask_asset_info"@, ask_asset_info.wire()),
            ]),
        ),
{
}

/// The wire text of every `ExecuteMsg`: an object whose one key is the variant's
/// snake-case name, holding the variant's fields as an object with one member
/// per field, in declaration order, each under its own name (a tuple variant
/// holds the text of its one value).
pub proof fn lemma_execute_msg_text(v: ExecuteMsg)
    ensures
        v matches ExecuteMsg::ExecuteSwapOperations {
            operations,
            minimum_receive,
            to,
            max_spread,
        } ==> v.wire() == tagged(
            "execute_swap_operations"@,
            object(seq![
                member("operations"@, operations.wire()),
                member("minimum_receive"@, minimum_receive.wire()),
                member("to"@, to.wire()),
                member("max_spread"@, max_spread.wire()),
            ]),
        ),
{
}

} // verus!
