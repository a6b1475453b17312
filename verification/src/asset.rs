//! Assets: a token (cw20 contract or native denom) and an amount of it.
use vstd::prelude::*;
use crate::unambiguous::{
    lemma_object_readable, lemma_object_unique, lemma_readable, lemma_wire_injective,
    lemma_tag_unique, lemma_tagged_unique, members, quote_free, readable, WireUnique, WireValue,
};
use crate::wire::{
    begin_object, end_object, lemma_tagged, member, object, tagged, write_member, write_tag,
    JsonWire,
};

verus! {

/// A cw20 token by its contract address, or a native token by its denom.
#[derive(Clone, Debug, PartialEq, Eq)]
pub enum AssetInfo {
    Token { contract_addr: String },
    NativeToken { denom: String },
}

/// An amount of a token.
#[derive(Clone, Debug, PartialEq, Eq)]
pub struct Asset {
    pub info: AssetInfo,
    pub amount: u128,
}

impl AssetInfo {
    /// The name of the variant on the wire.
    pub open spec fn wire_tag(&self) -> Seq<char> {
        match self {
            AssetInfo::Token { .. } => "token"@,
            AssetInfo::NativeToken { .. } => "native_token"@,
        }
    }

    /// The data of the variant on the wire.
    pub open spec fn wire_body(&self) -> Seq<char> {
        match self {
            AssetInfo::Token { contract_addr } => object(seq![
                member("contract_addr"@, contract_addr.wire()),
            ]),
            AssetInfo::NativeToken { denom } => object(seq![member("denom"@, denom.wire())]),
        }
    }
}

impl JsonWire for AssetInfo {
    open spec fn wire(&self) -> Seq<char> {
        tagged(self.wire_tag(), self.wire_body())
    }

    fn write_wire(&self, out: &mut String) {
        let ghost start = out@;
        match self {
            AssetInfo::Token { contract_addr } => {
                write_tag(out, "token");
                let ghost inner = out@;
                let ghost mut ms: Seq<Seq<char>> = seq![];
                begin_object(out);
                write_member(out, Ghost(inner), Ghost(ms), true, "contract_addr", contract_addr);
                proof {
                    ms = ms.push(member("contract_addr"@, contract_addr.wire()));
                }
                end_object(out, Ghost(inner), Ghost(ms));
                assert(ms =~= seq![member("contract_addr"@, contract_addr.wire())]);
                out.push('}');
                proof {
                    lemma_tagged(
                        "token"@,
                        object(seq![member("contract_addr"@, contract_addr.wire())]),
                    );
                }
            },
            AssetInfo::NativeToken { denom } => {
                write_tag(out, "native_token");
                let ghost inner = out@;
                let ghost mut ms: Seq<Seq<char>> = seq![];
                begin_object(out);
                write_member(out, Ghost(inner), Ghost(ms), true, "denom", denom);
                proof {
                    ms = ms.push(member("denom"@, denom.wire()));
                }
                end_object(out, Ghost(inner), Ghost(ms));
                assert(ms =~= seq![member("denom"@, denom.wire())]);
                out.push('}');
                proof {
                    lemma_tagged("native_token"@, object(seq![member("denom"@, denom.wire())]));
                }
            },
        }
        assert(out@ =~= start + self.wire());
    }
}

impl JsonWire for Asset {
    open spec fn wire(&self) -> Seq<char> {
        object(seq![member("info"@, self.info.wire()), member("amount"@, self.amount.wire())])
    }

    fn write_wire(&self, out: &mut String) {
        let ghost start = out@;
        let ghost mut ms: Seq<Seq<char>> = seq![];
        begin_object(out);
        write_member(out, Ghost(start), Ghost(ms), true, "info", &self.info);
        proof {
            ms = ms.push(member("info"@, self.info.wire()));
        }
        write_member(out, Ghost(start), Ghost(ms), false, "amount", &self.amount);
        proof {
            ms = ms.push(member("amount"@, self.amount.wire()));
        }
        end_object(out, Ghost(start), Ghost(ms));
        assert(ms =~= seq![
            member("info"@, self.info.wire()),
            member("amount"@, self.amount.wire()),
        ]);
        assert(out@ =~= start + self.wire());
    }
}

impl WireUnique for AssetInfo {
    open spec fn same(&self, other: &Self) -> bool {
        match (self, other) {
            (
                AssetInfo::Token { contract_addr },
                AssetInfo::Token { contract_addr: o_contract_addr },
            ) => {
                &&& contract_addr.same(o_contract_addr)
            },
            (AssetInfo::NativeToken { denom }, AssetInfo::NativeToken { denom: o_denom }) => {
                &&& denom.same(o_denom)
            },
            _ => false,
        }
    }

    proof fn lemma_wire_shape(&self) {
    }

    #[verifier::spinoff_prover]
    #[verifier::rlimit(40)]
    proof fn lemma_wire_unique(&self, other: &Self, r1: Seq<char>, r2: Seq<char>) {
        reveal_strlit("token");
        reveal_strlit("native_token");
        assert(self.wire() == tagged(self.wire_tag(), self.wire_body()));
        assert(other.wire() == tagged(other.wire_tag(), other.wire_body()));
        assert(quote_free(self.wire_tag()));
        assert(quote_free(other.wire_tag()));
        lemma_tag_unique(
            self.wire_tag(),
            self.wire_body(),
            other.wire_tag(),
            other.wire_body(),
            r1,
            r2,
        );
        match self {
            AssetInfo::Token { contract_addr } => match other {
                AssetInfo::Token { contract_addr: o_contract_addr } => {
                    let ks = seq!["contract_addr"@];
                    let vs = seq![contract_addr.wire()];
                    let ws = seq![o_contract_addr.wire()];
                    lemma_readable(contract_addr, o_contract_addr);
                    assert forall|i: int|
                        0 <= i < ks.len() implies #[trigger] readable(vs[i], ws[i]) by {
                        if i == 0 {
                        }
                    }
                    assert(members(ks, vs) =~= seq![
                        member("contract_addr"@, contract_addr.wire()),
                    ]);
                    assert(members(ks, ws) =~= seq![
                        member("contract_addr"@, o_contract_addr.wire()),
                    ]);
                    lemma_object_readable(ks, vs, ws);
                    let bv = object(members(ks, vs));
                    let bw = object(members(ks, ws));
                    lemma_tagged_unique("token"@, bv, bw, r1, r2);
                    let empty = Seq::<char>::empty();
                    assert(bv + empty =~= bv);
                    assert(bw + empty =~= bw);
                    lemma_object_unique(ks, vs, ws, empty, empty);
                    assert(vs[0] == ws[0]);
                    lemma_wire_injective(contract_addr, o_contract_addr);
                },
                _ => {
                    assert(self.wire_tag()[0] == other.wire_tag()[0]);
                    assert(self.wire_tag()[1] == other.wire_tag()[1]);
                },
            },
            AssetInfo::NativeToken { denom } => match other {
                AssetInfo::NativeToken { denom: o_denom } => {
                    let ks = seq!["denom"@];
                    let vs = seq![denom.wire()];
                    let ws = seq![o_denom.wire()];
                    lemma_readable(denom, o_denom);
                    assert forall|i: int|
                        0 <= i < ks.len() implies #[trigger] readable(vs[i], ws[i]) by {
                        if i == 0 {
                        }
                    }
                    assert(members(ks, vs) =~= seq![member("denom"@, denom.wire())]);
                    assert(members(ks, ws) =~= seq![member("denom"@, o_denom.wire())]);
                    lemma_object_readable(ks, vs, ws);
                    let bv = object(members(ks, vs));
                    let bw = object(members(ks, ws));
                    lemma_tagged_unique("native_token"@, bv, bw, r1, r2);
                    let empty = Seq::<char>::empty();
                    assert(bv + empty =~= bv);
                    assert(bw + empty =~= bw);
                    lemma_object_unique(ks, vs, ws, empty, empty);
                    assert(vs[0] == ws[0]);
                    lemma_wire_injective(denom, o_denom);
                },
                _ => {
                    assert(self.wire_tag()[0] == other.wire_tag()[0]);
                    assert(self.wire_tag()[1] == other.wire_tag()[1]);
                },
            },
        }
    }
}

impl WireValue for AssetInfo {
    proof fn lemma_not_null(&self) {
    }
}

impl WireUnique for Asset {
    open spec fn same(&self, other: &Self) -> bool {
        &&& self.info.same(&other.info)
        &&& self.amount.same(&other.amount)
    }

    proof fn lemma_wire_shape(&self) {
    }

    proof fn lemma_wire_unique(&self, other: &Self, r1: Seq<char>, r2: Seq<char>) {
        let ks = seq!["info"@, "amount"@];
        let vs = seq![self.info.wire(), self.amount.wire()];
        let ws = seq![other.info.wire(), other.amount.wire()];
        lemma_readable(&self.info, &other.info);
        lemma_readable(&self.amount, &other.amount);
        assert forall|i: int|
            0 <= i < ks.len() implies #[trigger] readable(vs[i], ws[i]) by {
            if i == 0 {
            } else if i == 1 {
            }
        }
        assert(members(ks, vs) =~= seq![
            member("info"@, self.info.wire()),
            member("amount"@, self.amount.wire()),
        ]);
        assert(members(ks, ws) =~= seq![
            member("info"@, other.info.wire()),
            member("amount"@, other.amount.wire()),
        ]);
        lemma_object_unique(ks, vs, ws, r1, r2);
        assert(vs[0] == ws[0]);
        lemma_wire_injective(&self.info, &other.info);
        assert(vs[1] == ws[1]);
        lemma_wire_injective(&self.amount, &other.amount);
    }
}

impl WireValue for Asset {
    proof fn lemma_not_null(&self) {
    }
}

/// The wire text of every `AssetInfo`: an object whose one key is the variant's
/// snake-case name, holding the variant's fields as an object with one member
/// per field, in declaration order, each under its own name (a tuple variant
/// holds the text of its one value).
pub proof fn lemma_asset_info_text(v: AssetInfo)
    ensures
        v matches AssetInfo::Token { contract_addr } ==> v.wire() == tagged(
            "token"@,
            object(seq![member("contract_addr"@, contract_addr.wire())]),
        ),
        v matches AssetInfo::NativeToken { denom } ==> v.wire() == tagged(
            "native_token"@,
            object(seq![member("denom"@, denom.wire())]),
        ),
{
}

/// The wire text of every `Asset`: a JSON object with one member per field,
/// in declaration order, each holding the text of its own field under that
/// field's name.
pub proof fn lemma_asset_text(v: Asset)
    ensures
        v.wire() == object(seq![
            member("info"@, v.info.wire()),
            member("amount"@, v.amount.wire()),
        ]),
{
}

} // verus!
