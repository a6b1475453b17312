# astroport_juno_types

Wire types of the Astroport-Juno pair, factory, router and incentives
contracts, with a verified encoder of their JSON wire format, and the decision logic of the
keep-set deployment used by the integration harness.

- `src/wire.rs`: the JSON text that the CosmWasm serializer writes (objects,
  externally tagged enums, `null`, arrays), the `JsonWire` trait and
  `to_json`.
- `src/primitives.rs`: plain-value models of `Timestamp`, `Decimal`,
  `Decimal256` and `Binary`, and their texts.
- `src/asset.rs`, `src/factory.rs`, `src/incentives.rs`, `src/pair.rs`,
  `src/router.rs`: the wire types, each with its exact wire text.
- `src/unambiguous.rs`: the text of every wire value determines the value.
- `src/keep_set.rs`: the deployer's starting balances, the deployment plan as a
  state machine (next step from what the previous steps produced), and its
  laws.
- `app/`: serde copies of the wire types with the CosmWasm value types and
  conversions to and from the library's types; the cw-multi-test harness that
  performs the planned deployment steps.
