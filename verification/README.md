# moonrabbit

Verified core of the moonrabbit relay-chain node, written in Verus.

`src/` is the library. Its functions carry contracts that Verus proves,
except the few wrappers marked `#[verifier::external_body]` that call the
outside crates (`tiny-keccak`, `parity-scale-codec`, `sp-core`, `syn`);
their contracts are trusted:

- `adder`: the adder test parachain's heads, blocks and state transition,
  with SCALE encoding and Keccak hashing (`scale`).
- `validator_discovery`: the network bridge's bookkeeping of requested
  validators, connected peers and connection requests.
- `double_encoded`: a payload kept encoded and decoded at most once.
- `xcm_assets`: which assets XCM accepts from where, and what fungible
  balances they carry.
- `chain_spec` and `keys`: the shipped chain specifications (name, id,
  boot nodes, telemetry, genesis state), and the development keys derived
  from seeds.
- `cli`: the command line's decisions (chain selection, SS58 format,
  dev-only subcommands).
- `identity_weights`, `parachains`, `pvf`, `network_bridge_event`,
  `dispatch_gen`, `errors`: weights, runtime helpers, PVF identity, event
  focusing, the dispatch generation of a message enum from its source, and
  error types.

`app/` is the executable around it: argument parsing, the environment, the
channels and network of validator discovery, and the types that carry
`serde` and `thiserror` derives.

`tests/` runs the library on concrete values, with the real outside crates.
