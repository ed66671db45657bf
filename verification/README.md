# beacon_light_client

Building blocks of an Ethereum beacon-chain light-client server, written
in Verus: every function of the library carries a contract that the
verifier proves.

- `src/` is the verified library:
  - `merkle_proofs` — generalized indices and merkle branches;
  - `chunks`, `merkleize` — packing of fields into 32-byte chunks, merkle
    roots (SHA-256 from `sha2`), container roots, the roots of all fields
    of a serialized beacon state, and the merkle tree over them laid out by
    generalized index, whose branches fold into its root;
  - `bitfield` — justification bits through `bit_vec::BitVec`;
  - `serialize`, `serialize_and_merkleize`, `expand_vecs` — SSZ
    serialization of the beacon state, with its size and offset tables;
  - `pipeline` — from a state to the branches of a light-client update;
  - `text`, `query_node` — reading a beacon state out of a node's JSON
    answer (parsed with `serde_json`);
  - `types`, `build_objects` — beacon-chain and light-client records, the
    light-client store and snapshots;
  - `node_discovery` — picking a local node at random.
- `tests/` runs the library on concrete values.
- `app/` is the program around it: HTTP requests to a beacon node, the
  conversion of `eth2` types into the library's, and the merkle proofs of
  the `merkle_proof` crate.

The field roots pack each field to a power-of-two number of chunks of its
own length; the limits of SSZ lists are not applied. The justification
bits are an SSZ `Bitvector[4]`, serialized and hashed without a length
cap. The finality branch of an update is the branch of the finalized
checkpoint's root (generalized index 105, six entries), taken through the
checkpoint's two-chunk subtree.
