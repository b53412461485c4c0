# iroh_willow

Capabilities for Willow namespaces, written in Verus: chains of signed delegations that
give a user the right to read, to write to, or to prove membership of an area of a
namespace, invocations that exercise such a right, and revocations.

- `src/proto`: keys, paths, areas, entries, and the roles that chains play.
- `src/uwill`: commands, policies, chains, invocations and revocations. The files whose
  names end in `_laws` state what holds of all of them.
- `src/store`: the capabilities of a node, over a storage of the caller's choice.
- `src/session`: what the two peers of a session bind and prove to each other.
- `src/interest.rs`, `src/form.rs`: which areas a node is interested in, and how an entry
  is made of a form.
- `app`: encodings, tables, signatures, and input and output.

Signing, checking signatures and evaluating policies on arguments are the caller's: the
library takes their outcomes as values, or a closure that signs.
