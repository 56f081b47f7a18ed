# treekem_hkdf

The key schedule of a TreeKEM group-key layer, verified with Verus.

- `src/hkdf.rs`: HKDF-Extract, HKDF-Expand, HKDF-Expand-Label with the
  "anonif" label prefix, and Derive-Secret, over HMAC-SHA-256 from `ring`;
  with the laws that tie them together and the proof that different labels
  or contexts give HKDF different `info`.
- `src/encoding.rs`: the SCALE encoding of the HKDF label (through
  `parity-scale-codec`), and the proof that it is injective.
- `src/hmac.rs`, `src/hash.rs`: HMAC keys and SHA-256, through `ring`.
- `src/instructions.rs`: zero padding of instruction plaintexts to a fixed size.
- `src/context.rs`: decoding the hexadecimal service provider ID and encoding
  attestation quotes in base64.
- `app/`: the generic entry points over `Encode` values, the host error type,
  and the enclave and host code tied to the SGX SDK and to the framework's
  own crates, which are not available to build here.
