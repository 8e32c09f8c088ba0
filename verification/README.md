# ironsign

A prototype of a Bitcoin signing system in which several nodes sign together and none of them
holds the private key. One node has no connection and exchanges files.

The logic is a library that [Verus](https://github.com/verus-lang/verus) verifies; the programs
around it are ordinary Rust.

## Layout

- `src/` is the verified library.
  - `bytes`, `text`, `hex_text`: byte strings as numbers, file names and other text, hexadecimal.
  - `curve`, `message`, `signing`: scalars and points of secp256k1, the scalar that stands for a
    payload, presignatures, partial signatures and signatures.
  - `fifo_queue`, `msgpack`, `ppd_serializer`, `presig_storage`: pools and how they are stored.
  - `initialization`: which key shares are used again, and how presignatures are dealt out.
  - `offline_node`, `coord_runtime`: the node without a connection, the nodes with one, and the
    coordinator.
  - `btc_auxiliary`: address, transaction, hash to sign and witness.
  - `simulation`: all parties in one place.
- `tests/` runs the library.
- `app/` holds the programs: files, standard input, channels, RPC, and the protocol runs that
  generate keys and presignatures.

Elliptic curves, the protocols, MessagePack and the Bitcoin formats come from outside crates. Where
the library calls one, a function with a trusted contract stands around the call, and its comment
says what is claimed of it.

## Programs

All programs are one binary. It runs the program by whose name it is called, or else the one that
its first argument names.

```
initialization n k dir
offline_node input_dir output_dir [--prehashed]
coord_runtime n input_dir output_dir [--prehashed]
btc_auxiliary input_dir output_dir
simulation [basic | presignature | keygen]
```

- `n` is the number of nodes, `k` the size of the presignature pools.
- Every program reads from its input folder and writes to its output folder. `initialization` has
  one folder for both. `btc_auxiliary` takes the folders of `coord_runtime`: it reads the public key
  from the input folder, writes the payload there, and reads the signature from the output folder.
- With `--prehashed` a payload is taken as a hash and not hashed again. Signing for Bitcoin needs
  it, for `coord_runtime` and for `offline_node`.
