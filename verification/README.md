# yammm

The verified core of `yammm`, a command-line tool for building Minecraft
modpacks: manifests and global configuration, MRPACK and YMPK import and
export, the launch planning (Java requirements, library selection, classpath
and argument assembly, the virtual launch directory), the config organizer,
the `manage` screen's state machine, and the output dispatcher.

## Layout

- `src/` — the library, written in Verus. Every public function carries a
  `requires`/`ensures` contract proved by Verus; laws that relate several
  functions stand as public `proof fn`s next to them. Calls into outside
  crates (`path-clean`, `pathdiff`, `nucleo-matcher`) and a few std calls
  sit behind small `#[verifier::external_body]` wrappers whose contracts
  state what those functions do.
- `tests/` — ordinary Rust tests run against the compiled library.
- `app/` — the `yammm` binary: argument parsing (`clap`), file and archive
  I/O (`zip`, `toml`, `serde_json`, `ron`, `dirs`); it hands plain values to
  the library and acts on what comes back.

The library does no I/O: where the tool reads a directory, a jar or a
network answer, the library takes what was read as an argument and returns
what to do with it.

## What the binary does today

The commands that need the mod store, the provider clients or the dependency
resolver (`add`, `export`, `launch`, `remove`, `search`, `info`, `auth`,
`cache`, `update`, `self-update`, `manage`) are not wired up in `app/`: they
report that the storage and provider layers are not part of this build. The
library holds the decisions those commands make, with their contracts, and
the tests exercise them. `init` and `config` work in full; `import` merges
the pack's metadata into the manifest and extracts its overrides or config
files; `organize` lists the orphan config files it finds.
