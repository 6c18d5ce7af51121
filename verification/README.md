# scratchsmith

Pack a prebuilt, dynamically linked glibc ELF binary into a minimal `FROM scratch`
OCI image, without a Dockerfile and without a daemon when you do not want one.

## Layout

- `src/` is the verified library. The packer's rules live here with contracts that
  Verus proves: the `ld.so` search order (`resolver`), the staging plan
  and the glibc pieces it adds (`stager`), ELF hardening (`elf`, `lint`), the library,
  size and vulnerability gates (`pack`, `report`, `supplychain`), the image
  configuration (`image`), the reproducible layer tar (`tarball`), the command-line and configuration layering (`config`,
  `options`), registry decisions (`registry`), the dependency graph (`graph`), tree
  comparison (`diff`), archive extraction rules (`unpack`), the tool probe (`doctor`),
  and the whole pack as a state machine (`pipeline`). Laws that span functions are
  public proof functions named `law_*`.
- `app/` is the `scratchsmith` command: argument parsing, files, processes and the
  network. It carries out what the library decides and hands back what happened.
- `tests/` exercise the library on concrete values.

The calls into outside crates that the library makes (goblin's ELF parser, SHA-256,
gzip, the tar writer, reference parsing) stand behind small trusted wrappers whose doc comments say
exactly what is assumed of them.
