# reframe

The command-line front end of the Reframe project generator, as a verified
library: what an invocation asks for, the preset template parameters read from
the environment, the command line and YAML files, and the usage text.

- `src/text.rs` – character-level helpers (trimming, prefixes, `key=value`).
- `src/param.rs` – parameters from `REFRAME_PARAM_<key>` variables and from
  `-Pkey=value` / `--param key=value` arguments.
- `src/yaml.rs` – parameters from a YAML document holding a flat mapping.
- `src/args.rs` – option values (`--branch=dev`), flags, `--yaml` paths.
- `src/cli.rs` – the action an invocation asks for; archive names and URLs.
- `src/usage.rs` – the usage text, naming the program by its file name.
- `app/lib.rs` – the process edges: environment, terminal, files, printing.
