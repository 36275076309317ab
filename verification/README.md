# doris_cli

`dcli`, an operations CLI for Apache Doris (deploy, scale, day-2 operations),
with its decision logic written in Verus and proved against its contracts.

- `src/` is the verified library: configuration and paths, the encrypted
  cluster store, release listing and package cache decisions, SSH argument
  building, host prechecks, deploy plans and scripts, scale and repair
  statements, version-gap inspection and padding plans, and the dashboard's
  state machine. Calls into `aes-gcm`, `base64`, `rand`, `dirs`, `serde_json`
  and a few std functions sit behind small trusted wrappers whose contracts
  are documented where they are declared.
- `app/` is the program around it: argument parsing (clap), YAML/JSON files
  (serde), the FE over MySQL and HTTP, BE HTTP calls, `ssh`/`scp`
  processes, downloads, terminal output and the ratatui dashboard.
- `tests/` runs the library on concrete values.
