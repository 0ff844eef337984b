# coman

The logic of `coman`, a command line and terminal UI tool for running and
managing jobs on the CSCS compute systems, as a library verified with Verus.

- `src/` holds the verified library: its functions are verified by Verus
  against their contracts, and the properties that span functions are
  stated and proved as public proof functions (`law_*`). Where a result
  comes from an outside crate and cannot be stated (a rendered template),
  the contract says what is handed to the call and what is done with its
  result.
  - `docker`, `docker_laws`: reading docker image references and writing
    them back, with the round trip proved.
  - `job`, `handlers`, `transfer`, `forward`, `ssh`, `keyring`: what a job
    is submitted with, file transfers, port forwarding, the SSH
    configuration kept for jobs, stored credentials.
  - `config`, `config_doc`, `cli`, `completion`: the config layers, reading
    and writing keys of a config document, argument parsing helpers and
    shell completions.
  - `focus`, `messages`, `model`, `app_loop`, `components`, `keys`,
    `status_bar`, `ports`, `usage`: the terminal UI's state machines and
    decisions.
  - `text`, `pairs`, `cscs`: text helpers, key/value lists and the CSCS data
    types.
- `tests/` runs the library on concrete values.
- `app/` is a thin part of the program around it: the command line for the
  version, init, config and completion commands, and the reading and
  writing of the config files. The CSCS client, the terminal UI and the
  port forwarding, which need crates that are not available here, are not
  part of it.

Calls into outside crates stand behind small trusted wrappers whose doc
comments say what is assumed of them.
