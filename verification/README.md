# eska_cli

The command-line interface of eska, a tool for 1C:Enterprise projects kept
in Git, split in two:

- `src/` is the verified library. Every function there carries a contract
  that Verus proves: locale selection, the reversible text encodings of
  paths, the framing and request rules of the IDE protocol, the decisions
  of its server (lifecycle, request queue, file notifications) as
  functions from state and event to next state and action, the keyboard
  menus, the ordering and grouping of changes, and the reports and error
  messages of the commands (all but the wording of managed-infobase
  failures, whose presenter lies outside this crate). Messages are built
  as translation keys with named values (`messages`), so that what a
  report says is stated and proved before it is translated.
- `app/` is the unverified shell around it: Fluent translation, clap
  argument parsing, JSON-RPC frames and envelopes with serde, and the
  terminal with crossterm. The loops that drive the commands and the IDE
  server are not part of this crate.

Calls into gix (its byte strings and date formatting) stand in `src/`
behind small trusted wrappers whose contracts say what the crate documents.
