# Shellswitch

Evidence-based desktop-shell discovery and transactional lifecycle control
for Niri desktops, with a terminal browser.

The decision logic is a Verus library (`src/`), proved against its
contracts; the `shellswitch` command (`app/`) performs the file, process,
service-manager and terminal work around it.

## Layout

| Path | Contents |
| --- | --- |
| `src/text.rs`, `src/path.rs` | character- and path-level helpers the rules are stated in |
| `src/ownership.rs`, `src/changes.rs` | file snapshots, owned files, and the planned writes of a file transaction and its undo |
| `src/control.rs` | the persisted state, the switch journal, trial, keep, rollback, adoption and resume |
| `src/handoff.rs`, `src/rollback.rs` | the order of a switch and of a rollback: each reported outcome to the next journaled state and action |
| `src/lifecycle.rs`, `src/holds.rs` | emergency holds, leases, managed entrypoints (gates), the mutation guard |
| `src/maintenance.rs`, `src/install.rs`, `src/protection.rs` | enrolment, configuration updates, repair, staged installs, startup protections |
| `src/kdl.rs`, `src/compose.rs` | the KDL scanner, include freezing and entrypoint composition |
| `src/discovery.rs`, `src/generic.rs`, `src/automatic.rs` | what scanned files and running processes show about shells |
| `src/matching.rs`, `src/process.rs`, `src/procfs.rs` | process identities, matching processes to shells, quiescing |
| `src/launch.rs`, `src/audit.rs`, `src/diagnostics.rs`, `src/doctor.rs` | launch guard, session and startup audits, drift findings |
| `src/ui.rs`, `src/catalog.rs` | the browser's state and key handling, the candidate catalog |
| `src/niri.rs`, `src/wayland.rs`, `src/native.rs`, `src/adapters.rs` | compositor events, the registry probe, native CLI delegation, bridge declarations |
| `app/` | command line, state store, system calls, scans, drawing |
| `tests/` | scenarios on concrete values |

Laws that relate several operations (for example, that a rollback restores
the journaled configuration and never lifts a hold) are public proof
functions named `law_*`.
