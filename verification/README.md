# clashr

The verified core of ClashR, a desktop client for the mihomo proxy core,
and of its privileged helper service.

- `src/` is the library, written in Verus: every function carries a
  `requires`/`ensures` contract that Verus proves. It holds the IPC framing
  and session rules between the app and the helper service, the core's
  status machine, the parsing of subscription responses, the profile list,
  the calendar used for expiry dates, the completion of a profile into
  `runtime.yaml` and the TUN switch kept there (the YAML is read and
  written by `serde_yaml` behind named wrappers), the
  proxy-page model (group order, card rows, icons), the system-proxy
  command lists and answers, paths, translations and the small state
  machines of the pages.
- `app/` is ordinary Rust around the library: the helper daemon's socket
  loop and process handling, installation under launchd, HTTP downloads,
  file reading and writing, and the few computations done in floating
  point. The decisions it acts on (what to answer, what to run, when to
  fall back from a reload to a restart) come from the library; it keeps
  only the order of its I/O, such as skipping a network service whose
  first proxy command failed.
- `tests/` exercises the library on concrete values.

Calls into other crates and into std that the library needs are made
through small trusted wrappers (marked `#[verifier::external_body]`); each
says in its doc comment what its contract assumes of the callee.
