# herdr_smart_nav

One key family moves through Vim windows, multiplexer panes, tabs and
workspaces, in that order. The library holds the decisions, verified with
Verus:

- `src/text.rs`: command names (last path component, lower case).
- `src/pattern.rs`: the regular-expression calls, behind trusted wrappers.
- `src/json.rs`: the replies of the multiplexer's command line as a plain JSON model, parsed by `serde_json` behind a trusted wrapper.
- `src/process.rs`: recognising Vim and the user's pass-through programs.
- `src/strip.rs`: picking the neighbouring tab or workspace on a strip.
- `src/nav.rs`: the navigation as a state machine from reply to next command, with its laws.

`app/main.rs` reads the command line and the environment, runs the
multiplexer's commands and hands their output to `parse_reply`, feeding the replies back to
the machine.
