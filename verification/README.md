# rupu_cli

The decision logic behind the `rupu` command line, verified with Verus:
how the autoflow reconciler settles claims on issues, schedules passes and
wakes, reads workflow outcomes, and renders its reports and live serve view;
how `auth`, `agent`, `cleanup` and `update` decide what to do; and the text
shaping they share.

- `src/` is the verified library. Each public function states in its
  contract what it returns; `law_*` proof functions state properties that
  span several calls.
- `tests/` runs the library on concrete values.
- `app/` is the plain Rust around it: clap argument types, git and file
  system access, `serde_json` values, and the counts and costs printed with
  floating point.
