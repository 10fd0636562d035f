# drone_notify

Triggers a Drone build of a branch, after a look at its last commit, follows it to its
end and notifies the user. Successful targets are remembered, newest first, for the next
run.

- `src/` is the library: every decision the tool makes, with its contract, proved by
  Verus. It computes on plain values; all that it reads from outside is the system clock.
- `app/` is the program around it: the terminal, the server, the configuration file and
  the desktop.
- `tests/` runs the library on concrete values.

The library:

| Module | What it holds |
| --- | --- |
| `config` | the configuration file, what has to be asked for, the settings of a run |
| `target`, `history` | what is built, and the record of successful builds |
| `selection`, `repos`, `branches` | the choice of what to build |
| `api` | the requests to the server |
| `builds` | builds, their states and what is said about them |
| `session` | the course of one build, as a state machine |
| `clock` | the time at which a success is recorded |
| `text`, `seqs`, `order`, `error` | texts, sequences, stable sorting, errors |

The configuration file is `config.toml` beside the program, or the file that
`DRONE_NOTIFY_CONFIG` names:

```toml
base_url = "https://drone.example.com"
default_namespace = "your-name"
default_repo = "your-repo"
default_branch = "main"
token = "your-drone-token"
verify_ssl = true
poll_interval_secs = 3
```

Functions named `law_...` state what holds of the library as a whole. What is believed
without proof about `url` and about the clock, the lower case and the durations of the
standard library stands in `api`, `clock` and `builds`, in the items marked as such.
