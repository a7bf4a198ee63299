# smos

SMOS is a small server-management service: host metrics and their history,
processes, log tails, a validated configuration, an audit journal, and an
operator account with sessions and optional offline TOTP.

The decision logic lives in `src/` and is verified with Verus:

| Module | What it decides |
| --- | --- |
| `config` | validation rules, atomic partial updates, the public view |
| `auth` | email/password checks, sessions and their expiry, pending 2FA logins, TOTP enrollment |
| `tokens` | the token table behind sessions and pending logins |
| `crypto` | the trusted calls into the clock, the RNG, `argon2`, `data-encoding` and `totp-rs` |
| `history` | which samples a history query returns, even downsampling, retention of samples and rotated logs |
| `logs` | line splitting and which lines a tail returns |
| `processes` | lifecycle actions on a process (never on the service itself) |
| `signals` | the signals handed to the OS, recorded in a log only that module extends |
| `api` | request policy: public routes, session or machine-token access, token headers, log source ids, query defaults |
| `alerts`, `audit` | the breach tally and the journal's listing order |
| `text` | string helpers (trimming, UTF-8 lengths, parsing) used by the rest |

`app/` is the HTTP service around the library: file and network I/O, the
`sysinfo` snapshots and the floating-point alert comparisons.
`tests/` exercises the library on concrete values.
