# rss-mdm

A device management server whose decisions are verified with Verus.

`src/` is the library. It holds the rules of the server and no input or output:
rows, bytes and the answers of other components come in as plain values, and
what is to be done comes back as plain values. Every function states in its
contract what it returns, and the properties that span functions are stated as
public proof functions beside them.

- `cli`, `lifecycle`, `maintenance`, `config`: arguments, startup and shutdown,
  operator tasks, settings
- `error`: every refusal, and the status and code that it is answered with
- `inventory`, `inventory_runtime`: facts about devices, and the delivery of
  reports into the inventory
- `management`: requests and their authorization, groups, scopes, policies,
  resources, releases, pages of results and the cursors that continue them
- `management/assets`: criteria, queries, saved queries and manual values
- `management/automation`: the durable jobs behind them, phase by phase
- `crypto`, `encoding`, `id`, `json`, `number`, `text`, `order`, `set`, `map`:
  what the rest is made of; the first four hold the only calls into other crates

`app/` is the program around the library: arguments, configuration files, HTTP,
SQL, the worker loops and the written form of the library's values. The
platform components that it is composed with (identity, the inventory, the
group, policy, resource and release stores, the reconciler, the listeners that
devices reach over TLS) are linked through
`app/platform.rs`.

`tests/` runs the library on concrete values.
