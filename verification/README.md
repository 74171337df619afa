# minik8s

A small Kubernetes-like orchestration system, whose decisions are written in
Verus and proved against their contracts.

## Layout

- `src/objects/` — the API objects (pods, replica sets, autoscalers, GPU
  jobs, functions, services, ingresses, nodes, workflows), their labels and
  selectors, and their descriptions as `describe` prints them.
- `src/keyed.rs`, `src/informer.rs` — maps keyed by strings with
  first-occurrence semantics, and the local caches that follow the API
  server's watch events.
- `src/controllers/` — what the controllers decide: replica set and GPU job
  reconciliation, pod deletion order, service endpoints, the nginx
  configuration of ingresses, the functions' images, and the horizontal pod
  autoscaler (replica calculation with exact ratios, stabilization, scaling
  limits, its work queue).
- `src/api_server/` — what the API server decides: the objects it stores for
  create, update and patch requests and the replies it gives, bindings,
  workflow validation, the metrics server's scrape targets and queries, and
  the gathering of metric samples.
- `tests/` — tests on concrete values, run with the real outside crates.
- `app/` — a command-line front end: it reads and writes the metrics
  server's configuration and nginx's, and reads metric samples.

Calls into outside crates (`uuid`, `rand`, `chrono`, `serde_json`,
`indenter`, `nginx-config`) go through small trusted wrappers whose contracts
state what those crates document.
