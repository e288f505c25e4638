# carve

The logic of CARVE, a platform for attack-defense competitions, written in
Verus: every function under `src/` carries a contract that Verus proves.

- `src/` — the verified library: competition life cycle, scoring and
  leaderboards, check scheduling and evaluation, flags, support tickets,
  users and teams, box credentials and cooldowns, network planning
  (subnets, VXLAN ids, NAT and bridge rules), cloud-init seeds, QEMU
  arguments, the noVNC nginx configuration, Redis key layout and the
  request decisions of the HTTP API. Calls into `rand`, `regex`,
  `minijinja`, `argon2` and `ssh-key` stand behind small trusted wrappers
  whose contracts are stated in their doc comments.
- `app/` — the services around it (API server, canary, qemu-box, vtep,
  vxlan sidecar, noVNC nginx): I/O, Redis, HTTP and process handling, which
  hand plain values to the library and act on what it returns.
- `tests/` — tests of the library on concrete values.
