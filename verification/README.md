# landscape (verified core)

The proxy and flow-routing logic of the Landscape router, written in Verus
with its behaviour stated in `requires`/`ensures` contracts and proved.

Layout:

- `src/` — the verified library:
  - `text`, `netaddr`, `ids`: renderings of numbers, addresses and UUIDs,
    container names of proxy nodes;
  - `flow`, `flow_rule`: flows, their entry rules and targets, device
    resolution, conflict and duplicate detection, the store's lookup filters;
  - `proxy`, `singbox`, `singbox_file`, `order`, `runtime`: proxy nodes,
    the sing-box configuration of the shared runtime and its JSON file,
    node ordering, and the decisions of the runtime service (images,
    container settings, container states, latency-test plans);
  - `bypass`: the China bypass rules of proxied flows and their Geo sources;
  - `route`: the multipath default routes of the uplinks;
  - `pppoe`: the native PPPoE data path of an uplink.
- `tests/` — tests of the library, run against the real outside crates.
- `app/` — the I/O around the library: API JSON shapes, the container engine,
  the `ip` tool, and the loops that carry out the library's decisions.
