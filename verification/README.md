# pve_imds

Instance-metadata and cluster-bootstrap service for a Proxmox VE cluster,
with its decision logic verified by Verus.

- `src/` — the verified library:
  - `text`: decimal rendering, substring search, lexicographic order of text;
  - `models`: the records of the Proxmox VE API (a node's CPU load held as its IEEE 754 bits);
  - `selection`: running VMs (optionally tagged) and IPAM reservations of one
    network, gathered from all nodes, in a stable order of VM id;
  - `inventory`, `cluster`, `metadata`: joining VMs with their reservations,
    choosing the controller that serves a bootstrap request, answering the
    instance id of a requester;
  - `digest`, `catalog`: the catalog of nodes, controllers, workers and
    reservations, with change detection and its update loop;
  - `api`: API addresses, ticket form, session cookie, renewal schedule and the
    service's main-loop decisions;
  - `listen`: the address the server listens on.
- `app/` — the program around it: configuration, HTTP client, updater tasks,
  web routes, `main`.
- `tests/` — tests of the library on concrete values.
