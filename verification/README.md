# tiflash_proxy

The verified core of the TiFlash raft proxy, written with Verus.

- `src/pending_ranges.rs`: ranges of destroyed peers waiting for deletion,
  sorted by start key, those holding keys never overlapping; finding, draining, storing,
  removing and timing out ranges, with the laws that relate them.
- `src/region_worker.rs`: the region worker's decisions: registering or
  cleaning destroyed ranges, snapshot job statuses, polling pending applies,
  cleanup steps, timer intervals, task descriptions.
- `src/invoke.rs`, `src/key_val_if.rs`, `src/interfaces.rs`,
  `src/write_batch_helper.rs`: values exchanged with the engine store.
- `src/read_index.rs`: replies to batched read-index requests.
- `src/keys_order.rs`, `src/text.rs`, `src/proxy_info.rs`: key order, text
  forms, version banner.
- `app/`: C-compatible views, the engine store callback table, and the
  worker loops that wait on clocks and channels.
