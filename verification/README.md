# ipfs_proof_buddy

A storage-provider daemon for on-chain storage deals: it takes in deals,
keeps the files, proves once per proof window that it still holds them, and
tracks what each deal needs done next.

- `src/` is the verified library: deal types, proof windows, the chunk that a
  block hash picks and the Bao slice that proves it, BLAKE3 digests and Bao
  outboard encodings, the proof schedule (what each database update writes,
  and what it does to the schedule as a whole), and the decisions of the
  proof job and of deal intake.
- `app/` is the daemon around it: configuration, the chain client, the IPFS
  stubs, the sled database and its transactions, the web endpoint, and the
  wake-up loop.
- `tests/` runs the library on concrete deals, files and schedules.
