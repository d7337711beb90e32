# snarkvm-parameters: powers of the universal SRS

The library keeps the powers of beta times G of a universal SRS of degree
2^28: a run of "normal" powers from the 0-th power up, and a run of "shifted"
powers that ends at the last power. It answers requests for ranges of powers,
and plans which published blocks (2^16 to 2^28 normal powers, 2^16 to 2^27
shifted powers) a request needs to be downloaded first.

- `src/powers_of_beta_g.rs`: the two runs, the queries on them, and the plans.
- `src/schedule.rs`: the block queues and the degrees under which blocks are published.
- `src/codec.rs`: decoding of published blocks into BLS12-377 points.
- `src/powers_of_g.rs`: the whole SRS (with the gamma and beta-H parts).
- `src/laws.rs`: proofs that downloads make requests available, only fetch
  published blocks, and keep the layout consistent.
- `app/lib.rs`: reading the published files and driving the downloads, and
  snarkVM's serialization traits.
