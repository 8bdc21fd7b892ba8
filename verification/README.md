# openqmc

Quasi-Monte Carlo samplers for rendering: Owen-scrambled Sobol, rank-1
lattice and progressive multi-jittered (0,2) sequences, each with a blue-noise
variant, behind a pass-by-value domain-tree API.

The library under `src/` is verified with Verus. Every function states what it
returns as a spec function, and the properties the samplers rely on are proved
as lemmas, among them:

- the Laine & Karras permutation keeps and reflects agreement in the low bits,
  so it is one-to-one, and the Owen shuffle permutes the low `k` bits of the
  indices `0 .. 2^k` (`permute.rs`);
- the first two Owen-scrambled Sobol dimensions form a (0,2)-sequence for
  every seed: every aligned block of `2^m` indices is a (0,2)-net (`owen.rs`);
- the progressive multi-jittered construction fills its table exactly as the
  spec function `pmj_points` describes, and every aligned block of `2^m` rows
  of the table is stratified in each coordinate, so are the draws of the PMJ
  samplers (`stochastic.rs`, `pmj.rs`);
- the first two coordinates of the progressive sequence form a
  (0,2)-sequence, and so does each pair of dimensions of the PMJ table and of
  the PMJ draws: every aligned block of `2^m` points is a (0,2)-net
  (`pmj02.rs`, `pmj.rs`);
- at the sampler interface, the sample indices of one aligned block of
  `2^m` (`m <= 16`) share their pattern, so the draws of a domain of the
  Sobol and PMJ samplers and of their blue-noise variants form a (0,2)-net
  (`state.rs`, `sobol.rs`, `pmj.rs`, `sobolbn.rs`, `pmjbn.rs`);
- aligned blocks of rank-1 lattice samples lie on the lattice, and so do the
  draws of a domain of the lattice sampler (`rank1.rs`, `lattice.rs`);
- pack/unpack round trips, rotation and range laws, and the domain-tree laws
  of the sampler state (`encode.rs`, `rotate.rs`, `range.rs`, `state.rs`).

The samplers that read tables (PMJ and the blue-noise variants) borrow them:
the caller builds the PMJ table with `stochastic_pmj_init` and hands the
blue-noise key and rank tables in.

`app/` holds what stays outside the verified library: the floating-point draws
(`uint_to_float`, `draw_sample_f32`, ...), the process-wide PMJ table, and
reading blue-noise tables from files.
