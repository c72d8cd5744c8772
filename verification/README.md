# adblock

An ad-blocking engine whose logic is verified with Verus: parsing of network and cosmetic
filter rules, matching of requests against network filters (with `$important`, exceptions,
`$badfilter`, tags and redirect resources), and the cosmetic filter cache that tells a page
which elements to hide, which styles to apply and which scriptlets to inject.

Layout:

- `src/` — the library; every function carries a contract and is verified.
  - `filters/` — network and cosmetic filter rules, how a network filter matches a request,
    and the routing of network filters into the engine's storage lists.
  - `flatbuffers/containers/` — an open-addressing string-keyed table with triangular probing
    and a sorted-array set.
  - `blocker.rs` — token-bucketed filter lists and the blocking decision.
  - `cosmetic_filter_cache.rs` — cosmetic filters filed for querying by page.
  - `engine.rs` — the blocker and the cosmetic cache built from rule lists.
  - `data_format.rs` — the header that frames serialized engine data (magic, format version,
    seahash checksum, crate version).
  - `lists.rs`, `request.rs`, `parser.rs`, `redirect_resources.rs`, `filter_lists/`, `utils.rs`.
- `tests/` — tests run against the compiled library.
- `app/` — per-thread match statistics and reading rule lists from files.
