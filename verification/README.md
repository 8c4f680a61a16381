# memory-store

A GitHub Issues-backed memory system for agents, with its rules verified in Verus. Each
memory is a GitHub Issue; retrieval uses GitHub's hybrid search API.

- `src/` is the library. It decides and computes, and sends nothing: requests to GitHub
  are values that it hands out, and replies are values that it takes.
  - `models`, `labels`, `schema`: what a memory is, and what it looks like as an issue.
  - `api`, `store`: requests and replies, and what they mean for stored memories.
  - `search`, `order`: queries, ranking, pages, and the cache of results.
  - `manager`: recall within a token budget, working memory, sessions.
  - `consolidation`: clustering, merging and eviction.
  - `transcript`, `cli`: extraction from transcripts, and what the commands print.
  - `text`, `json`, `score`, `error`: what the others are made of. Numbers between 0 and 1
    are held as the bit patterns of single-precision numbers.
- `tests/` runs the library on examples.
- `app/` is the `gimem` command: HTTP, JSON with `serde`, arguments, the clock, and
  everything that calculates with floating-point numbers.
