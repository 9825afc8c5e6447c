# spiceai

The decision logic of the Spice runtime, verified with Verus.

- `src/` is the verified library. Each public function states what it
  returns over a mathematical model (spec functions, `Seq`, `Set`, views),
  and laws that span several functions are proof functions named
  `lemma_*`:
  - `user_agent`: user-agent strings, their text and parsing (the text of a
    complete agent reads back as the same agent), extensions as a map.
  - `reciprocal_rank`: the Reciprocal Rank Fusion query over candidate sets,
    the schema checks before it, and the fusion plan.
  - `scheduler`: task requests, evaluators, and the choices of which pending
    request runs now (pending requests stay unique; nothing due is left
    pending; clearing requests are preferred; a stable sort by time).
  - `schedule_pass`: the phases of the scheduler as the actions performed
    on a schedule, and what a new request does to the pending requests.
    Over any run of the scheduler from its start (any phases, new requests
    and task completions, with the scheduler seeing whether a task is in
    progress), a schedule never has two tasks in progress; a clearing
    request resets the timed evaluators before its task starts.
  - `progress`, `research`, `plan`, `pipeline`, `executor`: the agent
    pipeline's progress records, research artifacts, plans, the stage a
    request starts at and the stage that follows, and the executor's
    prompts, retry decisions and the order it goes through a plan in.
  - `planner_models`: the planner models derived from declared models.
  - `metric_kinds`: which metric data and attribute kinds convert, and the
    check of a whole set of resource metrics (the first error, or the
    metrics converted).
  - `workers`, `keyed`, `token_registry`: registries keyed by name (they
    behave as maps; a get-or-create hands out one provider per key) and the
    changes between two sets of declared workers (applying them leaves
    exactly the new workers).
  - `udf_override`: the rewrite of `cosine_distance` for DuckDB (applying it
    twice changes nothing more).
  - `query_params`, `model_params`, `tpch`, `tools`, `dispatch`, `search`,
    `text`, `ids`: parameter conversion and tables, tool lookup, test
    dispatch, the datasets and embeddings a vector search uses, search
    columns, text helpers, identifiers and the clock.
- `app/` holds what the verifier does not take: tokio runtimes, the
  heaptrack allocator hooks, OS detection, JSON reading and writing, file
  reading for the pipeline, the scheduler's async loop (which performs the
  actions the library decides for each schedule), and the get-or-create of
  token providers under a lock. The loops around model calls (the
  pipeline stream and the plan executor) are not there: the model client
  is not among the crates used.
- `tests/` runs the library on concrete values.
