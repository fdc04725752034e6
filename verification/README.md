# ai_assistance

The logic of a desktop assistant, verified with Verus.

- `src/` is the library. Each module states what its functions return in
  `requires`/`ensures` contracts over spec functions, and the laws that
  span several calls as public proof functions (`lemma_*`):
  - `sensitive`: fifteen regular-expression redaction passes, the Luhn check
    and the severity of what was found;
  - `orchestration`: keywords, rule matching, the fallback planner, the
    steps of a signal round and of starting the agent, related files;
  - `files`: categories, safe folder names, relation keys, the grouping plan
    and the account of a grouping run;
  - `ai`, `voice`, `youtube_music`: settings updates, endpoints, the framing
    of server-sent events, token accounting, base64 audio;
  - `advisor`: the lifecycle and listing of system alerts, card dues, the
    stock digest, the weekly plan and the watchlist;
  - `clipboard`, `calendar`, `widgets`, `market`: previews, the sample day,
    weather codes, URL and breach reports, the network trace, passwords,
    the dictionary and Markdown;
  - `text`, `dates`, `clock`: strings, `%Y-%m-%d` dates (chrono) and the
    wall clock.
- `tests/` runs the library on concrete values.
- `app/` holds what Verus does not see: the SQLite store, the HTTP services,
  the clipboard, the machine statistics, floating-point amounts, and the
  command functions that tie them to the library.
