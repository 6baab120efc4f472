# SOC Terminal

A terminal UI for browsing Wazuh/OpenSearch alerts, correlating them with LLMs,
and running SOC skills (a daily activity report), with its state machine and
text processing verified by Verus.

## Layout

- `src/` — the verified library (`soc_terminal`):
  - `app.rs` — the terminal state, its well-formedness, paging, selection,
    analysis history and model toggle, with their laws;
  - `input.rs` — what each key does in each view (`App::handle_key`);
  - `messages.rs` — what background reports do (`App::handle_message`);
  - `tasks.rs` — the work the state asks for (`Command`), the steps of a running
    daily report (`ReportTask`), and what files are written;
  - `alerts.rs` — entries, search filters and queries, the report's aggregation
    request and figures, index listing;
  - `llm.rs` — model tags, where a prompt goes, the prompts, and reading a streamed
    reply: line splitting and what each line gives (`sse_step`, `ndjson_step`);
  - `report.rs` — the markdown daily report;
  - `view.rs`, `wrap.rs` — cell texts, titles, popup geometry, word wrapping;
  - `text.rs` — string helpers and their specifications;
  - `json.rs` — reading JSON text through `serde_json` (a member, printed; a string
    or boolean along a path);
  - `config.rs`, `skills.rs` — settings and the skill registry.
- `app/` — the program around it: reading `config.yaml`, the OpenSearch and model
  HTTP calls, background tasks, files, and drawing with ratatui.
- `tests/` — tests of the library.

## Running

```bash
SIEM_CONFIG=/path/to/config.yaml soc-terminal
```

Keys: `↑↓`/`j k` navigate, `Space` select, `Enter` detail, `A` analyse, `S` skills,
`L` cycle model, `I` index, `T` time range, `F` agent filter, `+`/`-` level,
`E` export, `R` reload, `N`/`P` pages, `C` clear, `Tab` history, `[`/`]` scroll,
`H`/`?` help, `Q`/`Ctrl-C` quit.
