# rustcode_tui

The decisions and text handling of an interactive terminal front end for a
coding agent, written in Verus and proved against their contracts.

- `src/` is the verified library. Its public functions state in `ensures`
  what they return or change, over spec functions on `Seq<char>`, integers
  and the views of the library's types; where a result comes from an
  outside call (JSON parsing, character widths, case mapping), the contract
  is stated over a named result of that call. The `law_*` proof functions state
  properties that span several calls (paging stays in range, a double
  interrupt exits, toasts stay bounded, previews stay within their budgets,
  identical frames of narrow characters draw nothing, and so on).
- `app/` is ordinary Rust around the library: the clock, the frame
  scheduler, the file watcher, the UI loop over channels, reading the
  workspace from disk, recording feedback, and a `Display` copy of the
  library's error.
- `tests/` runs the library on concrete inputs.

Main areas of `src/`:

| module | what it decides |
|---|---|
| `composer`, `wrap`, `paste`, `history` | editing the prompt, wrapping it, collapsing large pastes, prompt recall |
| `keys`, `chat_pane`, `modals`, `memory`, `providers`, `oauth` | what each key does on each screen and dialog |
| `commands`, `slash`, `palette`, `skills` | what palette and slash commands do, the palette's rows, and the chat state a command leaves |
| `transcript`, `transcript_tail` | which messages the transcript shows and how tool results are grouped and summarised; the waiting, finished and failure lines at its foot |
| `chat_title`, `activity`, `events`, `live`, `footer` | the chat screen's titles, the activity panel and the status lines |
| `preview`, `tool_diff`, `diff`, `tool_text`, `failure` | approval previews, diffs and tool output summaries |
| `screen_diff`, `layout`, `sessions` | what is redrawn and where things are placed |
| `models`, `files`, `filters` | model and file lists, their filters and their order |

Outside crates: `unicode-width` and `serde_json` are called from `src/`
behind small trusted wrappers, each documented where it is declared;
`tokio` and `notify` are used by `app/`. Drawing itself (the terminal
backend and widget library) is not part of this crate.
