# ollo-code

A local-first terminal coding agent for Ollama models, whose core is
verified with Verus.

- `src/` is the verified library (`ollo_code`):
  - `text` — character-level string work (trimming, lines, words, search,
    UTF-8 byte offsets, code-point order, sorting) with its spec functions;
  - `tools` — tool requests from the model, workspace path checks, patch
    plans, edits, listings and the reports of tool runs;
  - `ollama` — models, chat messages, the system prompt, tool descriptions,
    model lists and the decoding of a streamed reply;
  - `app` — the agent's state and every decision it takes (prompt editing,
    history, slash commands, model selection, context usage, events);
  - `ui` — screen layout, key and mouse actions, and what each pane shows;
  - `config`, `agents` — settings and the AGENTS.md template;
  - `laws` — properties that relate several calls.
- `app/` is the program around it: the Ollama HTTP client, files on disk,
  running tools, and the terminal loop that carries out the effects the
  library asks for.
- `tests/` runs the library on concrete values.

Where each pane falls on the screen is computed by ratatui's layout solver.
The library states only what that solver guarantees (each pane spans the
screen across the split and lies inside it); which column the model list
takes on a real screen rests on ratatui's behaviour, and the mouse handling
is verified for whatever panes the layout gives.
