# rust_rag_cli

A terminal tool for semantic code search and chat with a local model server
(Ollama): a project's files are cut into chunks and embedded, and questions
are answered with the closest chunks and any `@path` files as context.

## Layout

- `src/` — the library, verified with Verus:
  - `app/` — the chat state and its editing operations, slash commands,
    actions and their reducer, completions, `@` references, and `step`, which
    turns each event of the chat loop into a new state and the outside work
    to do;
  - `ui/` — what each panel shows: wrapped and styled chat lines, inline
    markdown, the input line, suggestions, context, logs and status bar, and
    the syntax highlighting of code blocks with syntect;
  - `scrapper.rs` — which directories are skipped, which files are indexed
    and how texts are chunked;
  - `db/` — file metadata for incremental indexing;
  - `service/`, `clients/`, `client/` — prompts, the steps of indexing a
    directory, requests and the decoding of streamed replies;
  - `dev/` — benchmark reports and the log buffer;
  - `secrets/` — API keys in the platform's credential store;
  - `laws.rs` — properties that hold across operations.
- `app/` — the terminal program around the library: argument parsing, the
  event loop, HTTP, files, the clipboard, drawing, and the floating-point
  parts (embeddings and their similarity, averages).
- `tests/` — tests of the library on concrete values.
