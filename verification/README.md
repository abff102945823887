# otask

A terminal coding assistant: a chat with a model (plan mode with web search,
edit mode with file tools), a modal text editor with a file tree, an `@`
file picker, and a markdown renderer.

## Layout

- `src/` is the library, verified with Verus:
  - `app.rs`: the screen state (connected to Cerebras, Anthropic or Codex
    with `/connect <provider> <key> [model]`; Anthropic needs the model) and what each key, command and reply does to
    it; the outside world (files, clipboard, network, clock) is asked for
    through `AppAction`s.
  - `editor.rs`: the modal editor and its `:w`/`:wq`/`:q`/`:q!` commands.
  - `filetree.rs`, `filepicker.rs`: the explorer and the `@` picker, fed with
    directory listings.
  - `markdown.rs`: markdown (parsed by `pulldown_cmark`) to styled lines.
  - `highlight.rs`: syntax colouring with `syntect`.
  - `screen.rs`: what each part of the screen shows, as styled lines.
  - `calls.rs`: tool calls and their arguments read out of the model's JSON
    (with `serde_json`), and the conversation each tool round leaves.
  - `chat.rs`, `commands.rs`, `tools.rs`, `exa.rs`: the chat's decisions, the
    slash commands, the file tools' string edits and messages, and the
    formatting of web search results.
  - `text.rs`, `order.rs`, `keys.rs`: characters, lines, orders, keys.
- `app/` is the program around it: the terminal, the event loop, drawing,
  HTTP requests and the file system.
- `tests/` runs the library on concrete values.
