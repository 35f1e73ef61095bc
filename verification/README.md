# DragonFox

A terminal assistant that sends programming questions to a chat model, and a
small desktop code editor, with their logic proved against specifications.

- `src/text.rs`: text operations (trim, search, replace) with specifications.
- `src/highlighter.rs`: the syntax highlighter's tokenizer and its laws
  (nothing is lost, comments never span lines).
- `src/ai.rs`: the chat request, reading the answer out of a reply, and the
  conversation loop's decisions.
- `src/ide.rs`: the editor's state and every change a user action makes to it.
- `app/`: the program around the library: terminal and network I/O, the
  egui window, dialogs, files and processes.
