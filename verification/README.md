# openworker_shell

The decision logic of the OpenWorker desktop shell, verified with Verus: where the Python
server is found and how it is started, which environment it gets, what the page is told of it,
how the system is kept awake, which devices can have voice input, when an update may be fetched
and installed, and what the window, the tray and the exit do to the server.

- `src/` is the library. Each function states in its contract what it returns; the public proof
  functions named `law_..` state what holds across functions.
- `app/` is the desktop app around it: the window, processes, files, the updater, the
  microphone. Work that alternates with decisions runs in steps: the library names the next
  step, the app performs it and hands back what came of it.
- `tests/` runs the library.

What is taken on trust is marked `external_body`: parsing and writing JSON (`prefs`), drawing and
printing UUIDs (`token`), and the `Debug` format of a string (`shell`). The comment above each
says what is claimed.
