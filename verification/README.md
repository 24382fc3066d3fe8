# Unity Pipeline CLI

Lets people, scripts and AI agents drive a running Unity Editor. The `com.unity.pipeline` package
serves commands inside the Editor over local HTTP; `unity_pipeline_cli` finds the running Editors,
lists and executes those commands, and offers them as MCP tools on stdin and stdout.

## Layout

- `src/` is the library, written in Verus. Every function in it has a contract that is proved, but
  for a few that hand a call on to another crate or to the standard library: those say so in their
  doc comments. The library does no I/O.
- `app/` is the program around it: the command line, sockets, files and processes.
- `tests/` runs the library on concrete values.

## Subcommands

| Subcommand | What it does |
| :--- | :--- |
| `projects` | lists the running Editors and the state of their Pipeline servers |
| `command` | lists the commands of an Editor, or executes one |
| `mcp` | runs the MCP server for one Editor |
| `configure mcp` | prints a configuration entry for an MCP client |
| `language` | shows or switches the interface language (`en`, `zh`) |
| `upgrade` | replaces the program by a newer release |

## What is proved

Beside the contract of each function, the library states and proves properties of the whole, such
as these:

- every access token in a text that a tool call hands back is replaced by a mark, and a token that
  cannot be confused with the mark is then nowhere in the text (`tools`, `redact`);
- a call is attempted at most 31 times, and a server that is blocked by a dialog is not retried
  (`tools`);
- a request is answered under its own id, and a notification is never answered (`mcp`);
- every answer of the MCP server is one line, whatever the request and the tool's result hold; a
  listing of the tools is, where the floats in the catalog are written with digits, signs, a point
  and an exponent mark only, as JSON numbers are (`mcp`, `tools`, `render`);
- a number in the output reads back as the number that it was (`render`);
- an Editor counts only with an absolute project path (`editor`);
- discovery never chooses between two Editors (`pipeline`);
- the client of a shared time budget outlasts the server, and no stated timeout exceeds an hour
  (`pipeline`, `tools`);
- parameters stay as they were typed, and only declared ones are sent (`arguments`, `command`);
- both languages have the same messages (`i18n`, `locales`).
