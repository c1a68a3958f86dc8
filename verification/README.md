# peek

A tab-based terminal dashboard that lists ports (`lsof`), processes, network interfaces,
services (`launchctl`) and files (`ls -la`), and lets one kill processes, start and stop
services, run shell commands and copy, move or delete files.

The library under `src/` holds the logic, verified with Verus:

- `text`: character classes, words, lines, searching, trimming and decimal numbers;
- `parse`: reading single lines of `lsof`, `ls -la` and `launchctl list` output;
- `units`: the byte sizes shown for interface traffic;
- `state`, `lists`, `traffic`: the dashboard state, its lists, filtering, ordering and
  selection;
- `events`: what each key does and what has to be done outside afterwards;
- `display`: the rows, titles and footers shown;
- `paths`: the root test and the plain-form path rules used for joining and parents;
- `platform`: the few standard library calls whose results are named, with what their
  documentation states.

`app/` is the program around it: it reads the system, draws with `ratatui`, reads keys with
`crossterm` and carries out the actions that the key handling asks for.
