# phira-monitor

A monitor for a room of rhythm-game players. It joins a room, gets the selected chart, and shows all
players side by side, each with a playback clock of its own that waits for missing data.

- `src/` holds the decisions, verified with Verus: the players' clocks (`player`, `pause`, `time`),
  judges and touches (`judge`, `touch`, `chart`), rounds and frames (`scene`, `roster`, `room`,
  `scores`, `state`), getting into the room and getting ready (`init`, `ready`, `entity`, `dir`,
  `config`), and what is shown (`screen`, `labels`, `layout`, `fps`, `args`). `laws` and `scene_laws` state what
  holds across functions.
- `app/` is the program around it: window, network, files and drawing.
- `tests/` runs the library.

Times are whole nanoseconds in the library; `app/` converts them from and to seconds.
