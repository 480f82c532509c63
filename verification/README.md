# ironbar

Two modules of a desktop bar: labels that show system metrics, and buttons that
show and focus workspaces.

`src/` decides what is shown and when, and is verified with Verus. `app/` connects
it to configuration files, timers, channels and widgets.

- `binary64`: metric values and thresholds as IEEE 754 bit patterns, compared by
  the numbers they encode.
- `sysinfo`: refresh intervals (`interval`), format string pieces (`token`), state
  classes (`states`, `metric`), the configuration (`module`), the sequence of work
  (`controller`, with its behaviour over whole refreshes in `trace`) and the labels
  (`widget`, with what they show over whole refreshes in `shown`).
- `workspaces`: the buttons (`button`, `open_state`) and what their widgets show
  (`view`).
