# octty

The logic of Octty, a desktop app for working across many `jj`
workspaces, as a library proved with Verus.

`src/` holds the library, every function with a contract:

- `types`, `activity`, `activity_map`, `panes`: workspaces, pane activity
  (active, unseen, seen), attention markers and their grace period.
- `jj`, `status`, `relation`, `refresh`, `bootstrap`: reading `jj` output
  into workspace status, the search for a workspace's baselines, when a
  status is read again, workspace ids and project roots.
- `input`, `shell`, `shortcuts`: keystrokes to terminal input, clipboard and
  workspace shortcuts, shell type configuration.
- `grid`, `selection`, `paste`, `replay`, `profile`, `latency`, `metrics`:
  terminal snapshots, damage coalescing, presentation timing, selections,
  paste encoding, replay traces and latency series.
- `layout`, `terminal_events`, `taskspace`, `sidebar`, `watch`, `notify`,
  `codex`: panes and their columns, what live terminal events do to them,
  sidebar groups and menus, file-watch filters,
  notifications, and Codex sessions to resume with their local times
  (`calendar`).
- `launch`, `prompts`, `toasts`: what the command line asks for at launch,
  the confirmations and renames of the sidebar, and the error toasts.
- `codecs`, `rows`, `migrations`: stored values, records as database rows
  that read back as they were written, and the columns an older database
  lacks.

`tests/` runs the library on examples. `app/` is the command line around
it: files, environment, `jj` processes, and the figures that need floating
point.
