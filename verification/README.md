# Agent Terminal

A terminal multiplexer for people who work with coding agents: Spaces hold Tabs,
Tabs hold Panes, and each Pane shows a Terminal Session that outlives the window.

## Layout

- `src/` is the library. It holds the rules of the application, and Verus proves
  each of them against its contract.
  - `core_model`: the hierarchy of Spaces, Tabs and Panes, and the commands on it.
  - `application_core`: the terminals that run, what becomes of them, and how
    requests to them are served.
  - `core_driver`: what lies between a window and the terminals.
  - `resident_core`: the process that keeps terminals alive, its protocol, its
    leases of control, and both ends of a connection.
  - `persistence`: the format of saved hierarchies, the two slots that hold them,
    and when they are saved.
  - `pty`, `ghostty`, `terminal`, `grid`: processes, the emulator's frames, and
    the cells of a screen.
  - `gui`: what a window shows and what the user's actions lead to.
  - `agent_integration`: which programs are agents, and what they are doing.
  - `wide`: paths of systems that name files in units of sixteen bits.
  - `crypto`, `text`, `bytes`, `table`, `sequences`: shared parts. The calls into
    `ring` stand in `crypto`, those into `flume` in `pty`, and those into parts of
    the standard library in `text` and `resident_core::client`.
- `app/` is the program around it: threads, sockets, files, processes, the
  emulator's C interface and the GPUI window. It does outside work and hands the
  results to the library's steps.
- `tests/` runs the library on examples.

Functions whose work alternates with outside work are written as steps: a step
names what is to be done, and a method of the value that comes with it takes the
result and gives the next step.
