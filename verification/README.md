# PipeShare

Application audio for Linux screen shares: when a screen share starts, PipeShare
asks which applications to share the audio of, mixes it with the microphone into
a virtual microphone, and takes everything down again when the share ends.

## Layout

- `src/` is the library, verified with Verus. It decides what is to be done and
  reads what came of it; it runs no program itself.
- `app/` is the program around it: processes, timers, the D-Bus session bus and
  the terminal.
- `tests/` runs the library on given replies.

## How a task runs

A task of the library, such as the set-up of a route, is a state machine.
`request` says what to do next; `resume` takes the reply of a program, and
`proceed` goes on after anything else. When `request` gives `Finished`, `outcome`
says what came of the task. The contracts state each step exactly, and the public
proof functions under "Laws" in each module state what holds of whole runs: that a
task ends, that a route is taken down once and only once, that recording streams
are given back before any module is unloaded, and so on.

## Commands

| Command | Description |
|---------|-------------|
| `pipeshare daemon` | Start as background service |
| `pipeshare list` | Show active audio-producing applications |
| `pipeshare route <app>` | Manually route an app's audio |
| `pipeshare stop` | Force-unload all active routing |
| `pipeshare status` | Display system status |
| `pipeshare monitor` | Watch ScreenCast events |
