# FastBoot

Skips the startup hold of a game: the black screen that a busy-wait on the performance counter
keeps up until a fixed deadline, while the disk sits idle. Loading is left alone, so the game
reaches its menu as soon as loading finishes.

The program is a `version.dll` that forwards the calls of the real one. It hooks the timing
functions and watches for a spin on the counter, once the disk is quiet and while the startup video
is open. On that signature it adds a constant offset to the clock, which pushes the wait past its
deadline. The rate of the clock stays the same, so frame timing is unaffected.

## Layout

- `src/` is the library: every decision, written in Verus and proved.
  - `clock`: the virtual clock and what the timer hooks report.
  - `config`: the settings and `fastboot.ini`.
  - `monitor`: when to move the clock, when to stop, when to press Enter.
  - `probe`: which file and which playback handle belong to the startup video.
  - `loader`: which libraries and functions are looked up, in what order.
  - `names`, `wide`: names read from memory, UTF-16.
  - `window`: the window of the game and the messages of a key press.
  - `event`: the lines of `fastboot.log`.
  - `text`, `number`, `arith`: what the others are built from.
  - `trace`: what holds over whole runs of the monitor.
- `app/` hooks, reads, logs and posts messages as the library says.
- `tests/` runs the library on concrete values.

## Settings (`fastboot.ini`)

| Key | Default | Meaning |
|-----|---------|---------|
| `qpc_spin_min` | `500000` | Counter calls per poll that count as the spin, at the least. |
| `quiet_bytes` | `6000000` | The disk counts as quiet below this many bytes read over the window. |
| `quiet_window_polls` | `12` | Length of the rolling window, in polls. |
| `jump_ms` | `30000` | How far to fast-forward for each detected hold. |
| `poll_ms` | `80` | Interval between two polls. |
| `intro_video` | `T10_MS_Combined` | Part of the file name of the startup video. |
| `bink_wait0` | `0` | Set `1` to let playback of that video rush to its end. |
| `bink_shouldskip` | `0` | Set `1` to drop the frames of that video. |
| `diag` | `0` | Set `1` to log every poll. |
| `log` | `1` | Write `fastboot.log`. |
| `enter_spammer` | `0` | Set `1` to press Enter through the prompts after the skip. |
| `enter_interval_ms` | `120` | Time between two presses. |
| `enter_window_ms` | `12000` | Stop pressing this long after the skip. |

`F8` switches the skip off and on.
