# proc-dash

A process dashboard for the terminal with three tabs (processes, GPU, NPU),
sorting, filtering, a tree view, usage histories, and kill / signal / renice
from the keyboard. It reads `/proc` directly and refreshes every 500 ms.

## Layout

- `src/` is the verified library, proved with Verus:
  - `text.rs`: text helpers with the meaning of the std functions they stand
    for (`trim`, `split_whitespace`, `lines`, `parse`, `{}` and padding).
  - `parse.rs`: reading `/proc/stat`, `/proc/<pid>/stat` and `status`,
    `/proc/meminfo`, `/etc/passwd`, sysfs numbers and DRM fdinfo texts.
  - `proc_info.rs`: the process collector (CPU ticks between collections,
    user names, the tree of children) and the GPU and NPU tables.
  - `sorting.rs`, `stable.rs`: sort keys and the stable sort of the tables.
  - `app.rs`, `input.rs`: the dashboard state and what each key does; the
    outside work a key asks for comes back as an `Action`.
  - `ui.rs`: the table rows (and which one is highlighted), the table
    titles, the status line and the prompt texts, what the screen is made of
    for each tab and input mode, and the layout arithmetic. The fixed labels
    of the widgets (tab names, column names of the GPU and NPU tables, gauge
    names) are written where they are drawn, in `app/draw.rs`.
  - `history.rs`: the bounded usage histories.
- `app/` is the program: the terminal, reading the files, drawing with
  ratatui, sending signals and setting nice values, and the floating-point
  percentages.
- `tests/` runs the library on concrete inputs.
