# gbuf

A barebones gzip-backed text editor. The library under `src/` holds the
verified logic:

- `cfg`: reading the command line (`-flag`, `-key:value`, plain values) and
  the log of remarks made while reading it; `cfg_laws` proves what a command
  line gives, argument by argument.
- `encoder`: gzip coding of saved buffers, through flate2.
- `gbuffer`: the editor's settings, its log, and the reports and file names
  it produces when saving, opening, backing up and closing.
- `text`: splitting at a delimiter and reading decimal numbers.
- `utils`: names of backup copies and counting of stream lines.

`app/` is the program around it: the egui window, file dialogs, file and
stream I/O, and the local time.
