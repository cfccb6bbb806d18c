# yonro_text_editor

A terminal text editor with tiled and floating panes, undo/redo, search and
a file explorer plugin. The editing, layout, command dispatch and drawing
decisions are a library verified with Verus; a thin program around it talks
to the terminal, the file system and the plugin thread.

## Layout

- `src/prelude.rs`: positions, sizes, rectangles and locations.
- `src/editor/`: the verified library.
  - text: `line`, `buffer`, `buffermanager`, `annotatedstring`, `annotation`,
    `utf8text`, `textfmt`, `stdtext`;
  - views and search: `view` (with the undo/redo laws);
  - layout: `layouttree` (splitting, removal, layout and divider laws),
    `pane`, `panemanager`, `paneops` (close, float, tile, split, explorer);
  - commands: `events`, `command`, `cmdline`, `handlers` (the handler chain
    and its routing law), `context`;
  - bars and drawing plans: `bufferbar`, `statusbar`, `documentstatus`,
    `commandbar`, `messagebar`, `border`, `fileexplorer`, `fileinfo`;
  - plugins: `plugins` (the file explorer plugin's decisions);
  - `mod.rs`: the `Editor` itself.
- `app/`: the program: terminal I/O with crossterm, file reading and
  writing, the plugin runtime on a tokio thread, and the main loop.
- `tests/`: tests of the library.
