# veiltype

A terminal editor that keeps what you type hidden: the screen shows a decoy editor that
types out sample code, while the real text is kept aside and copied to the clipboard on
`Ctrl+S` (`Esc`, `Ctrl+Q` and `Ctrl+Z` leave without copying).

The library under `src/` is written in Verus and verified:

- `text`: UTF-8 widths and the character classes used for editing;
- `lines`: where lines begin and end, and line counting;
- `keys`: key events as the editor reads them;
- `editor`: the buffer, the cursor (a byte offset always on a character boundary) and
  every editing key; `editor_laws` states what the operations promise together;
- `fake`: the decoy typer and its language profiles; `clock` reads the time that seeds it;
- `session`: routing of keys and pastes between the hidden buffer and the decoy, scrolling
  and the status text;
- `clipboard`: the order in which clipboard providers are tried and the OSC 52 sequence.

`app/` holds the terminal program: drawing with ratatui and syntect, reading events with
crossterm, and talking to the clipboard providers.
