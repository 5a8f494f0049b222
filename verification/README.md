# Rusty Calendar Pi

A lightweight week calendar for a desktop window or a Raspberry Pi screen: four
weeks of events from ICS calendars, a header to move between weeks, and a
footer that shows how the background sync is doing.

The decisions of the program live in a library whose functions carry
proved contracts:

- `theme`, `pixel`: colors, the palette, `#RRGGBB` parsing, pixel packing,
  alpha compositing and copying frames into scan-out buffers.
- `text`, `table`: decimal and padded text, and the tables the command line prints.
- `dates`: calendar dates, week numbers, the first shown Monday and the Dutch
  month headings.
- `style`, `node`, `layout`, `builder`, `grid`, `components`: the node tree of
  the screen, the builders that describe parts of it and the tree they create.
- `screen`: the header, footer, weekday row and calendar grid of the screen.
- `calendar`, `ics`: the configuration, calendar ids and styles, grouping
  stored items by day, reading calendar files and what a sync changed.
- `app`: the state of the running screen: navigation, idle reset and the
  sync footer.
- `display`, `touch`: the Pi display's choice of mode, encoder and CRTC, the
  once-a-second tick schedule, and the touch screen's events.

The items grouped by day are a `Vec<DayItems>` in which no date occurs
twice. The screen's nodes are a `Vec<LayoutNode>` in creation order, one
record per tree node; what a node shows is the description stored under its
name, the record of the last node created with that name, so creating a node
under a name already in use replaces the description that the earlier node of
that name shows.

`app/` is the program around it: the command line, the configuration file,
the SQLite store, downloads, the sync worker, the desktop window that lays
out, paints and shows the screen, and the DRM/evdev renderer of the Pi.
`tests/` runs the library on concrete values.
