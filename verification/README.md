# village_tui

The verified core of a terminal client for a peer-to-peer village (a
catalog of swarm contents laid out as streets of tiles) and forum.

- `src/` is the library, checked by Verus: the village layout, the
  catalog's index of contents by tag and its rings of street names, the
  catalog's state machine (what each tile, key, menu choice, selection,
  editor or creator result and each message from the swarm does, as
  effects for the client to perform, with the screen's requests and the
  swarms' messages kept until they can be served and then handed back in
  the order they came), the context menu and the list of a content's
  pages, the content creator, text editing (text buffer, editor, one-line
  input), the selector and dialogs, forum entries and their byte format,
  the forum board's paging and filtering, the forum's presentation state
  machine, requirement trees, the policy editor's pyramid (its layout,
  the cells its blocks and labels cover, and the order it is drawn in),
  the forum menus, and the client's configuration.
- `tests/` holds the tests, run against the compiled library.
- `app/` is the terminal program around it: reading the configuration
  from disk, the terminal screen (animaterm), and the key loops that hand
  keys to the library and perform what it returns. The networking library
  that connects the client to swarms is not part of this build, so the
  requests meant for a swarm are reported rather than sent.
