# clipforge

A clipboard history manager. The library in `src/` is written in Verus and
holds what the application decides: normalising copied text and deciding
whether to record it, presenting history entries (preview, kind, age),
moving the selection in the list, choosing and ordering schema migrations,
and the settings. Its contracts and laws are checked by Verus.

`app/` is the program around it: polling the system clipboard, the SQLite
store, the settings file and the window.

Layout of `src/`: `text` (white space, normalisation, trimming), `decimal`,
`clock`, `time_ago`, `models`, `item_view`, `selection`, `service`,
`listener`, `migration`, `settings`, `state`, `events`.
