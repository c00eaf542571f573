# itemviewer

The navigation bar of a file explorer's item viewer and its Windows clipboard
exchange, with the decision logic written in Verus and proved against its
contracts.

- `src/` is the verified library: Windows path components and breadcrumbs,
  their layout, path editing, the toolbar and drag-and-drop decisions, UTF-16
  encoding and decoding, the blocks written to the clipboard, and the order of
  operations of each clipboard exchange (as step functions from an operation's
  outcome to the next operation, what to release, and what to report).
- `app/` draws the bar with egui and performs the Win32 clipboard calls, asking
  the library at each step what to do.
- `tests/` runs the library on concrete values.
