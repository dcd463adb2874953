# boxmux

The verified core of BoxMux, a terminal dashboard made of boxes laid out
from a YAML file. The library is written in Verus: every function carries a
contract, and Verus proves each body against it.

## Layout

- `src/` — the verified library.
  - `bounds`, `position`, `constraints`: rectangles and their operations,
    positions written as cells or percentages, and the placing and sizing of
    a layout's boxes (size limits, children kept inside their top box).
  - `layout_tree`, `layouts`, `tab_order`, `focus`: the box tree of a
    layout (`Layout`) and the application (`App`) — lookups, replacement,
    hit testing by stacking order, selection, tab order and focus cycling,
    root and active layouts, and the set-up after loading.
  - `variables`, `box_variables`: `${NAME}`, `${NAME:default}` and `$NAME`
    substitution, with box, layout, application and environment scopes.
  - `common`, `muxbox`, `choice`, `sensitive_zone`: configuration, screen
    buffer, colours, boxes and their scripts, menu choices and clickable
    zones.
  - `pty`, `socket`, `signals`: the bookkeeping of PTY processes, the
    control-socket commands, and the resize loop's signal handling.
  - `rate_limiter`, `real_time_updates`, `messages`, `clock`: output rate
    limiting and debounced panel updates, with a record of the messages
    handed to the draw loop.
  - `plugin`: plugin manifests and permission checks.
  - `muxbox_diff`, `layout_diff`, `diff_values`, `diff_laws`: which fields
    of a box or a layout differ from another's (lists, menu choices and key
    bindings compared by their contents; children matched by id, added or
    removed), as a list of changes, how a list of changes is applied, and
    the laws they keep.
  - `yaml_edit`: edits of a parsed layout file — a box's field or position,
    the active layout — that save live changes back into it.
  - `keyed`, `text`: a keyed list and character helpers.
- `tests/` — tests of the library.
- `app/` — what surrounds it: field changes as JSON updates, PTY processes
  and their reader threads, reading layout files and plugin manifests,
  writing edited layout files back, the
  environment, the terminal's size, kill commands and the background update
  thread.
