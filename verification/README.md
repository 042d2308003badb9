# widget_containers

The state and rules of a retained-mode GUI toolkit's container widgets, written in
Verus with their contracts proved: parameter panels (rows, sections that collapse,
spinners, a small code editor), menu bars and their dropdowns, paginators, path
breadcrumbs, groups and plain containers.

## Layout

- `src/` — the verified library. Each widget is a model of its state; a host hands it
  what happened (a press on a row, a key, a wheel notch) and reads back what changed.
  - `text`, `number`, `cursor`: characters, decimal numbers and line/column positions.
  - `editor`: the code editor's keys and their effect on buffer and cursor.
  - `param_spec`, `row_widgets`, `param_column`, `param_panel`: the parameter panel's
    row types, the widgets each row seeds, the vertical layout of its row column, and
    the panel itself.
  - `strip`, `menu_bar`, `paginator`, `breadcrumb`, `group`, `container`, `element`,
    `ring_layout`, `adapted`: the other containers.
  - `elements`: the flat variants that answer events themselves.
- `tests/` — tests on concrete values, run against the compiled library.
- `app/` — host-side code that stays outside the proofs: pixel geometry in floating
  point, callbacks, and the rasterized tab labels drawn with `resvg`.

Each public proof function (`lemma_*`) states a property of the library as a whole,
such as a section that is collapsed and expanded again ending where it began, or a
cursor's line and column leading back to the same cursor.
