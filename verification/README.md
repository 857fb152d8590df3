# js_gui_rs

Use a web page as the GUI of a Rust program: the program sends JSON drawing
commands over a websocket, and the page draws them on a canvas or with
Chart.js.

- `src/` is the library, verified with Verus: the JSON writer (`json`,
  `decimal`), the drawing commands (`commands`), the websocket decisions
  (`protocol`) and the PNG data URLs (`vec_png_base64`).
- `app/` holds the GUI handle `JsGui`: the websocket server thread, the
  console and file work, and the formatting of floating-point values.
- `tests/` runs the library on concrete values.
