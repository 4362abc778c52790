# cutekit

The integer core of a small rendering toolkit for very limited hardware (a 320 × 240
RGB565 screen drawn in 80 × 60 tiles), verified with Verus.

- `src/color.rs`: RGB565 colours and their channels.
- `src/draw_tools/`: pixels, lines, rectangles and textured regions in a caller-owned
  frame buffer; the nine-parts rectangle.
- `src/renderer2d/`: the tile renderer: rectangles, outlines, lines, sprites (copied,
  stretched or tiled), nine-parts rectangles and text; the bounded draw queue; drawing
  a queue into a tile.
- `src/gui/`: the layout system: primitives and containers, margins, anchors, expanding
  containers, and the menu that lays a tree out on the screen and queues its elements.
- `app/`: the program around the library: the display (frames written as PPM pictures),
  the frame loop, and the shapes computed with floating point (circles, rounded
  rectangles, anti-aliased lines and textured triangles).

Every function in `src/` states its result in its contract; the laws of the library
(reading back a written pixel, what queuing keeps, blending extremes, how forced sizes and
detached nodes behave, tiling and stretching) are public proof functions beside the code
they speak of.

Two data layouts are the library's own:

- The draw queue holds its elements in a `Vec` whose length never exceeds the queue's
  capacity `SIZE` (a type invariant), so the contracts can speak of its contents.
- Textures keep their bytes; a pixel is three of them, the RGB565 colour low byte first
  and then the opacity, and verified code decodes it where it is read.
