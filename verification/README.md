# slightshot

A screen-capture overlay for Windows: a global hotkey freezes the desktop,
the user drags out a region, annotates it (pen, line, arrow, rectangle,
marker, text) and then copies, saves or uploads it.

`src/` is the library that Verus checks: the pixel conversions, the hasher,
the annotation history and palette, glyph compositing and the glyph atlas,
the toolbar model, the dimmed backdrop and block copies, the PNG and upload
framing, the reading of the image host's reply, and what toolbar commands
do to a session. Its logic is verified against contracts; the calls it makes
into std, tiny-skia, png and serde_json go through a few small trusted
wrappers whose contracts say what those libraries document, and the clock
wrappers promise nothing of the time they read.

`app/` is the program around it: the window, input and event loop, screen
capture, clipboard, file and network access, font loading, and all drawing
and layout that is done in floating point.

`tests/` exercises the library from outside.
