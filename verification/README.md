# nit_widgets

The widgets of an agent workbench for the terminal: a chat console, an operations pane with its
tabs, popups for artifacts, definitions, searches and analyses, an editor, a file tree and a status
bar.

`src/` decides what stands on the screen and what a click means. A widget takes the state of the
workbench as plain values and gives back lines, styles and areas. Every function there is verified
with Verus against its contract; the public proof functions state what the widgets promise
together, such as that a click on a line opens what the line shows and that a line in colour keeps
its text.

`app/` paints with ratatui, reads saved runs from the disk, asks the clock and computes what needs
floating-point numbers.

`tests/` runs the library on examples.
