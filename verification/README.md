# yumi-wini

A scrolling, tiling window manager for the desktop. Windows stand in
columns on workspaces; workspaces lie on a vertical strip, and switching
between them slides the view along it.

- `src/` decides. Each handler takes the state, an event and what is seen
  of the desktop, and returns the effects to carry out. Its contract
  gives the new state and the effects exactly. `src/laws.rs` states what
  holds of the program as a whole: windows that the program hides itself
  stay managed, a suspended program moves nothing, the desktop is left as
  it was found.
- `app/` carries the effects out: it owns the message loop, talks to the
  window system, and drives the layout engine and the animations.
- `tests/` run the handlers on concrete desktops.
