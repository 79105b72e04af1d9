# hyprland_identity

Window identity and focus rules for a Hyprland session, verified with Verus.

Hyprland addresses a window by a pointer, which the compositor may use again for
another window. This library recognises a window by everything about it that
never changes, keeps a registry of the windows that may be trusted, and decides
which window may be captured, matched or given the keyboard focus.

- `src/` is the verified library. It never talks to the compositor: it takes what
  was read and says what to do next. `transaction` steps through one keyboard
  transaction under a temporary focus; `guarantees` states what holds of whole
  transactions.
- `app/` runs `hyprctl`, reads its JSON and keeps the registry of the process.
- `tests/` runs the library on concrete values.
