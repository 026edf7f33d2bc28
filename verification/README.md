# alttabio

The decision logic of AltTabio, a window switcher for Windows and macOS, written in Verus with
its contracts proved.

## Layout

- `src/` is the verified library.
  - `input.rs`: the Windows keyboard and mouse hook's gesture machine (Alt Tab, Win Tab, the
    right-button wheel gesture, owned key releases, replayed keys, typed search keys).
  - `hook.rs`: virtual keys, the action messages between the hook thread and the switcher
    window, the shared flag word with its generations, the observed keyboard, replayed input
    records and the desktop-switch recovery of modifier keys.
  - `deferred_switch.rs`: the bounded queue of switch actions held while the shell lets go of
    focus.
  - `passthrough.rs`: when full-screen remote desktop clients keep their own Alt Tab.
  - `settings.rs`, `text.rs`: the portable settings file, read and written back.
  - `about_dialog.rs`, `preview.rs`, `native_drawing.rs`, `renderer.rs`, `native_theme.rs`,
    `overlay_layout.rs`, `app_icon.rs`: the integer parts of the Windows windows (the About
    dialog, the live thumbnail's placement, frames, fonts and colours, the render target, the
    title-bar theme, the icon resources).
  - `app_switcher.rs`, `switcher.rs`, `macos/`: the macOS switcher: its session model, the
    hotkey machine, the key map, the window listing and its order, the panel's rows and
    pointer handling, previews, permissions and the settings checkboxes.
- `tests/` runs the library on concrete values.
- `app/` is the program around it: arguments, the settings file beside the executable, the
  atomic flag word, and the floating-point layout code.

The platform front ends (the Win32 hook thread, the switcher, About and preview windows, and the
macOS event tap and panel) call the operating system through the `windows` and `objc2` crates,
which this crate does not depend on. `app/front_end.rs` therefore only reports that no front end
is built and exits with an error, and `app/hook_flags.rs`, `app/overlay_layout.rs`,
`app/preview_layout.rs` and `app/mac_layout.rs`, which those front ends would call, are not yet
called from `main`.

Each module states its contracts over spec functions, and the properties that span several
calls stand as public proof functions whose names start with `law_`.
