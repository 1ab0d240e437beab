# openlogi_inject

Turns bound actions into operating-system input events: keyboard edges, clicks,
media keys, scroll frames, scripts, and outputs that stay held for as long as a
physical press lasts.

The library decides what has to be posted and proves it with
[Verus](https://github.com/verus-lang/verus); `app/` performs the posts.

| Module    | What it holds                                                        |
|-----------|----------------------------------------------------------------------|
| `binding` | platforms, chords, effects, actions                                  |
| `chord`   | the text form of a chord                                             |
| `keymap`  | USB HID usages as macOS and Win32 virtual keys                       |
| `held`    | reference counts for shared keys, the modifier record                |
| `hold`    | held outputs: press, retarget, release, and what each posts          |
| `laws`    | what holds of held outputs as a whole                                |
| `script`  | the backend calls of scripts and workflows                           |
| `posting` | which events of a group are posted when some cannot be built         |
| `macos`   | the native commands of each effect                                   |
| `scroll`  | which scroll frames are posted                                       |
| `inject`  | the entry points that choose a backend                               |

The platform is a value, not a build setting, so every platform's decisions are
verified and tested on any of them.
