# jingzhuo

The core of 静桌, a transparent desktop overlay for Windows (clock, weather, focus
timer, wallpaper rotation, music bar, assistant panel, archive and read access to
authorised folders), written in Verus and proved against its contracts.

## Layout

- `src/` — the verified library.
  - `text.rs`: character sequences, Unicode trimming, searching, lines, decimal numbers.
  - `clock.rs`: wall-clock readings and the texts derived from them.
  - `paths.rs`: paths as text plus components, joining, prefix tests and their order.
  - `config.rs`: settings, their normalisation, the guard against saving an emptied form,
    and the recovery of settings from damaged JSON.
  - `file_access.rs`: the application's folders, authorised folders, indexing rules and
    the checks made before a text file is read.
  - `archive.rs`: day files of messages and cards and the compacted day summary.
  - `wallpaper.rs`: the two-folder wallpaper rotation and the slideshow registry writes.
  - `weather.rs`: when the weather service is asked and how its answer reads.
  - `ai.rs`: the assistant's prompts, the messages sent and how the answer is read.
  - `audio.rs`: the music bar's sample window, sample decoding and loop pacing.
  - `shortcuts.rs`: the global shortcuts and their actions.
- `tests/` — tests of the library on concrete values.
- `app/` — the Tauri shell: commands, files, network, devices and the floating-point
  spectrum, calling the library for every decision.

Laws of the library are the public `law_*` proof functions; each states in its doc
comment what it proves.
