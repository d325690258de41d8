# y4music

A self-hosted Discord music bot. Everything the bot decides lives in a library
verified with Verus; a thin program around it talks to Discord, yt-dlp, ffmpeg
and SQLite.

## Layout

`src/` is the library. Each function carries a contract that says exactly what
it returns or changes; the functions named `law_*` state what holds across
functions, and Verus proves them.

| Module | What it decides |
|---|---|
| `player::state`, `player::track`, `player::queue` | per-guild state, seeking, and the order of the playback queue with its loop clones |
| `player::ui`, `player::panel` | what the Now Playing panel shows, which message carries it, and what its buttons do |
| `player::lifecycle`, `player::voice`, `player::events` | auto-leave timers, teardown, silence pauses, and what a playback event sets in motion |
| `audio_source`, `eq` | the ffmpeg and yt-dlp command lines, stream selection, and the EQ filtergraphs |
| `ytdlp`, `json` | what yt-dlp's output says |
| `playlist`, `models` | playlist permissions, track order and imports |
| `pagination`, `commands` | paged lists, and what each slash command answers |
| `config` | the environment, and which part of the bot a component press is for |
| `text`, `time`, `double`, `discord` | texts, spans of time, double-precision arithmetic on integers, and Discord's messages as plain values |

Calls into other crates (`serde_json`, `rand`, `dashmap`) go through small
functions marked `external_body`, each with a doc comment that says what is
taken on trust.

`tests/` runs the library on concrete values. `app/` is the program: gateway
events, the audio driver, processes and SQL.
