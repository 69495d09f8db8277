# mirror_host

The host of a wireless second screen: it captures the desktop of a Windows or
Linux machine, encodes it as H.264 and sends it to televisions and browsers over
WebRTC.

- `src/` is the library, verified with Verus: the Annex-B stream (`annexb`,
  `engine`), the choice and the arguments of encoders (`selection`, `gst_engine`,
  `ffmpeg_engine`), the in-process pipeline (`capture`, `convert`, `encoder`,
  `pipeline`), what viewers get (`session`, `pump`, `signaling`, `protocol`),
  sound (`audio`, `audio_route`, `audio_route_linux`), screens and the cursor
  (`vdd`, `screencast`, `cursor`, `focus_follow`), the panel and the command line
  (`gui`, `cli`), and the texts under them (`text`, `utf16`, `payload`).
- `tests/` runs the library on concrete values.
- `app/` is the program around it: processes, devices, the network, the panel.

Functions of `src/` state in `ensures` what they return; the functions whose names
begin with `law_` state what holds across them.
