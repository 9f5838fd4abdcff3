# wow-hardware-fishbot

A fishing bot that runs on a Raspberry Pi: it watches the game through an HDMI
capture device, finds the bobber by edge template matching, and plays through
USB HID keyboard and mouse gadgets. The decisions are a Verus-verified library;
the devices and OpenCV are driven by the program in `app/`.

- `src/keyboard.rs`, `src/mouse.rs`, `src/pacing.rs`: HID report plans, the
  tracked cursor and random pauses.
- `src/vision.rs`: which template marks the bobber, and when a search is refused.
- `src/bot.rs`: the fishing loop as a state machine.
- `src/capture.rs`: capture settings.
- `src/geometry.rs`, `src/evaluation.rs`, `src/manifest.rs`: the offline
  evaluation's rectangles, configuration, manifest format and scoring.
- `app/`: the bot, `image-test` and `vision-eval`.

Match scores are doubles; the library receives them as integer order keys
(see `src/vision.rs`), which compare exactly as the doubles do.
