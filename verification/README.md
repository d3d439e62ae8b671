# rmb

A Discord music and voice bot. The decisions it makes are a library proved
with Verus; the Discord client, the voice driver and the network calls sit
around it.

- `src/` — the verified library:
  - `player` — the queue and playback switches of a voice session, as a state
    machine from command or track event to new state and effect;
  - `embed`, `log`, `radio` — the queue message, the session log and its
    chunking, the radio station's now-playing report;
  - `commands`, `voice`, `numbers`, `message`, `transcribe` — slash commands
    and the control panel, spoken commands and numbers, text messages read
    aloud, the transcription channel map;
  - `media`, `youtube`, `gemini`, `image_fx`, `audio`, `duration`, `text` —
    downloader arguments and results, search and speech helpers, the model's
    request and reply, the image effect, sound helpers, and string specs;
  - `laws` — properties that span several functions.
- `tests/` — tests of the library on concrete values.
- `app/` — the bot itself: configuration, the Discord event handler, the
  session loop that drives the voice driver, and the calls to outside services.
