# face_authd

Local face authentication for Linux through PAM: a daemon that reads an
infrared camera and matches faces against enrolled templates, a PAM module
that asks the daemon over a Unix socket, and a command-line tool for
enrollment, verification and camera diagnostics.

## Layout

- `src/` is the library, written in Verus and verified. It holds the logic
  of the project with its contracts:
  - `protocol`, `daemon`, `pam`, `provider`: the messages on the socket,
    what the daemon answers to each request, the PAM result for each answer,
    and the decisions an authentication attempt makes before a face match;
  - `camera`, `vision`: choosing a capture device, converting GREY, YUYV and
    MJPG frames to 8-bit grayscale, PGM files, luma counts;
  - `controls`: V4L2 control names, types, flags and values;
  - `enrollment`, `models`: where enrollments live, their AES-256-GCM
    envelope, model files and their checksums;
  - `args`, `cli`, `emitter`: option parsing and the decisions of the
    command-line tool;
  - `text`: characters, decimal text, trimming, splitting and ordering;
  - `laws`: properties that span several functions.
- `tests/` runs the library on concrete values.
- `app/` is the program around the library: `main`, the socket server,
  device I/O through V4L2 ioctls, the keyring, downloads, the dlib
  recognizer, the preview window and the PAM entry points.
