# droidloom

Android tasks as windows of a Linux host. The library holds the decisions of
that system as verified functions; `app/` holds the sockets, files, clocks and
GL calls around them.

## What the library decides

- `protocol`: the packets between the Android adapter and the host compositor,
  and the lifecycle of one task object.
- `ipc`: the bounds of one packet and its descriptors.
- `composer`: displays, layers, validation and presentation of the hardware
  composer, batches of commands, bindings to host tasks and their identities.
- `endpoint`: the host side of one connection.
- `transport`, `sink`, `minigbm`, `gles`: render targets, layer buffers, and
  what is handed to GL for them.
- `aidl`, `service`, `vsync`: the composer service as SurfaceFlinger sees it,
  and its clocks.
- `control`, `input`, `surface`, `events`: task control, host input, lent
  render targets, and the events of the host.
- `launcher`, `package`: launching an activity as one window.
- `classpath`, `lmkd`: helpers of the Android cell.
- `describe`: the texts of the errors.
- `ordered`, `text`: maps in key order and text as characters.

Functions whose names start with `law_` are proved statements about the library
as a whole: what a message reads back as, what every operation keeps, and what
one call undoes.

## What is trusted

Five items of the standard library are described and not proved: reading UTF-8
(`protocol::wire`), a mutable look-up in a `BTreeMap` (`ordered`), appending a
character to a `String` (`text`), replacing what is not UTF-8 (`launcher`), and
quoting a string for a diagnostic (`launcher::client`). Each names the function
that it stands for.

## Layout

- `src/`: the library.
- `tests/`: what it does on concrete values.
- `app/`: the programs. Each takes the parts of the platform that it cannot
  reach itself, such as a Binder or a DRM device, as a trait of
  `app/platform.rs`.
