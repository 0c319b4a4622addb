# Yamato

Fan control for ThinkPads: a temperature curve, an engine that drives the fan
along it, and everything that has to happen for the fan never to be left held
at a fixed level with nobody watching it.

- `src/` is the library. It computes and decides, and its functions are verified
  against their contracts. Two functions of the standard library are believed:
  `String::push`, and `String::from_utf8_lossy` behind a wrapper; their
  contracts stand in `src/text.rs`. The library reads no file, touches no port
  and asks no clock: what happened outside comes in as a value, and what should
  happen next goes out as one.
- `app/` is the program around it: the controller's ports, the settings file,
  the service, the tray icon and the windows.
- `tests/` runs the library on concrete values.

Work that alternates decisions and the outside world comes in two shapes. A
conversation (`Ec::sample`, `EcLock::lock`, `service::install`) is a function of
everything heard so far, which says what to do next or how it ended. A run
(`Host`, `Logger`, `RunLoop`, `ImportRun`) holds its own state and is told one
thing at a time.

What the program promises as a whole stands in `src/` as public proof
functions, each beside the functions it speaks of.
