# rfvp_hosted_provider

The logic of an FVP engine that runs inside a host: archives and scripts are read and
audited, the host's files are paged, a session is stepped and its output is turned
into the host's commands. Every function under `src/` carries a contract that Verus
proves; what needs floats, threads or I/O stands in `app/` and calls the library. So do
the movie codecs, which hand out floats and can panic on malformed files.

## Layout

- Formats: `hcb`, `archive`, `audit`, `nls`, `manifest`, `catalog`.
- Mounts and files: `source`, `paging`, `vfs`, `hosted_host`, `host_api`, `options`.
- Engine state: `engine_core`, `global`, `input`, `old_school`, `videoplayer`,
  `framebuffer`, `surface`, `recording`.
- Sessions: `runtime`, `booting`, `session`, `adapters`, `provider`, `registry`,
  `step`, `stepper`, `family`.
- Movies: `movie`, `yuv`.
- Shared: `text`, `bytes`, `digest`, `names`, `fault`, `float`.

## Working with outside crates

SHA-256 (`sha2`), character decoding (`encoding_rs`), JSON (`serde_json`) and the two
binary encodings (`postcard`, `bincode`) are called through small wrappers whose
contracts are believed. Each wrapper's doc comment names the function it calls and
says what is claimed of it.

Work that only the host or the engine can do is asked for and answered: a verified
function hands out a request (a byte range, an engine call, a hook message), the
caller performs it, and the reply goes to a verified function that decides what
follows.
