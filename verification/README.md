# fetch_bridge

A guest program that has no network of its own fetches through its host: it
writes a serialized request to the device file `/frachter/fetch` and reads the
serialized response back, with plain synchronous file operations.

- `src/` is the library, verified with Verus: the shared request and response
  slots with their sequence words, the guest's wait, the error object a guest
  reads when no host answers, the device file and its filesystem, the debug
  probe, and the laws that hold of whole exchanges (`src/laws.rs`, and beside the
  functions they speak of).
- `app/` binds the library to a browser: the bridge at a fixed address in shared
  memory behind a lock, the clock, parking and waking threads, the JavaScript
  API and the `virtual_fs` traits.
- `tests/` runs the library on concrete values.

Four calls into other crates are trusted: reading from a cursor (`tokio`), the
types of files and of directories (`virtual_fs`), and the WebAssembly text parser
(`wasmer`). Each stands in a small function whose comment says what is claimed.
