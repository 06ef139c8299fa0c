# rcad

The core of a parametric CAD system with a production-line digital twin,
written in Verus. The functions under `src/` carry contracts that Verus
proves, except the small trusted wrappers (marked `#[verifier::external_body]`)
around calls into `std`, `uuid`, `indexmap` and `gltf`: their contracts state
what those calls do and are believed, not proved. Functions that read the
system clock state only what holds whatever time it reads.

- `src/` — the verified library: feature tree and document model, undo/redo
  history, constraint bookkeeping, mesh formats (OBJ line classification and records,
  binary STL, glTF buffers and JSON document, USD stage text, base64, STEP
  text checks, texture colour sampling), mesh welding, the Omniverse connector and
  live-sync state, the server's request handling decisions (AI proxy guard
  rails, generation polling, uploads, exports), and the process-flow engine
  of the twin (routing, counting, automation rules, operator commands).
  Public `law_*` proof functions state properties that span several calls.
- `tests/` — tests run against the compiled library.
- `app/` — the HTTP/WebSocket server around the library: networking, files,
  async tasks, and the floating-point arithmetic (coordinates, normals,
  travel and dwell times) that the library leaves to its callers. Floats
  cross the boundary as IEEE-754 bit patterns.
