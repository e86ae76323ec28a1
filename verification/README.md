# videowall

The verified core of a desktop player for LiveKit video streams. The
player exchanges a bearer token and a JSON request body for LiveKit
credentials, joins the room, receives I420/YUV frames and shows them in a
Slint window after converting them to RGB on the GPU.

`src/` is the library, proved with Verus:

- `domain::text`: Unicode whitespace, trimming and prefix tests over the
  characters of a string.
- `domain::token`: `BearerToken` (trimmed, with an optional `Bearer `
  scheme removed) and `RequestBody` (the UTF-8 bytes of the body text).
- `domain::credentials`: `LiveKitCredentials` and the rewrite of
  `http`/`https` API URLs to `ws`/`wss` URLs.
- `application`: `AppError` and its message, `YuvFrame` and its chroma
  plane size, the `FrameSink` trait.
- `infrastructure::video_drains`: the drains of a session's video tracks,
  one per track, and the decision the session loop takes on each event.
- `infrastructure::token_exchange`: credentials or error for each reply of
  the token endpoint.
- `infrastructure::livekit_native_session`: the owned frame for a decoded
  I420 buffer.
- `presentation::gpu`: when the GPU input textures can be reused.

`app/` is the program around it: the Slint window, the HTTP request, the
LiveKit room and its event loop, and the GPU pipeline. `tests/` runs the
library on concrete values.
