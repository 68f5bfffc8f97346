# faceid

Scoped on-device face recognition. A face is registered globally or under
one event, and recognized under a context: the global registry is always
searched, and an event context adds that event's registry on equal footing.

## Layout

- `src/` — the verified library (Verus):
  - `recognition/` — the registry of registrations (`store`), its scoping
    types (`scope`), the laws it obeys (`laws`), and the registry file's
    line framing (`registry_file`);
  - `detection` — best-first ranking of detections and greedy non-maximum
    suppression;
  - `photo` — loading a photo: EXIF orientation, decoding to RGB8, and the
    flips and quarter turns that make it upright;
  - `liveness` — the anti-spoofing verdict on the model's class
    probabilities;
  - `models` — the checks a loaded model's signature and outputs must pass,
    and the choices derived from them (input size, layout, outputs, anchors);
  - `pipeline` — which steps run for a set of options, the one-face rule of
    enrollment, EXIF orientation fixes;
  - `server` — the REST API's request forms, switches and response bodies;
  - `score` — similarity scores as binary32 encodings with IEEE ordering;
  - `config`, `error`, `text`, `types`.
- `tests/` — tests of the library.
- `app/` — the `faceid-server` binary: file reading, the LiteRT / ONNX
  Runtime model stages (floating point), the Kiddo k-d trees that answer
  nearest-neighbour queries, JSON Lines persistence, and the axum server.
