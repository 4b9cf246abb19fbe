# jlucourse

A course-enrollment assistant for the Jilin University course-selection site,
with its decision logic verified in Verus.

- `src/` — the verified library:
  - `upstream`: the proxy's allow-list (`https` to the course server only) and
    the GET endpoint map;
  - `forward`, `form`: how a POST to the proxy becomes the upstream request
    (headers, urlencoded body, query), and the form encoding;
  - `fallback`: the script that carries the session into the embedded
    official site, with the token written as a JSON string literal;
  - `state`: the session state and the login / batch / course-list steps;
  - `enroll`: reply classification, the ring search for the next course and
    the run bookkeeping shared by the polling workers;
  - `status`, `toast`, `console`, `text`: status-line kinds, notifications,
    screen navigation and the string helpers they use.
- `tests/` — tests of the library.
- `app/` — the proxy server (actix-web), the browser front end (Leptos) and
  the desktop shell (Tauri), which perform the I/O and call the library.
