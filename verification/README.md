# OpenFrame Console

The desktop application for OpenFrame: a tray application around the bundled web interface
that keeps a session alive, delivers notifications while no window is open, and signs in
through the user's own browser.

- `src/` is the library, verified with Verus. It holds what the application decides and
  computes, with a contract on every function:
  - `tokens`, `login`, `config`, `link`: the session. When tokens are refreshed, what an
    attempt settles as and what becomes of the stored tokens; the login in the browser and its
    callback; the hosts.
  - `notifications`, `notification_actions`, `chat_api`: what arrives, what the user is told,
    what a button does and under which session.
  - `windows_toast`, `windows_activator`, `macos_un`: what each platform is handed, and what
    it hands back.
  - `nats`, `updater`, `autostart`, `window`: the connection, updates, start at login, and
    what windows, tray and process do about each event.
  - `json`, `percent`, `text`: the values and texts that the rest is written in.
- `app/` is the application around it: files, sockets, windows and the platform's own calls.
- `tests/` runs the library.

What spans several functions is stated as a public proof function beside them: that a refresh
hands back what is stored, that only the user a notification was delivered to can act on it,
that a link or a button reads back as what was put into it, that no launch after the next has
anything left to register.

A few outside calls are believed rather than proved. Each is a small function with a comment
that names the call and says what is claimed of it: JSON text (`serde_json`), percent-encoding
(`percent-encoding`), URLs (`url`), base64 (`base64`), and the clock.
