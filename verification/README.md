# push-receiver

A receiver of push notifications by way of Google Cloud Messaging (GCM) and Firebase Cloud Messaging
(FCM), whose logic is verified with Verus.

A receiver goes through three stages: the check-in, which gives it an identity; the registration, which
gives it a token and keys; and a session with the Mobile Connection Server (MCS), which brings the
messages. Encrypted payloads are decrypted on the way.

## Layout

- `src/` is the verified library.
  - `codec` cuts the byte stream into frames and writes frames; `stream` states the laws of the two.
  - `mcs` is the session as a state machine from events to actions; `session` states its laws.
  - `client` decides what becomes of a data message and when to reconnect.
  - `decrypt` opens payloads.
  - `checkin`, `register` and `android_fcm` make the requests of the first two stages and read the
    answers; `form` holds the parts that they share.
  - `proto` and `error` hold the types, `text` the work on strings.
  - `buffer`, `crypto`, `encoding`, `json` and `random` hold what is taken from other crates, with the
    contracts that are relied on.
- `tests/` runs the library on concrete values.
- `app/` is the asynchronous client around it: HTTP, TLS, Protobuf bodies and tasks.
