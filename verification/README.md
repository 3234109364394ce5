# moonlight-web

A browser front end for Moonlight game streaming, with its rules verified by Verus.

- `src/` is the library: the rules of the server and of the streamer process. It
  holds what is decided and computed, on plain values, with contracts and laws
  that Verus proves. It reads no clock, opens no socket and touches no file.
  - `api`: settings, logs and the session between a browser and its streamer.
  - `storage`: the records of users, hosts and roles, their older forms, and how
    the file is replaced.
  - `ipc`: the lanes and frames between server and streamer.
  - `lifecycle`, `native_start`, `stream_start`, `streamer`: the life of a stream.
  - `adaptive_bitrate`: when the bitrate is reduced.
  - `input`, `input_history`, `native_input`: what the browser holds, after any
    history of packets, and what the host is sent.
  - `web_rtc`, `web_socket`, `web_transport`: the transports.
  - `outside`: the calls into other crates, with what is believed of them.
- `app/` is the program around it: pipes, sockets, files and the Moonlight client.
- `tests/` runs the library on concrete values.
