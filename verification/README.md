# Viewpoint

The client of a self-hosted desktop stream. It captures a monitor and the sound that the machine
plays, encodes both, and sends them to everybody who opens its link. A signalling server trades the
handshakes; sound and pictures go from peer to peer.

## Layout

- `src/` is the library. Each module states in contracts what it does, and Verus proves it.
  - `host`: who watches, who is about to, and what is done on each event
  - `viewer`: what is known of a viewer, when one is given up, and what is said of it
  - `startup`: what the client goes by when it starts
  - `signal`: requests to the signalling server, and what its replies mean
  - `webrtc`: the steps to a connection, what a viewer asks for, and what is sent when
  - `capture`: pictures of the desktop, and bitmaps of them
  - `encode`: scaling pictures, and making packets of what the codec puts out
  - `trace`: a look at what was encoded, for those who search for faults
  - `audio`: from captured bytes to packets of companded samples
  - `config`: the settings and their safe ranges
  - `h264`: what is believed of the codec
  - `text`: building and taking apart short texts
- `tests/` runs the library on concrete values, with the codec and the other crates linked.
- `app/` is the program around the library: files, the network, threads and the clock.

## What is believed

The functions marked `external_body`, the declared types and the `assume_specification` items
describe what other crates do: `openh264` in `h264`, `bytes` in `encode`, `reqwest` and
`serde_json` in `signal`, `rtc` and `rand` in `webrtc`, and `String::from_utf8` in `text`. Each says
in its doc comment what it claims.
