# resonance

Peer-to-peer voice rooms: a room of up to eight peers, a bootstrap protocol that
exchanges X25519 keys over UDP and authenticates them before anything else is sent, a
room handler between the interface and the network, connection and join links, STUN
requests, and the state of the terminal interfaces.

## Layout

- `src/` is the library, verified with Verus. Every public function states what it
  returns or changes (of a random result, what every outcome satisfies); the laws that relate several functions are public proof functions
  (`lemma_*`).
  - `room_core`, `room`, `room_handler`: identifiers, the room state, the handler that
    turns commands and network events into outputs.
  - `protocol`, `address_book`, `phase1`, `crypto`: the bootstrap protocol, as a state
    machine from a message to the next state and the actions to perform.
  - `p2p`, `stun_client`, `secure_channel`, `connection_manager`, `signaling`,
    `room_link`, `net`: links, STUN messages, the secure channel, endpoints.
  - `session`, `app_state`, `app_config`, `config`, `settings_manager`: sessions, the
    application object and configuration.
  - `cli_app`, `terminal_ui`, `menu`, `participant_list`, `commands`, `audio`: the state of
    the two terminal interfaces, slash commands and audio devices.
  - `qr_code`, `security`: join links drawn as QR codes, and the placeholder security
    module.
  - `text`: strings as character sequences, and their lemmas.
- `tests/` runs the library on concrete values.
- `app/` is the program around it: terminal, sockets, timers, serialization, and the
  parts computed on floating-point values.

Outside crates are called through small trusted wrappers (`uuid`, `rand`, `x25519-dalek`,
`chacha20poly1305`, `hkdf`, `hmac`, `base64`, `qrcode`). Their contracts state what the
crates' sources show; a result that is random (a secret key, a nonce, a transaction
identifier) has nothing stated of it beyond what every outcome satisfies, and a result that
takes pages to define (a hash, a cipher text, a rendered QR code) is given a name that the
contracts speak of.
