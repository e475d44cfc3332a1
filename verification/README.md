# efi_pong

A UEFI boot chain in which the bootloader first runs a game of Pong and boots
Linux only when the player wins. The logic of the chain is a Verus library:

- `src/status.rs`: UEFI status codes, and how the firmware's answers turn
  into results (through r-efi's own status definitions).
- `src/boot.rs`: the bootloader as a state machine from one firmware call's
  outcome to the next call, with its laws (every boot ends; Linux is loaded
  only after a won game).
- `src/game.rs`: the game: ball, paddles, computer player, one frame.
- `src/screen.rs`: drawing the game into a framebuffer.
- `src/utf16.rs`: the NUL-terminated UTF-16 strings UEFI takes.

`app/` holds the firmware side: the entry points of the bootloader, the game
and the Doom image, and the raw firmware calls they make.
