# iroh-usbip

Host side of the USB/IP protocol: a registry of shareable USB devices, the wire format of
USB/IP handshake and transfer messages, the session logic that serves device lists, imports
and URBs, and the text formats of the Linux VHCI driver's sysfs files.

## Layout

- `src/` is the verified library (Verus).
  - `lib.rs`: USB descriptor types and the `UsbDevice` / `UsbDeviceHandle` traits with their
    contracts.
  - `protocol.rs`: byte layouts of all messages, request parsing and reply encoding, with
    round-trip lemmas.
  - `engine.rs`: planning and performing transfers, claiming and handing back interfaces, and
    the handshake / transfer-phase decisions of a session.
  - `registry.rs`: device queries, device names and listing lines, lookups.
  - `mock.rs`: an in-memory device with canned answers.
  - `vhci.rs`: reading VHCI status files and writing attach / detach commands.
  - `text.rs`: decimal and hexadecimal text, words and numbers in text.
- `app/` holds what touches the outside world: libusb devices (`rusb`), the async session loop
  over a byte stream (`tokio`), and sysfs file access.
- `tests/` runs the library on concrete values.
