# displayd

Monitor control over VESA DDC/CI and EDID, written in Verus.

- `src/ddcci/`: DDC/CI checksums, framing (`packet`), VCP commands and replies
  (`protocol`), the device conversation over a `Transport` (`device`), reply
  buffers and read retries (`transport`), and device-name filtering (`discovery`).
- `src/edid/`: the EDID block checksum, parsing of the base block, and the
  block-by-block reader (`read`).
- `src/control.rs`: the requests that `displayctl` sends for a feature.
- `src/daemon.rs`: the decisions of the `displayd` daemon (default monitor,
  cache entries, DRM connector names, hotplug changes, command words).
- `src/text.rs`, `src/platform.rs`: std and i2cdev items that the library uses.
- `app/`: the daemon and the client around the library: I²C and file I/O,
  sockets, tokio, clap and serde.
