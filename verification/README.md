# usrnet

A user space TCP/IP stack whose packet formats, checksums, address cache and
packet processing decisions are verified with Verus.

## Layout

- `src/` is the verified library.
  - `bytes`, `bits`, `check`: network byte order access (through the
    `byteorder` crate), bit fields and the internet checksum.
  - `repr`: Ethernet, ARP, IPv4, ICMP, UDP and TCP packet views and headers;
    `layers` and `net`: the earlier packet views that are still in use.
  - `text`: addresses written as text and read back.
  - `arp_cache`: the expiring map from IPv4 to Ethernet addresses.
  - `socket`: the set of raw, UDP and TCP sockets that received packets
    wait on and that queue packets to send, each UDP and TCP socket bound
    to an address and a port.
  - `service`: what an interface does with each frame it receives and each
    packet it sends. Its functions append the frames to send to a queue and
    hand received packets to the sockets of a `SocketSet`; they read the time through the
    cache's `Env`.
  - `dev`, `link`, `time`: the interfaces to devices, links and clocks.
- `app/` holds the system clock and the loops that move frames between a
  device and an interface; the order in which sockets send is decided by
  the library's send round.
- `tests/` holds the tests.
