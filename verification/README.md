# ersatz

Ethernet, ARP, IPv4 and ICMP packets for a user-space ping over a raw
socket, with their parsers and writers proved correct in Verus.

- `src/` is the verified library:
  - `parse`, `serialize`, `text`: reading and writing fields, and the
    relation between a parse result and its mathematical outcome.
  - `ethernet`, `arp`, `ipv4`, `icmp`, `blob`: the packet formats. Each has
    a mathematical reader (`parse_*`) and writer (`serialize_*`); the
    executable parsers and writers are proved to compute them, and the
    `lemma_*` proof functions state the round trips between them.
  - `inet_sum`: the Internet checksum as mathematics, with the proof that a
    checksum written into a packet makes it check to zero.
  - `netinfo`, `vls`, `error`: choosing the default network interface from
    the system's tables, and the two-call protocol of the Win32 table queries.
  - `interface`: which captured frame answers the ARP request for the gateway.
  - `ping`: the decisions of a ping through the system's ICMP service, and
    dotted-decimal addresses.
- `app/` is the `ping` program: raw sockets, threads and the Win32 calls.
- `tests/` runs the library on concrete packets.
