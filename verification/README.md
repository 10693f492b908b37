# r-lanscan

A LAN scanner: ARP scanning finds the devices of a network, SYN scanning
finds their open ports, and the results print as a table or as json. The
library under `src/` holds the scanner's logic with its contracts, proved
by Verus; `app/` is the command line program around it.

## Layout of the library

- `targets`: IP targets (addresses, ranges, CIDR blocks) and port targets
  (ports, ranges), expanded in order.
- `packet`: the frames a scan sends (ARP requests and replies, SYN and RST
  segments, heartbeats), their Internet checksums, and the recognition of
  the frames it receives (ARP replies, SYN-ACKs).
- `scanners`: ports, port sets and devices, the decisions ARP and SYN
  scanning take on each target and each frame, and the heartbeat a scan
  sends itself.
- `report`: the devices a scan reports, collected once each in order of
  address, and the cells of the report tables.
- `cli`: the command line arguments, their defaults and checks, the log
  level and which reports print.
- `oui`: the organization a MAC address prefix is registered to, from the
  IEEE tables or the tables built into `oui-data`.
- `term`: the device view of the terminal interface (its forms and keys),
  its widgets, and the commands it runs.
- `net`, `text`, `error`: addresses and their text, decimal parsing, and the
  library's errors.

## Outside crates

Calls into outside crates (`clap`, `humantime`, `csv`, `ipnet`, `pnet`,
`oui-data`) stand behind small trusted functions whose contracts state or
name what the crate computes; everything around them is verified. pnet's
checksums are stated as the one's-complement sums they are, and the TCP
frames the library builds are proved to carry checksums that verify.
