# quincy_tun

The verified core of a cross-platform TUN interface library.

`src/` is the library, every function with its contract and proof:

- `netmask` — prefix lengths and netmasks for IPv4 and IPv6, with the laws
  that a netmask determines its prefix length.
- `decimal` — decimal reading of unit numbers and decimal rendering of names.
- `builder` — the device builder, the configuration it hands to the platform,
  and the ordered plan with which a created device is configured.
- `utun` — the kernel control unit of a utun device name, and C name fields.
- `adapter` — the search for the wintun adapter of a new device.
- `wintun`, `mobile` — what the platform devices compute before and after
  talking to the system.
- `batch` — validation and progress of batched, offloaded packet I/O.
- `fd` — ownership of POSIX descriptors and the outcome of read/write calls.
- `interfaces` — picking the entries of one interface from the system's list.

`app/` holds the platform side: conversions from `std::net` values and
strings, the builder front-end, descriptor I/O through `libc`, interface
lookup through `getifaddrs`, and the loops that carry out the library's
decisions.
