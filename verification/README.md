# nettools

Network statistics on Linux, in two parts.

* `src/` is a library verified with Verus:
  * `tc`, `fq_codel`, `netlink`: the rtnetlink dump of queueing disciplines —
    the request bytes, the decoding of each reply message, the walk through
    the reply datagrams, and the assembly
    of each qdisc (kind, fq_codel configuration, statistics) from the
    attributes of its message, grouped by interface index;
  * `ethtool`, `common`: the SIOCETHTOOL exchange that reads the NIC
    statistics of an interface — the requests, the decoding of the string
    and counter areas, and the step function that sequences the three
    requests; `ethtool_stats` (in `lib.rs`) reads them through any
    `EthtoolReadable` handle;
  * `wire`: the check, made before a reply message is decoded, that it holds
    no statistics block shorter than the decoder reads (such messages, and
    rtnetlink messages other than traffic-control ones, are refused);
  * `text`: UTF-8 decoding of received bytes.
* `app/` is the command-line program around it: the sockets, the ioctl and
  the output.
