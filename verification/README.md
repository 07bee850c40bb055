# netwatcher

The verified core of NetWatcher, a network-monitoring pipeline: capture agents
record PCAPs and analyzer logs, a gateway checks and publishes them to Kafka,
an enricher attaches threat-intelligence and MITRE ATT&CK matches, an indexer
stores events in Elasticsearch, and an MCP server answers queries over them.

`src/` is a Verus library. Its functions carry contracts that Verus proves,
except the eight `#[verifier::external_body]` wrappers around calls into std,
`serde_json`, `subtle`, `url`, `uuid` and `chrono`: their contracts are trusted,
not proved, and each one's doc comment says what it claims of the call. Its
modules:

| Module | Contents |
|--------|----------|
| `text` | Character-level models of the `str` operations the parsers use |
| `event` | Event sources, Zeek log types, payloads and event envelopes |
| `attack` | BZAR notice parsing into ATT&CK tactics and techniques |
| `threat` | IPv4/CIDR matching, the threat store and the Emerging Threats parsers |
| `enrich` | Address extraction and event enrichment |
| `security` | Identifier, batch, Lucene-query, feed-URL and argument screening |
| `config` | Service settings and their defaults |
| `gateway` | Authentication, rate limiting, PCAP upload checks, analyzer output |
| `parser` | PCAP magic numbers, p0f log lines, payload size caps |
| `mcp` | MCP security controls, the tool catalog and request decisions |
| `shipper` | Log tailing offsets, PCAP readiness and upload bookkeeping |
| `capture` | Capture settings, the rotation schedule and pruning |
| `kafka`, `indexer` | Client settings, topic, key and index names, the index template, publish counts |

Public `proof fn law_*` items state properties that relate several operations
(for example, that a lookup after an upsert finds the indicator, or that a rate
limiter passes at most its budget within one window).

`app/` holds the services themselves (`netwatcher <service> [options]`): HTTP,
Kafka, Elasticsearch, stdio and libpcap I/O, serde forms of the library's
types, and the loops that hand events to the library.
