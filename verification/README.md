# neewer-bridge

Drives Neewer LED lights over Bluetooth from ArtNet. The library under `src/` holds
everything that decides or computes, verified with Verus; the program under `app/`
holds the sockets, the Bluetooth calls, the files and the terminal.

## The library

| Module | What it holds |
|---|---|
| `artnet` | ArtDmx packets, sequence filtering |
| `merge` | the per-channel merge of several sources, and the packet pipeline |
| `profile` | DMX channels to light states |
| `protocol` | the frames and replies of the three light families, pixel effects, firmware blocks |
| `driver` | light states to frames |
| `bridge` | which light a universe reaches, the failsafe |
| `light` | one connected session: what to send, when a link is dead |
| `scan`, `recovery` | when to scan, how to clear a stale device record |
| `ble` | adapters, lights and characteristics by their plain values, write plans, session health |
| `config`, `models`, `logging`, `startup` | settings and what is wrong with them, the model catalog, log filters, config paths |
| `commands` | the decisions of the command-line tools, the firmware transfer among them |
| `text`, `parse`, `table`, `clock` | characters, numbers, keyed tables, time |

Times are nanoseconds (`clock::Nanos`), texts are stated by their characters, and every
function states its result exactly. Facts that span functions are public proof functions
whose names begin with `law_`.

## What is trusted

- `String::push`, `str::to_lowercase` and `str::to_uppercase` of std (`text`);
- `uuid::Uuid::parse_str` (`ble::gatt`).

The two case conversions and the UUIDs have names of their own in the contracts
(`unicode_lower`, `unicode_upper`, `uuid_value`); what they give on ASCII texts and on
hyphenated UUIDs is stated.

## The program

`app/` reads the config and the model catalog (`config.toml`, `models.toml`) with serde,
talks to the platform through btleplug and D-Bus, and runs one task per light.
