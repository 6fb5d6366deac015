# Sidestep

Sidestep installs mobile Linux distributions (Ubuntu Touch, postmarketOS,
Mobian, Droidian, LineageOS, /e/OS, GrapheneOS) on Android phones. This
crate is its core, written in Verus: every decision it makes is proved
against a contract.

## Layout

- `src/` — the verified library.
  - `models/` — device records and their database (a synced record
    overrides the bundled one of the same device), distribution and
    installer configs, the unlocking guide, system-image indexes, and device-data sync
    (archive paths confined to the device tree, signature check).
  - `hardware/` — `adb`, `fastboot` and `heimdall` command lines and the
    parsing of their output; the device detector's polling decisions
    (a device is announced once, a disconnection once; a stopped detector
    ends its loop, a paused one checks nothing, a resumed one detects
    afresh).
  - `flashing/` — each installer as a plan of actions (download, verify,
    decompress, extract, run a command, wait), the step function that
    runs a plan (a failure stops it), safe download destinations, checksum
    handling, image decoding (`xz`, `gzip`) and archive listing (`tar`,
    `zip`, keeping only entries that stay inside their directory), and the
    listing parsers that pick the latest builds.
  - `install_flow.rs`, `wizard.rs`, `browser.rs` — the installation flow's
    routing (battery guard, Heimdall devices, channels and interfaces),
    the unlocking wizard (only `adb` and `fastboot` ever run), and the
    device browser's grouping and status rows.
  - `text.rs`, `paths.rs` — strings and paths as sequences of characters.
- `tests/` — tests of the library on concrete values.
- `app/` — a command-line program around the library: it reads the device
  data files, runs the commands and downloads the plans ask for, writes out
  the files the library takes out of archives, and prints progress.

The outside crates that do cryptography (`sha2`, `minisign-verify`) and
decoding (`xz2`, `flate2`, `tar`, `zip`) are called from the library behind
small trusted wrappers whose contracts say what their documentation
promises or name their results.
