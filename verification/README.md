# mqb_flash

A flash tool for the control modules of VW and Audi cars: engine ECUs of the
Simos 18 family, DQ250 and DQ381 transmissions, and Haldex all-wheel drive.

`src/` is the library, verified with Verus. It does no I/O. What has to be asked of
a control module, a driver or the user is an action it returns; what came back is a
reply it is given.

| Module | What it does |
|---|---|
| `module` | what is known of a control module |
| `frf`, `binfile` | firmware containers and full images |
| `checksum`, `cboot`, `fixup` | checksums of blocks, and the bootloader patch |
| `prepare`, `workshop` | blocks as they are sent, and the workshop code |
| `uds`, `sequence`, `flash`, `session` | the flash sequence and the connections round it |
| `identify`, `immo`, `unlock` | what is fitted, whether it will start, whether it is unlocked |
| `interface`, `j2534` | adapters, and PassThru devices |
| `a2l` | A2L files, and reading values from firmware |
| `viewer` | the calibration browser |
| `wizard` | the flashing wizard |
| `cli`, `logging` | the decisions behind the commands and the log file |

Every public function has a contract that says what it returns. The functions whose
names start with `law_` are proofs of what holds of the library as a whole.

Physical values are floating point numbers and are computed in `app/`, which holds
the program: argument handling, files, the bus, the driver library and the windows.
`app/workspace.rs` calls the sibling crates with the module tables, the compressor,
the ciphers, the seed-key machine, the ODX reader and the Simos checksum. The program
reads `data/frf.key` and `data/box_codes.csv` next to its executable.
