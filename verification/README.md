# INZONE Buds

Battery status of Sony INZONE Buds on Linux, read through their USB receiver
(`054c:0ec2`). The left earbud, the right earbud and the charging case are reported
separately. The only report that is ever sent is a parameterless battery `GET`, and only to
a device that was found to be the receiver's battery interface.

The library under `src/` is verified with Verus: what it computes and decides is stated in
contracts and proved. The program under `app/` does the input and output around it.

## Layout

- `battery`: battery cells and their states
- `protocol`: the request, the response and their bytes
- `device`: discovery and verification of the device
- `query`, `query_laws`: one exchange with the device, and what holds of every exchange
- `lookup`: choosing a device and reading its batteries
- `cli`, `json`: arguments, output and exit status of the command-line program
- `tray`, `tray_laws`, `worker`: the tray icon, what holds of its requests for a refresh,
  and the worker that refreshes it
- `error`, `clock`, `path`, `sorting`, `text`: what these are built from

Functions whose names begin with `law_` state what holds of the library as a whole.

## Programs

`inzone-buds` prints the battery status once; `inzone-buds --help` lists its options. Under
the name `inzone-buds-tray` the same program shows an icon in the system tray. It reads the
batteries at its start, once a minute, and on request.
