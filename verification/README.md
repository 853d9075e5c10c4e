# oss_share

OSS Share is a Windows tray app that uploads files to Alibaba Cloud OSS from the
Explorer context menu or by drag and drop, and copies a presigned share link.

`src/` is the verified library:

- `upload_state` — the upload tracker: fresh increasing ids, outcomes, snapshots and clearing.
- `win_path` — the file name of a Windows path (drive, UNC, device and verbatim prefixes).
- `config` — the configuration, its defaults, and the stored form of the protected secret.
- `commands` — masking the secret, saving settings, sorting dropped paths.
- `oss` — the OSS service: settings checks, object keys, share links.
- `ipc` — the pipe request, reading it, and the `--upload` command line.
- `tray` — the tray menu's actions and the window navigation script.
- `shell` — the Explorer command's class id, its registry text and wide strings.
- `text` — small text operations.

`app/` holds the Tauri program, the Windows calls (DPAPI, named pipes, the
registry, COM) and the network requests. `app/shell_extension` is the Explorer
command, which on Windows is built as its own DLL.
