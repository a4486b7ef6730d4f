# xdxd-backup

A backup tool for Docker volumes (and directories and KVM machines): it packs,
compresses and encrypts archives into a local cache of daily folders, uploads
them to `rclone` remotes, expires old archives locally and remotely, and
restores or unpacks them.

## Layout

- `src/` — the verified library (Verus). It holds the archive naming and
  metadata rules, the retention decisions for the local cache and the remotes
  (with their laws), the choice of uploads, the shell command plans that
  create, restore and unpack archives, the argument rules of each command and
  the listing lines. The order in which the steps of a command run (stop at
  the first failure, cleanup always, the first error wins) is verified too:
  `script::run_script` hands each step to the caller, and each procedure has
  a runner that states its script. Calls into `chrono`, `uuid`, `roxmltree` and `std::path`
  stand behind small trusted wrappers whose contracts are documented where
  they are declared.
- `tests/` — tests of the library on concrete values.
- `app/` — the program: reads the JSON configuration, parses the command line
  with `clap`, walks the cache directories, runs the planned commands in
  `bash` as the runners hand them out, takes the file lock, and mails
  reports rendered with `handlebars`.

## Commands

`create`, `restore`, `unpack`, `list`, `clear-cache`,
`clear-remote-cache`, `upload`, `config`. The configuration file is read from
the path in `XDXD_BACKUP_CONFIG`, or from
`/work/projects/docker-backup/app-config.json`.
