# vivo

Vivo runs [restic](https://restic.net) backups from a KDL configuration and syncs the
local repository to remote backends (S3-compatible stores, Backblaze B2, RustFS),
with the credentials kept in a sops/age-encrypted YAML file.

The library under `src/` is written in Verus: its functions carry contracts that
Verus proves. It holds

- the configuration model and the edits of the KDL configuration file
  (`config_editor`, with the laws that tie the edits together in `edit_laws`);
- the order in which tasks and the tasks they call run (`task_run`), and the restic
  commands of a backup run (`backup_run`);
- the remote backends, the commands that sync to them, the steps of a sync to one
  remote, and the round of syncs over a task's remotes (`remote`, `sync_plan`,
  `sync_job`, `remote_sync`);
- the checks of `vivo doctor`, the mountable repositories, the update check, and
  the configuration manager's state and key handling (`doctor`, `mount`, `update`,
  `tui_app`, `tui_events`, `remote_test`, `credentials`);
- the edit of the decrypted secrets' YAML that stores a credentials profile
  (`secrets_yaml`).

Calls into the `kdl`, `serde_yml` and `regex` crates go through small trusted
wrappers (`kdl_doc`, `secrets_yaml`, `env`), whose contracts state what those crates
do.

`app/` is the `vivo` program around the library: the command line, files, processes
and the terminal screen.
