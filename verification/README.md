# openclaw_manager

The logic of OpenClaw Manager, a desktop tool that installs Node.js and
OpenClaw, sets up OpenClaw's configuration, installs skills and runs the
OpenClaw gateway service, written in Verus and proved against its contracts.

- `src/` is the verified library: text handling (`text`), versions
  (`version`), the environment check (`environment`), paths (`paths`), the
  installer's decisions (`installer`), skills (`skills`) and their zip
  archives (`archive`, which reads them with the `zip` crate), the gateway's logs
  (`logs`), the port and process tools (`ports`), the service's state
  machines (`service`) and the properties that hold across them (`laws`).
- `app/` is the program around it: it runs the commands, touches the file
  system and the network, and prints each command's answer as JSON. The
  desktop shell that would carry those answers to a window cannot be built
  here, so the program is a command line whose answers `serde_json` prints;
  that is the one use of `serde_json`, and only `app/` makes it.
- `tests/` exercises the library on concrete values.
