# cosmic-comp, the verified part

The decisions of a Wayland compositor and of `cosmic-background-launch`, the
client of its background launch service, written in Verus. Every function under
`src/` has a contract that Verus proves.

- `command_line` reads the client's arguments and chooses the D-Bus method;
  `grammar` states the grammar of the command line and proves that exactly the
  lines that follow it are read.
- `background_launch` holds the service's requests, answers and the steps of a
  launch; `environment` the variables of a launched child.
- `state` is the compositor's state and what changes it; `startup` its command
  line, priority and what it does once it is ready; `refresh` the pacing of
  refreshes; `children` its child processes.
- `capture_sessions` and `capture_queue` hold capture sessions and the frames
  that wait on them.
- `main_loop_stats` and `time` count how long things take; `text` has the text
  helpers.

`app/` is the program around the library: D-Bus, processes, the event loop.
The rest of the compositor, such as its windows and its backend, comes in
through the trait `Shell`.
