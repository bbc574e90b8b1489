# ssm

A simple service manager: a server that runs services, keeps their logs and
tells the clients connected to it what happens, and a client for the terminal.

The library under `src/` is written and proved in Verus.

- `common` holds the messages and the values they carry.
- `service` is one service, and `server` the server: `Server::handle` takes one
  message and says what is to be done. `model` states what each message does.
- `client` is the state of the client.
- `feed` makes messages of what processes and connections deliver, `ids` names
  services, clients and files, `paths` says where files lie, and `list` draws
  a list and keeps its selection.
- `laws` and `copies` prove what holds of the server whatever messages it
  handles, and that files, clients and copies of logs keep in step with it.

`app/` is the program around it: sockets, processes, files and the terminal.
