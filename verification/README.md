# schedmap

SchedMap is an HTTP web server and websocket server for following who is
badged in where, on a floor map uploaded as SVG.

- `src/` is the verified library (Verus): the shared server state and the
  rules by which it changes (visits, connections, badge reads), the
  handling of websocket messages as a decision function, room lookup on the
  SVG map (read with quick-xml), the employee list (read with csv), the
  multipart boundary of uploads, and the texts the routes serve.
- `app/` is the program around it: command line, the Rocket routes, the
  websocket server, the broadcast channel, the lock around the state, and
  the files in the data directory.
- `tests/` exercises the library on concrete inputs.

The browser app's static files are read at run time from `www/` in the
working directory.
